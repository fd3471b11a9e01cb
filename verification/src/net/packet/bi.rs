use vstd::prelude::*;

use crate::clock::GameTick;
use crate::net::packet::bytes::{get_u32_le, le_u32, lemma_le_u32_roundtrip, push_bytes, push_u32_le, read_le_u32};

verus! {

/// 0x03: a payload the receiver must acknowledge.
pub struct ReliableDataMessage {
    pub id: u32,
    pub data: Vec<u8>,
}

impl ReliableDataMessage {
    pub fn serialize(&self) -> (r: Vec<u8>)
        ensures
            r@ == seq![0u8, 0x03u8] + le_u32(self.id) + self.data@,
    {
        let mut out: Vec<u8> = Vec::new();
        out.push(0x00);
        out.push(0x03);
        push_u32_le(&mut out, self.id);
        push_bytes(&mut out, self.data.as_slice());
        out
    }
}

/// 0x04: acknowledges a reliable payload.
pub struct ReliableAckMessage {
    pub id: u32,
}

impl ReliableAckMessage {
    pub fn serialize(&self) -> (r: Vec<u8>)
        ensures
            r@ == seq![0u8, 0x04u8] + le_u32(self.id),
    {
        let mut out: Vec<u8> = Vec::new();
        out.push(0x00);
        out.push(0x04);
        push_u32_le(&mut out, self.id);
        out
    }
}

/// 0x05: asks the other side for its clock.
pub struct ClockSyncRequestMessage {
    pub local_tick: u32,
    pub packets_sent: u32,
    pub packets_recv: u32,
}

impl ClockSyncRequestMessage {
    pub fn new(local_tick: GameTick, packets_sent: u32, packets_recv: u32) -> (r: ClockSyncRequestMessage)
        ensures
            r.local_tick == local_tick.value,
            r.packets_sent == packets_sent,
            r.packets_recv == packets_recv,
    {
        ClockSyncRequestMessage { local_tick: local_tick.value(), packets_sent, packets_recv }
    }

    pub fn serialize(&self) -> (r: Vec<u8>)
        ensures
            r@ == seq![0u8, 0x05u8] + le_u32(self.local_tick) + le_u32(self.packets_sent)
                + le_u32(self.packets_recv),
    {
        let mut out: Vec<u8> = Vec::new();
        out.push(0x00);
        out.push(0x05);
        push_u32_le(&mut out, self.local_tick);
        push_u32_le(&mut out, self.packets_sent);
        push_u32_le(&mut out, self.packets_recv);
        out
    }
}

/// 0x06: answers a clock request.
pub struct ClockSyncResponseMessage {
    pub request_timestamp: u32,
    pub response_timestamp: u32,
}

impl ClockSyncResponseMessage {
    pub fn serialize(&self) -> (r: Vec<u8>)
        ensures
            r@ == seq![0u8, 0x06u8] + le_u32(self.request_timestamp) + le_u32(self.response_timestamp),
    {
        let mut out: Vec<u8> = Vec::new();
        out.push(0x00);
        out.push(0x06);
        push_u32_le(&mut out, self.request_timestamp);
        push_u32_le(&mut out, self.response_timestamp);
        out
    }
}

/// 0x07: ends the connection.
impl ClockSyncResponseMessage {
    /// Reads a clock sync response: `0x00 0x06`, then the two timestamps.
    pub fn parse(data: &[u8]) -> (r: Option<ClockSyncResponseMessage>)
        ensures
            (data@.len() >= 10 && data@[0] == 0 && data@[1] == 6) <==> r is Some,
            r matches Some(m) ==> m.request_timestamp == read_le_u32(data@, 2)
                && m.response_timestamp == read_le_u32(data@, 6),
    {
        if data.len() < 10 || data[0] != 0 || data[1] != 6 {
            return None;
        }
        Some(ClockSyncResponseMessage {
            request_timestamp: get_u32_le(data, 2),
            response_timestamp: get_u32_le(data, 6),
        })
    }
}

/// Reading a serialized clock sync response gives it back.
pub proof fn lemma_clock_sync_response_roundtrip(request_timestamp: u32, response_timestamp: u32)
    ensures
        ({
            let bytes = seq![0u8, 0x06u8] + le_u32(request_timestamp) + le_u32(response_timestamp);
            &&& bytes.len() == 10 && bytes[0] == 0 && bytes[1] == 6
            &&& read_le_u32(bytes, 2) == request_timestamp
            &&& read_le_u32(bytes, 6) == response_timestamp
        }),
{
    let bytes = seq![0u8, 0x06u8] + le_u32(request_timestamp) + le_u32(response_timestamp);
    lemma_le_u32_roundtrip(request_timestamp);
    lemma_le_u32_roundtrip(response_timestamp);
    assert(bytes.subrange(2, 6) =~= le_u32(request_timestamp));
    assert(bytes.subrange(6, 10) =~= le_u32(response_timestamp));
    assert(read_le_u32(bytes, 2) == read_le_u32(le_u32(request_timestamp), 0));
    assert(read_le_u32(bytes, 6) == read_le_u32(le_u32(response_timestamp), 0));
}

pub struct DisconnectMessage {}

impl DisconnectMessage {
    pub fn serialize(&self) -> (r: Vec<u8>)
        ensures
            r@ == seq![0u8, 0x07u8],
    {
        let mut out: Vec<u8> = Vec::new();
        out.push(0x00);
        out.push(0x07);
        assert(out@ =~= seq![0u8, 0x07u8]);
        out
    }
}

/// 0x08: a piece of a message split into small chunks.
pub struct SmallChunkBodyMessage {
    pub data: Vec<u8>,
}

/// 0x09: the last piece of a message split into small chunks.
pub struct SmallChunkTailMessage {
    pub data: Vec<u8>,
}

/// 0x0A: a piece of a large transfer with its total size.
pub struct HugeChunkMessage {
    pub total_size: u32,
    pub data: Vec<u8>,
}

impl HugeChunkMessage {
    pub fn serialize(&self) -> (r: Vec<u8>)
        ensures
            r@ == seq![0u8, 0x0Au8] + le_u32(self.total_size) + self.data@,
    {
        let mut out: Vec<u8> = Vec::new();
        out.push(0x00);
        out.push(0x0A);
        push_u32_le(&mut out, self.total_size);
        push_bytes(&mut out, self.data.as_slice());
        out
    }
}

/// 0x0B: cancels a large transfer.
pub struct HugeChunkCancelMessage {}

impl HugeChunkCancelMessage {
    pub fn serialize(&self) -> (r: Vec<u8>)
        ensures
            r@ == seq![0u8, 0x0Bu8],
    {
        let mut out: Vec<u8> = Vec::new();
        out.push(0x00);
        out.push(0x0B);
        assert(out@ =~= seq![0u8, 0x0Bu8]);
        out
    }
}

/// 0x0C: acknowledges a cancelled large transfer.
pub struct HugeChunkCancelAckMessage {}

impl HugeChunkCancelAckMessage {
    pub fn serialize(&self) -> (r: Vec<u8>)
        ensures
            r@ == seq![0u8, 0x0Cu8],
    {
        let mut out: Vec<u8> = Vec::new();
        out.push(0x00);
        out.push(0x0C);
        assert(out@ =~= seq![0u8, 0x0Cu8]);
        out
    }
}

/// 0x0E: several messages sent together.
pub struct ClusterMessage {
    pub data: Vec<u8>,
}

impl ClusterMessage {
    pub fn serialize(&self) -> (r: Vec<u8>)
        ensures
            r@ == seq![0u8, 0x0Eu8] + self.data@,
    {
        let mut out: Vec<u8> = Vec::new();
        out.push(0x00);
        out.push(0x0E);
        push_bytes(&mut out, self.data.as_slice());
        out
    }
}

/// The items a player carries, as sent in extra position data.
#[derive(Copy, Clone, Debug)]
pub struct ItemSet {
    pub shield_active: bool,
    pub super_active: bool,
    pub bursts: u8,
    pub repels: u8,
    pub thors: u8,
    pub bricks: u8,
    pub decoys: u8,
    pub rockets: u8,
    pub portals: u8,
}

/// The item set packed in the low 30 bits of `data`.
pub open spec fn item_set_of(data: u32) -> ItemSet {
    ItemSet {
        shield_active: (data & 1) != 0,
        super_active: ((data >> 1) & 1) != 0,
        bursts: ((data >> 2) & 0x0F) as u8,
        repels: ((data >> 6) & 0x0F) as u8,
        thors: ((data >> 10) & 0x0F) as u8,
        bricks: ((data >> 14) & 0x0F) as u8,
        decoys: ((data >> 18) & 0x0F) as u8,
        rockets: ((data >> 22) & 0x0F) as u8,
        portals: ((data >> 26) & 0x0F) as u8,
    }
}

pub open spec fn bool_bit(b: bool) -> u32 {
    if b { 1 } else { 0 }
}

/// The 30-bit packing of an item set; each count keeps its low four bits.
pub open spec fn pack_item_set(s: ItemSet) -> u32 {
    ((s.portals as u32 & 0x0F) << 26) | ((s.rockets as u32 & 0x0F) << 22) | ((s.decoys as u32 & 0x0F) << 18)
        | ((s.bricks as u32 & 0x0F) << 14) | ((s.thors as u32 & 0x0F) << 10) | ((s.repels as u32 & 0x0F) << 6)
        | ((s.bursts as u32 & 0x0F) << 2) | (bool_bit(s.super_active) << 1) | bool_bit(s.shield_active)
}

impl ItemSet {
    pub fn empty() -> (r: ItemSet)
        ensures
            r == item_set_of(0),
    {
        let r = ItemSet {
            shield_active: false,
            super_active: false,
            bursts: 0,
            repels: 0,
            thors: 0,
            bricks: 0,
            decoys: 0,
            rockets: 0,
            portals: 0,
        };
        assert(r == item_set_of(0)) by {
            assert((0u32 & 1) == 0) by (bit_vector);
            assert(((0u32 >> 1u32) & 1) == 0) by (bit_vector);
            assert(forall|k: u32| k < 32 ==> ((0u32 >> k) & 0x0F) == 0) by (bit_vector);
        }
        r
    }

    pub fn parse(data: u32) -> (r: ItemSet)
        ensures
            r == item_set_of(data),
    {
        ItemSet {
            shield_active: (data & 1) != 0,
            super_active: ((data >> 1) & 1) != 0,
            bursts: ((data >> 2) & 0x0F) as u8,
            repels: ((data >> 6) & 0x0F) as u8,
            thors: ((data >> 10) & 0x0F) as u8,
            bricks: ((data >> 14) & 0x0F) as u8,
            decoys: ((data >> 18) & 0x0F) as u8,
            rockets: ((data >> 22) & 0x0F) as u8,
            portals: ((data >> 26) & 0x0F) as u8,
        }
    }

    pub fn pack(&self) -> (r: u32)
        ensures
            r == pack_item_set(*self),
    {
        let portals = (self.portals as u32 & 0x0F) << 26;
        let rockets = (self.rockets as u32 & 0x0F) << 22;
        let decoys = (self.decoys as u32 & 0x0F) << 18;
        let bricks = (self.bricks as u32 & 0x0F) << 14;
        let thors = (self.thors as u32 & 0x0F) << 10;
        let repels = (self.repels as u32 & 0x0F) << 6;
        let bursts = (self.bursts as u32 & 0x0F) << 2;
        let super_active: u32 = (if self.super_active { 1u32 } else { 0u32 }) << 1;
        let shield_active: u32 = if self.shield_active { 1u32 } else { 0u32 };
        portals | rockets | decoys | bricks | thors | repels | bursts | super_active | shield_active
    }
}

/// Unpacking a packed item set gives it back when every count fits in four bits.
pub proof fn lemma_item_set_roundtrip(s: ItemSet)
    requires
        s.bursts < 16 && s.repels < 16 && s.thors < 16 && s.bricks < 16,
        s.decoys < 16 && s.rockets < 16 && s.portals < 16,
    ensures
        item_set_of(pack_item_set(s)) == s,
{
    let sh = bool_bit(s.shield_active);
    let su = bool_bit(s.super_active);
    let (bu, re, th, br, de, ro, po) = (s.bursts as u32, s.repels as u32, s.thors as u32, s.bricks as u32,
        s.decoys as u32, s.rockets as u32, s.portals as u32);
    let d = pack_item_set(s);
    assert(d == ((po & 0x0F) << 26) | ((ro & 0x0F) << 22) | ((de & 0x0F) << 18) | ((br & 0x0F) << 14)
        | ((th & 0x0F) << 10) | ((re & 0x0F) << 6) | ((bu & 0x0F) << 2) | (su << 1) | sh);
    assert({
        &&& (d & 1) == sh
        &&& ((d >> 1) & 1) == su
        &&& ((d >> 2) & 0x0F) == bu
        &&& ((d >> 6) & 0x0F) == re
        &&& ((d >> 10) & 0x0F) == th
        &&& ((d >> 14) & 0x0F) == br
        &&& ((d >> 18) & 0x0F) == de
        &&& ((d >> 22) & 0x0F) == ro
        &&& ((d >> 26) & 0x0F) == po
    }) by (bit_vector)
        requires
            sh <= 1 && su <= 1 && bu < 16 && re < 16 && th < 16 && br < 16 && de < 16 && ro < 16 && po < 16,
            d == ((po & 0x0F) << 26) | ((ro & 0x0F) << 22) | ((de & 0x0F) << 18) | ((br & 0x0F) << 14)
                | ((th & 0x0F) << 10) | ((re & 0x0F) << 6) | ((bu & 0x0F) << 2) | (su << 1) | sh;
}

/// Packing an unpacked value gives back its low 30 bits.
pub proof fn lemma_pack_parse(data: u32)
    ensures
        pack_item_set(item_set_of(data)) == data & 0x3FFF_FFFF,
{
    let s = item_set_of(data);
    let sh = bool_bit(s.shield_active);
    let su = bool_bit(s.super_active);
    assert(sh == (data & 1)) by (bit_vector)
        requires sh == (if (data & 1) != 0 { 1u32 } else { 0u32 });
    assert(su == ((data >> 1) & 1)) by (bit_vector)
        requires su == (if ((data >> 1) & 1) != 0 { 1u32 } else { 0u32 });
    assert(((data >> 2) & 0x0F) as u8 as u32 == ((data >> 2) & 0x0F)) by (bit_vector);
    assert(((data >> 6) & 0x0F) as u8 as u32 == ((data >> 6) & 0x0F)) by (bit_vector);
    assert(((data >> 10) & 0x0F) as u8 as u32 == ((data >> 10) & 0x0F)) by (bit_vector);
    assert(((data >> 14) & 0x0F) as u8 as u32 == ((data >> 14) & 0x0F)) by (bit_vector);
    assert(((data >> 18) & 0x0F) as u8 as u32 == ((data >> 18) & 0x0F)) by (bit_vector);
    assert(((data >> 22) & 0x0F) as u8 as u32 == ((data >> 22) & 0x0F)) by (bit_vector);
    assert(((data >> 26) & 0x0F) as u8 as u32 == ((data >> 26) & 0x0F)) by (bit_vector);
    assert(((((data >> 26) & 0x0F) & 0x0F) << 26) | ((((data >> 22) & 0x0F) & 0x0F) << 22)
        | ((((data >> 18) & 0x0F) & 0x0F) << 18) | ((((data >> 14) & 0x0F) & 0x0F) << 14)
        | ((((data >> 10) & 0x0F) & 0x0F) << 10) | ((((data >> 6) & 0x0F) & 0x0F) << 6)
        | ((((data >> 2) & 0x0F) & 0x0F) << 2) | (((data >> 1) & 1) << 1) | (data & 1)
        == data & 0x3FFF_FFFF) by (bit_vector);
}

/// Extra data that some position packets carry.
#[derive(Copy, Clone, Debug)]
pub struct ExtraPositionData {
    pub energy: u16,
    pub s2c_latency: u16,
    pub flag_timer: u16,
    pub items: ItemSet,
}

} // verus!

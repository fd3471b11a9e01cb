use vstd::prelude::*;
use vstd::slice::slice_subrange;
use vstd::string::StringSliceAdditionalSpecFns;
use vstd::utf8::{decode_utf8, valid_utf8};

use miniz_oxide::deflate::compress_to_vec_zlib;

use crate::net::packet::bytes::{get_u16_le, get_u32_le, le_u32, push_bytes, push_u32_le, read_le_u16, read_le_u32};
use crate::text::str_from_utf8;

verus! {

/// Bytes arriving on the client's stream, gathered until a whole message
/// (a 4-byte length, a control byte and the payload) is in.
pub struct ReceiveBuffer {
    pub buffer: Vec<u8>,
    pub offset: usize,
}

/// `b` cut or padded with zeros to `n` bytes.
pub open spec fn resized(b: Seq<u8>, n: int) -> Seq<u8> {
    if n <= b.len() {
        b.subrange(0, n)
    } else {
        b + Seq::new((n - b.len()) as nat, |i: int| 0u8)
    }
}

impl ReceiveBuffer {
    pub fn new() -> (r: ReceiveBuffer)
        ensures
            r.buffer@ == Seq::new(4096, |i: int| 0u8),
            r.offset == 0,
    {
        let mut buffer: Vec<u8> = Vec::new();
        let mut i: usize = 0;
        while i < 4096
            invariant
                i <= 4096,
                buffer@ == Seq::new(i as nat, |k: int| 0u8),
            decreases 4096 - i,
        {
            buffer.push(0);
            i = i + 1;
        }
        ReceiveBuffer { buffer, offset: 0 }
    }

    /// Writes received bytes into the free part of the buffer, at the
    /// offset, as far as they fit; returns how many were written. `process`
    /// then counts them in.
    pub fn fill_insert_slice(&mut self, data: &[u8]) -> (r: usize)
        requires
            old(self).offset <= old(self).buffer@.len(),
        ensures
            r == (if data@.len() < old(self).buffer@.len() - old(self).offset {
                data@.len() as int
            } else {
                old(self).buffer@.len() - old(self).offset
            }),
            final(self).offset == old(self).offset,
            final(self).buffer@ == old(self).buffer@.subrange(0, old(self).offset as int)
                + data@.subrange(0, r as int)
                + old(self).buffer@.subrange(old(self).offset + r, old(self).buffer@.len() as int),
    {
        let len = self.buffer.len();
        let room = len - self.offset;
        let n = if data.len() < room { data.len() } else { room };
        let mut i: usize = 0;
        while i < n
            invariant
                i <= n,
                n <= data@.len(),
                self.offset == old(self).offset,
                self.offset + n <= self.buffer@.len(),
                self.buffer@.len() == old(self).buffer@.len(),
                self.buffer@.len() == len,
                self.buffer@ == old(self).buffer@.subrange(0, self.offset as int)
                    + data@.subrange(0, i as int)
                    + old(self).buffer@.subrange(self.offset + i, old(self).buffer@.len() as int),
            decreases n - i,
        {
            let at = self.offset + i;
            self.buffer.set(at, data[i]);
            i = i + 1;
            proof {
                assert(self.buffer@ =~= old(self).buffer@.subrange(0, self.offset as int)
                    + data@.subrange(0, i as int)
                    + old(self).buffer@.subrange(self.offset + i, old(self).buffer@.len() as int));
            }
        }
        n
    }

    /// Counts `bytes_recv` more bytes in. Once the whole message is in, it
    /// is returned (all bytes received so far) and the buffer starts over.
    pub fn process(&mut self, bytes_recv: usize) -> (r: Option<Vec<u8>>)
        requires
            old(self).offset + bytes_recv <= usize::MAX,
            old(self).offset + bytes_recv >= 5 ==> old(self).buffer@.len() >= 4
                && read_le_u32(old(self).buffer@, 0) + 5 <= usize::MAX,
        ensures
            final(self).buffer@ == old(self).buffer@,
            ({
                let n = old(self).offset + bytes_recv;
                if n < 5 || n < read_le_u32(old(self).buffer@, 0) + 5 {
                    r is None && final(self).offset == n
                } else {
                    r matches Some(v) && v@ == resized(old(self).buffer@, n) && final(self).offset == 0
                }
            }),
    {
        self.offset = self.offset + bytes_recv;
        if self.offset < 5 {
            return None;
        }
        let payload_size = get_u32_le(self.buffer.as_slice(), 0) as usize;
        let required_buffer_size = payload_size + 5;
        if self.offset < required_buffer_size {
            return None;
        }
        let result_size = self.offset;
        let mut result: Vec<u8> = Vec::new();
        let mut i: usize = 0;
        while i < result_size
            invariant
                i <= result_size,
                result_size == old(self).offset + bytes_recv,
                self.buffer@ == old(self).buffer@,
                result@ == resized(self.buffer@, i as int),
            decreases result_size - i,
        {
            if i < self.buffer.len() {
                result.push(self.buffer[i]);
            } else {
                result.push(0);
            }
            i = i + 1;
            proof {
                assert(result@ =~= resized(self.buffer@, i as int));
            }
        }
        self.offset = 0;
        Some(result)
    }
}

/// A client's request for a map file, as the proxy reads it.
pub struct MapRequest {
    /// The file name, when it is valid text.
    pub filename: Option<String>,
    pub checksum: u32,
    pub index: u16,
    /// The request to pass on to the game server when the proxy cannot serve it.
    pub fallback: Vec<u8>,
}

/// The 16-byte name field, zero-terminated at its last byte, and at the
/// byte before when that is a dot.
pub open spec fn terminated_name(packet: Seq<u8>) -> Seq<u8> {
    let f = packet.subrange(0, 16).update(15, 0u8);
    if f[14] == 46 { f.update(14, 0u8) } else { f }
}

/// The name in the request: the name field up to its first zero byte.
pub open spec fn requested_name(packet: Seq<u8>) -> Option<Seq<char>> {
    let f = terminated_name(packet);
    let n = crate::lvz::nul_pos(f, 0);
    if valid_utf8(f.subrange(0, n)) { Some(decode_utf8(f.subrange(0, n))) } else { None }
}

/// Reads a map request: a 16-byte name, a 32-bit checksum, a 16-bit index,
/// then the request to fall back on.
pub fn parse_map_request(packet: &[u8]) -> (r: MapRequest)
    requires
        packet@.len() >= 22,
    ensures
        match requested_name(packet@) {
            Some(name) => r.filename matches Some(s) && s@ == name,
            None => r.filename is None,
        },
        r.checksum == read_le_u32(packet@, 16),
        r.index == read_le_u16(packet@, 20),
        r.fallback@ == packet@.subrange(22, packet@.len() as int),
{
    let checksum = get_u32_le(packet, 16);
    let index = get_u16_le(packet, 20);
    let mut fallback: Vec<u8> = Vec::new();
    push_bytes(&mut fallback, slice_subrange(packet, 22, packet.len()));
    let mut name: Vec<u8> = Vec::new();
    let mut i: usize = 0;
    while i < 16
        invariant
            i <= 16,
            packet@.len() >= 22,
            name@ == packet@.subrange(0, i as int),
        decreases 16 - i,
    {
        name.push(packet[i]);
        i = i + 1;
        proof {
            assert(name@ =~= packet@.subrange(0, i as int));
        }
    }
    name.set(15, 0);
    if name[14] == 46 {
        name.set(14, 0);
    }
    proof {
        assert(name@ =~= terminated_name(packet@));
    }
    let mut n: usize = 0;
    while n < 16
        invariant_except_break
            n <= 16,
            name@.len() == 16,
            crate::lvz::nul_pos(name@, 0) == crate::lvz::nul_pos(name@, n as int),
        ensures
            n <= 16,
            name@.len() == 16,
            n == crate::lvz::nul_pos(name@, 0),
        decreases 16 - n,
    {
        if name[n] == 0 {
            break;
        }
        n = n + 1;
    }
    let filename = match str_from_utf8(slice_subrange(name.as_slice(), 0, n)) {
        Some(text) => Some(text.to_owned()),
        None => None,
    };
    MapRequest { filename, checksum, index, fallback }
}

/// What zlib compression at `level` makes of `data`.
pub uninterp spec fn zlib_compressed(data: Seq<u8>, level: u8) -> Seq<u8>;

/// `miniz_oxide::deflate::compress_to_vec_zlib`: compresses with a zlib
/// wrapper. Which bytes come out is left to `zlib_compressed`.
#[verifier::external_body]
fn deflate_zlib(data: &[u8], level: u8) -> (r: Vec<u8>)
    ensures
        r@ == zlib_compressed(data@, level),
{
    compress_to_vec_zlib(data, level)
}

/// The map bytes as they are sent: compressed at level 6 for the map
/// itself (index 0), unchanged for its other parts.
pub fn map_payload(raw_data: &[u8], index: u16) -> (r: Vec<u8>)
    ensures
        r@ == if index == 0 { zlib_compressed(raw_data@, 6) } else { raw_data@ },
{
    if index == 0 {
        deflate_zlib(raw_data, 6)
    } else {
        let mut copy: Vec<u8> = Vec::new();
        push_bytes(&mut copy, raw_data);
        copy
    }
}

/// The message that carries map data to the client: the payload length
/// plus 17, a zero control byte, the map-data code 0x2A, the name padded
/// to 16 bytes with zeros, then the data.
pub fn map_data_message(data: &[u8], filename: &str) -> (r: Vec<u8>)
    requires
        filename.spec_bytes().len() <= 16,
        (data@.len() as u32) + 17 <= u32::MAX,
    ensures
        r@ == le_u32(((data@.len() as u32) + 17) as u32) + seq![0u8, 0x2Au8]
            + filename.spec_bytes() + Seq::new((16 - filename.spec_bytes().len()) as nat, |i: int| 0u8) + data@,
{
    let payload_length: u32 = data.len() as u32 + 17;
    let mut buffer: Vec<u8> = Vec::new();
    push_u32_le(&mut buffer, payload_length);
    buffer.push(0x00);
    buffer.push(0x2A);
    let name = filename.as_bytes();
    let ghost head = buffer@;
    let mut full_name: Vec<u8> = Vec::new();
    let mut i: usize = 0;
    while i < 16
        invariant
            i <= 16,
            name@.len() <= 16,
            full_name@ == (if i <= name@.len() {
                name@.subrange(0, i as int)
            } else {
                name@ + Seq::new((i - name@.len()) as nat, |k: int| 0u8)
            }),
        decreases 16 - i,
    {
        if i < name.len() {
            full_name.push(name[i]);
        } else {
            full_name.push(0);
        }
        i = i + 1;
        proof {
            if i <= name@.len() {
                assert(full_name@ =~= name@.subrange(0, i as int));
            } else {
                assert(full_name@ =~= name@ + Seq::new((i - name@.len()) as nat, |k: int| 0u8));
            }
        }
    }
    push_bytes(&mut buffer, full_name.as_slice());
    push_bytes(&mut buffer, data);
    proof {
        if name@.len() == 16 {
            assert(name@.subrange(0, 16) =~= name@ + Seq::new(0, |k: int| 0u8));
        }
        assert(buffer@ =~= le_u32(payload_length) + seq![0u8, 0x2Au8] + name@
            + Seq::new((16 - name@.len()) as nat, |k: int| 0u8) + data@);
    }
    buffer
}

} // verus!

use vstd::prelude::*;
use vstd::string::StringSliceAdditionalSpecFns;
use vstd::utf8::{decode_utf8, encode_utf8, valid_utf8};

use crate::game_settings::GameSettings;
use crate::math::{div_i32, trunc_div};
use crate::net::packet::c2s::SendChatMessage;
use crate::net::packet::s2c::ChatKind;
use crate::player::{Player, PlayerId, PlayerManager, name_pos};
use crate::render::text_renderer::TextColor;
use crate::text::{lowercase, parse_u16, parsed_u16, str_from_utf8, str_trim, to_lowercase, trimmed};

verus! {

/// A command typed into the chat line instead of a message.
#[derive(Clone, Debug)]
pub enum ChatCommand {
    /// `=number`: change to that team; 0xFFFFFFFF when the number is not one.
    ChangeFrequency(u32),
    /// `?go arena`: move to another arena.
    Go(String),
}

/// Who a typed line goes to, by its first characters.
#[derive(Copy, Clone, Debug, PartialEq, Eq, Structural)]
pub enum ChatSendKind {
    Public,
    Private,
    Team,
    Frequency,
    Channel,
}

#[derive(Copy, Clone, Debug, PartialEq, Eq, Structural)]
pub enum ChatRenderMode {
    Normal,
    Full,
    Hidden,
}

/// A received chat line.
pub struct ChatEntry {
    pub kind: ChatKind,
    pub sender: String,
    pub message: String,
}

/// The chat input line, the history of received lines and the names of
/// recent private correspondents.
pub struct ChatController {
    pub input: Vec<u8>,
    pub messages: Vec<ChatEntry>,
    pub insert_index: usize,
    pub render_mode: ChatRenderMode,
    pub recent_private: Vec<String>,
    pub message_spans: Vec<(u16, u16)>,
}

/// Lines kept in the history.
pub const MAX_MESSAGE_HISTORY: usize = 64;
/// Private correspondents remembered.
pub const RECENT_NAME_COUNT: usize = 5;
/// Longest chat input, in bytes.
pub const MAX_INPUT_LENGTH: usize = 250;

/// The first position at or after `from` of a name whose lower-case form is `key`.
pub open spec fn recent_pos(names: Seq<String>, key: Seq<char>, from: int) -> int
    decreases names.len() - from,
{
    if from >= names.len() || from < 0 {
        names.len() as int
    } else if lowercase(names[from]@) == key {
        from
    } else {
        recent_pos(names, key, from + 1)
    }
}

/// The remembered names after a private line from `sender`: an entry with
/// the same name, ignoring case, moves to the end, and the oldest is
/// forgotten when the list is full.
pub open spec fn recent_after(names: Seq<String>, sender: String) -> Seq<String> {
    let k = recent_pos(names, lowercase(sender@), 0);
    let n1 = if k < names.len() { names.remove(k) } else { names };
    let n2 = if n1.len() >= RECENT_NAME_COUNT { n1.remove(0) } else { n1 };
    n2.push(sender)
}

/// The remembered name that comes before `current`, cycling; the newest
/// one when `current` is not remembered.
pub open spec fn next_recent(names: Seq<String>, current: Seq<char>) -> String {
    let k = recent_pos(names, lowercase(current), 0);
    if k < names.len() {
        names[(k - 1 + names.len()) % (names.len() as int)]
    } else {
        names[names.len() - 1]
    }
}

/// What the input line gives when it is sent.
#[derive(Clone, Debug)]
pub enum ChatInput {
    /// A command, which the client carries out.
    Command(ChatCommand),
    /// A chat line to send to the server.
    Send(SendChatMessage),
    /// Nothing: the line was not valid text.
    Nothing,
}

/// The first `:` character at or after `from`.
pub open spec fn char_colon_pos(m: Seq<char>, from: int) -> int
    decreases m.len() - from,
{
    if from < 0 || from >= m.len() {
        m.len() as int
    } else if m[from] == ':' {
        from
    } else {
        char_colon_pos(m, from + 1)
    }
}

/// The chat line an input line is sent as: its channel, its addressee and
/// its text, `players` being the arena's players and `selected` the player
/// picked in the player list. A line `:name:text` goes privately to the
/// player of that name when there is one, and as it is to the server
/// otherwise.
pub open spec fn outgoing_chat(input: Seq<u8>, players: Seq<Player>, selected: PlayerId) -> (ChatKind, Option<PlayerId>, Seq<char>) {
    let m = decode_utf8(input);
    match send_kind_of(input) {
        ChatSendKind::Public => (ChatKind::Public, None, m),
        ChatSendKind::Team => {
            let skip: int = if input[0] == 39 { 1 } else { 2 };
            (ChatKind::Team, None, m.subrange(skip, m.len() as int))
        },
        ChatSendKind::Private => if input[0] == 58 {
            let c = char_colon_pos(m, 1);
            if c < m.len() {
                let k = name_pos(players, m.subrange(1, c), 0);
                if k < players.len() {
                    (ChatKind::Private, Some(players[k].id), m.subrange(c + 1, m.len() as int))
                } else {
                    (ChatKind::RemotePrivate, None, m)
                }
            } else {
                (ChatKind::Public, None, m)
            }
        } else {
            (ChatKind::Private, Some(selected), m.subrange(1, m.len() as int))
        },
        ChatSendKind::Frequency => (ChatKind::Frequency, Some(selected), m.subrange(1, m.len() as int)),
        ChatSendKind::Channel => (ChatKind::Channel, None, m),
    }
}

/// The channel a sent line is filed under in our own history.
pub open spec fn own_line_kind(send_kind: ChatSendKind, sent: ChatKind) -> ChatKind {
    match send_kind {
        ChatSendKind::Public => ChatKind::Public,
        ChatSendKind::Private => if sent == ChatKind::RemotePrivate { ChatKind::RemotePrivate } else { ChatKind::Private },
        ChatSendKind::Team => ChatKind::Team,
        ChatSendKind::Frequency => ChatKind::Frequency,
        ChatSendKind::Channel => ChatKind::Channel,
    }
}

/// Text that starts with an ASCII byte starts with that character.
proof fn lemma_decode_ascii_first(b: Seq<u8>)
    requires
        valid_utf8(b),
        b.len() > 0,
        b[0] < 128,
    ensures
        valid_utf8(b.subrange(1, b.len() as int)),
        decode_utf8(b).len() == decode_utf8(b.subrange(1, b.len() as int)).len() + 1,
{
    let b0 = b[0];
    assert(b0 & 0x7F == b0) by (bit_vector)
        requires b0 < 128;
    assert(vstd::utf8::pop_first_scalar(b) =~= b.subrange(1, b.len() as int));
}

/// `new` is `old` after filing a line from `sender`. A private line moves
/// its sender to the end of the recent correspondents. The history keeps
/// the last 64 lines in a ring.
pub open spec fn filed(old: ChatController, new: ChatController, kind: ChatKind, sender: String, message: String) -> bool {
    &&& new.recent_private@ == (if kind == ChatKind::Private || kind == ChatKind::RemotePrivate {
        recent_after(old.recent_private@, sender)
    } else {
        old.recent_private@
    })
    &&& old.messages@.len() < MAX_MESSAGE_HISTORY ==> {
        &&& new.messages@ == old.messages@.push(ChatEntry { kind, sender, message })
        &&& new.insert_index == (old.messages@.len() as int + 1) % (MAX_MESSAGE_HISTORY as int)
    }
    &&& old.messages@.len() >= MAX_MESSAGE_HISTORY ==> {
        &&& new.messages@ == old.messages@.update(old.insert_index as int, ChatEntry { kind, sender, message })
        &&& new.insert_index == (old.insert_index + 1) % (MAX_MESSAGE_HISTORY as int)
    }
    &&& new.render_mode == old.render_mode
}

/// `r` is the command typed on the input line: `=number` changes team
/// (0xFFFFFFFF when the number is not one) and `?go name` changes arena.
/// Anything else is no command.
pub open spec fn command_read(input: Seq<u8>, r: Option<ChatCommand>) -> bool {
    let t = trimmed(decode_utf8(input));
    if input.len() == 0 || !valid_utf8(input) || t.len() < 2 {
        r is None
    } else if t[0] == '=' {
        r matches Some(ChatCommand::ChangeFrequency(f)) && f == match parsed_u16(t.drop_first()) {
            Some(v) => v as u32,
            None => 0xFFFF_FFFFu32,
        }
    } else if t[0] == '?' && t.len() >= 3 && t[1] == 'g' && t[2] == 'o' {
        r matches Some(ChatCommand::Go(target)) && target@ == trimmed(t.subrange(3, t.len() as int))
    } else {
        r is None
    }
}

/// The first `:` at or after `from`.
pub open spec fn colon_pos(input: Seq<u8>, from: int) -> int
    decreases input.len() - from,
{
    if from >= input.len() || from < 0 {
        input.len() as int
    } else if input[from] == 58 {
        from
    } else {
        colon_pos(input, from + 1)
    }
}

/// Typing `:` now asks for a recent name: the line is `:`, or `:name:`.
pub open spec fn is_recent_request(input: Seq<u8>) -> bool {
    &&& input.len() > 0
    &&& input[0] == 58
    &&& (input.len() == 1 || colon_pos(input, 1) == input.len() - 1)
}

/// The name typed between the colons, as text; empty when it is not valid UTF-8.
pub open spec fn typed_recent_name(input: Seq<u8>) -> Seq<char> {
    if input.len() > 1 && valid_utf8(input.subrange(1, input.len() as int)) {
        decode_utf8(input.subrange(1, input.len() as int))
    } else {
        Seq::empty()
    }
}

/// The input line after key `code`, and whether the line is to be sent.
pub open spec fn key_applied(input: Seq<u8>, names: Seq<String>, code: u8, control: bool) -> (Seq<u8>, bool) {
    if code == 8 {
        (if control { Seq::empty() } else if input.len() > 0 { input.drop_last() } else { input }, false)
    } else if code == 13 {
        (input, input.len() > 0)
    } else if code >= 32 && input.len() < MAX_INPUT_LENGTH {
        if code == 58 && is_recent_request(input) {
            if names.len() == 0 {
                (input, false)
            } else {
                (seq![58u8] + encode_utf8(next_recent(names, typed_recent_name(input))@) + seq![58u8], false)
            }
        } else {
            (input.push(code), false)
        }
    } else {
        (input, false)
    }
}

/// The kind of line the input makes.
pub open spec fn send_kind_of(input: Seq<u8>) -> ChatSendKind {
    if input.len() == 0 {
        ChatSendKind::Public
    } else if input[0] == 39 {
        ChatSendKind::Team
    } else if input[0] == 47 {
        if input.len() > 1 && input[1] == 47 { ChatSendKind::Team } else { ChatSendKind::Private }
    } else if input[0] == 58 {
        if input.len() >= 2 && colon_pos(input, 2) < input.len() { ChatSendKind::Private } else { ChatSendKind::Public }
    } else if input[0] == 59 {
        ChatSendKind::Channel
    } else if input[0] == 34 {
        ChatSendKind::Frequency
    } else {
        ChatSendKind::Public
    }
}

/// The color a line of `kind` is drawn in.
pub open spec fn message_color(kind: ChatKind) -> TextColor {
    match kind {
        ChatKind::Arena => TextColor::Green,
        ChatKind::Team => TextColor::Yellow,
        ChatKind::Private => TextColor::Green,
        ChatKind::Warning => TextColor::DarkRed,
        ChatKind::RemotePrivate => TextColor::Green,
        ChatKind::Error => TextColor::DarkRed,
        ChatKind::Channel => TextColor::Red,
        ChatKind::Fuchsia => TextColor::Fuchsia,
        _ => TextColor::Blue,
    }
}

/// Where a line that starts at byte `index` ends: at most `max` bytes
/// later, cut at the last space when the text goes on.
pub open spec fn span_end(b: Seq<u8>, max: int, index: int) -> int {
    let end = if index + max < b.len() { index + max } else { b.len() as int };
    if end < b.len() {
        let back = space_before(b, index, end);
        if back == index { end } else { back }
    } else {
        end
    }
}

/// The last space at or before `e` and after `index`, or `index`.
pub open spec fn space_before(b: Seq<u8>, index: int, e: int) -> int
    decreases e - index,
{
    if e <= index {
        index
    } else if b[e] == 32 {
        e
    } else {
        space_before(b, index, e - 1)
    }
}

/// The byte spans of the lines from `index` on.
pub open spec fn spans_from(b: Seq<u8>, max: int, index: int) -> Seq<(u16, u16)>
    decreases b.len() - index,
{
    if index >= b.len() || max <= 0 || index < 0 {
        Seq::empty()
    } else {
        let e = span_end(b, max, index);
        if e <= index || e > b.len() {
            Seq::empty()
        } else {
            seq![(index as u16, e as u16)] + spans_from(b, max, e)
        }
    }
}

/// The byte spans a message of bytes `b` is cut into for lines of `max` bytes.
pub open spec fn wrapped_spans(b: Seq<u8>, max: int) -> Seq<(u16, u16)> {
    if max == 0 || b.len() == 0 {
        seq![(0u16, b.len() as u16)]
    } else {
        spans_from(b, max, 0)
    }
}

proof fn lemma_space_before(b: Seq<u8>, index: int, e: int)
    ensures
        index <= e ==> index <= space_before(b, index, e) <= e,
    decreases e - index,
{
    if e > index && b[e] != 32 {
        lemma_space_before(b, index, e - 1);
    }
}

impl ChatController {
    pub fn new() -> (r: ChatController)
        ensures
            r.input@.len() == 0,
            r.messages@.len() == 0,
            r.insert_index == 0,
            r.render_mode == ChatRenderMode::Normal,
            r.recent_private@.len() == 0,
            r.message_spans@.len() == 0,
    {
        ChatController {
            input: Vec::new(),
            messages: Vec::new(),
            insert_index: 0,
            render_mode: ChatRenderMode::Normal,
            recent_private: Vec::new(),
            message_spans: Vec::new(),
        }
    }

    /// Forgets the received lines.
    pub fn clear(&mut self)
        ensures
            final(self).messages@.len() == 0,
            final(self).insert_index == 0,
            final(self).input@ == old(self).input@,
            final(self).recent_private@ == old(self).recent_private@,
            final(self).render_mode == old(self).render_mode,
    {
        self.messages.clear();
        self.insert_index = 0;
    }

    pub fn update_render_mode(&mut self, menu_open: bool, radar_full: bool)
        ensures
            final(self).render_mode == (if radar_full {
                ChatRenderMode::Hidden
            } else if menu_open {
                ChatRenderMode::Full
            } else {
                ChatRenderMode::Normal
            }),
            final(self).input@ == old(self).input@,
            final(self).messages@ == old(self).messages@,
            final(self).insert_index == old(self).insert_index,
            final(self).recent_private@ == old(self).recent_private@,
    {
        if radar_full {
            self.render_mode = ChatRenderMode::Hidden;
            return;
        }
        if menu_open {
            self.render_mode = ChatRenderMode::Full;
        } else {
            self.render_mode = ChatRenderMode::Normal;
        }
    }

    /// Cuts `message` into lines of at most `max_size` bytes, breaking at
    /// spaces where it can, and leaves the byte spans in `message_spans`.
    pub fn wrap_chat(message_spans: &mut Vec<(u16, u16)>, message: &str, max_size: usize)
        ensures
            final(message_spans)@ == wrapped_spans(message.spec_bytes(), max_size as int),
    {
        message_spans.clear();
        let bytes = message.as_bytes();
        let len = bytes.len();
        if max_size == 0 || len == 0 {
            message_spans.push((0, len as u16));
            return;
        }
        let ghost b = bytes@;
        let mut index: usize = 0;
        while index < len
            invariant
                b == bytes@,
                len == b.len(),
                max_size > 0,
                index <= len,
                message_spans@ + spans_from(b, max_size as int, index as int) == spans_from(b, max_size as int, 0),
            decreases len - index,
        {
            let end0: usize = if max_size < len - index { index + max_size } else { len };
            let mut end_index = end0;
            if end_index < len {
                while end_index > index
                    invariant_except_break
                        index <= end_index <= end0 < len,
                        b == bytes@,
                        len == b.len(),
                        space_before(b, index as int, end0 as int) == space_before(b, index as int, end_index as int),
                    ensures
                        index <= end_index <= end0,
                        space_before(b, index as int, end0 as int) == end_index as int,
                    decreases end_index - index,
                {
                    if bytes[end_index] == 32 {
                        break;
                    }
                    end_index = end_index - 1;
                }
                proof {
                    lemma_space_before(b, index as int, end0 as int);
                }
                if end_index == index {
                    end_index = end0;
                }
            }
            proof {
                assert(end_index as int == span_end(b, max_size as int, index as int));
                assert(spans_from(b, max_size as int, index as int)
                    == seq![(index as u16, end_index as u16)] + spans_from(b, max_size as int, end_index as int));
                assert(message_spans@.push((index as u16, end_index as u16)) + spans_from(b, max_size as int, end_index as int)
                    =~= message_spans@ + spans_from(b, max_size as int, index as int));
            }
            message_spans.push((index as u16, end_index as u16));
            index = end_index;
        }
        proof {
            assert(message_spans@ + spans_from(b, max_size as int, index as int) =~= message_spans@);
        }
    }

    /// How many history lines fit on screen in the current mode.
    pub fn get_max_output_count(&self, surface_height: i32, font_height: i32, game_settings: &GameSettings) -> (r: usize)
        requires
            self.render_mode == ChatRenderMode::Full ==> font_height != 0
                && -715827882 <= surface_height - font_height <= 715827882,
        ensures
            r == match self.render_mode {
                ChatRenderMode::Normal => game_settings.chat_lines as usize,
                ChatRenderMode::Full => trunc_div(trunc_div((surface_height - font_height) * 3, 4), font_height as int) as usize,
                ChatRenderMode::Hidden => 0,
            },
    {
        match self.render_mode {
            ChatRenderMode::Normal => game_settings.chat_lines as usize,
            ChatRenderMode::Full => {
                let max_height = div_i32((surface_height - font_height) * 3, 4);
                div_i32(max_height, font_height) as usize
            },
            ChatRenderMode::Hidden => 0,
        }
    }

    pub fn get_chat_message_color(kind: ChatKind) -> (r: TextColor)
        ensures
            r == message_color(kind),
    {
        match kind {
            ChatKind::Arena => TextColor::Green,
            ChatKind::Team => TextColor::Yellow,
            ChatKind::Private => TextColor::Green,
            ChatKind::Warning => TextColor::DarkRed,
            ChatKind::RemotePrivate => TextColor::Green,
            ChatKind::Error => TextColor::DarkRed,
            ChatKind::Channel => TextColor::Red,
            ChatKind::Fuchsia => TextColor::Fuchsia,
            _ => TextColor::Blue,
        }
    }

    /// `index` moved by `delta` around a ring of `max` slots.
    pub fn wrap_index(index: usize, delta: isize, max: usize) -> (r: usize)
        requires
            max > 0,
        ensures
            r == (vstd::wrapping::usize_specs::wrapping_add(
                vstd::wrapping::usize_specs::wrapping_add_signed(index, delta), max)) % max,
    {
        index.wrapping_add_signed(delta).wrapping_add(max) % max
    }

    /// The first remembered name, from `from` on, that matches `key` ignoring case.
    fn find_recent(&self, key: &String) -> (r: usize)
        ensures
            r == recent_pos(self.recent_private@, key@, 0),
    {
        let mut i: usize = 0;
        while i < self.recent_private.len()
            invariant
                i <= self.recent_private@.len(),
                recent_pos(self.recent_private@, key@, 0) == recent_pos(self.recent_private@, key@, i as int),
            decreases self.recent_private@.len() - i,
        {
            let lower = to_lowercase(self.recent_private[i].as_str());
            if lower == *key {
                return i;
            }
            i = i + 1;
        }
        i
    }

    /// The remembered name before `current` in the list, cycling.
    fn get_next_recent_name(&self, current: &str) -> (r: &str)
        requires
            self.recent_private@.len() > 0,
        ensures
            r@ == next_recent(self.recent_private@, current@)@,
    {
        let key = to_lowercase(current);
        let position = self.find_recent(&key);
        let n = self.recent_private.len();
        if position < n {
            let prev_index = if position == 0 { n - 1 } else { position - 1 };
            proof {
                if position > 0 {
                    vstd::arithmetic::div_mod::lemma_mod_add_multiples_vanish(position - 1, n as int);
                    vstd::arithmetic::div_mod::lemma_small_mod((position - 1) as nat, n as nat);
                } else {
                    vstd::arithmetic::div_mod::lemma_small_mod((n - 1) as nat, n as nat);
                }
                assert(prev_index as int == (position - 1 + n) % (n as int));
            }
            self.recent_private[prev_index].as_str()
        } else {
            self.recent_private[n - 1].as_str()
        }
    }

    /// Takes a typed key. Backspace deletes (the whole line with control),
    /// enter asks for the line to be sent, other printable keys are added,
    /// and `:` at the right place fills in a recent private correspondent.
    /// Returns true when the line is to be sent.
    pub fn handle_key(&mut self, code: u8, control: bool) -> (r: bool)
        ensures
            (final(self).input@, r) == key_applied(old(self).input@, old(self).recent_private@, code, control),
            final(self).messages@ == old(self).messages@,
            final(self).insert_index == old(self).insert_index,
            final(self).recent_private@ == old(self).recent_private@,
            final(self).render_mode == old(self).render_mode,
    {
        if code == 8 {
            if control {
                self.input.clear();
            } else {
                self.input.pop();
            }
            return false;
        }
        if code == 13 {
            return !self.input.is_empty();
        }
        if code >= 32 && self.input.len() < MAX_INPUT_LENGTH {
            if code == 58 && !self.input.is_empty() {
                let recent = self.check_recent_request();
                if recent {
                    if self.recent_private.is_empty() {
                        return false;
                    }
                    let mut tail: Vec<u8> = Vec::new();
                    let mut i: usize = 1;
                    while i < self.input.len()
                        invariant
                            1 <= i <= self.input@.len(),
                            tail@ == self.input@.subrange(1, i as int),
                        decreases self.input@.len() - i,
                    {
                        tail.push(self.input[i]);
                        i = i + 1;
                    }
                    let name_bytes = {
                        proof {
                            reveal_strlit("");
                            assert(tail@ =~= self.input@.subrange(1, self.input@.len() as int));
                        }
                        let name = if self.input.len() > 1 {
                            match str_from_utf8(tail.as_slice()) {
                                Some(current) => {
                                    assert(current@ == typed_recent_name(self.input@));
                                    self.get_next_recent_name(current)
                                },
                                None => {
                                    assert(""@ == typed_recent_name(self.input@));
                                    self.get_next_recent_name("")
                                },
                            }
                        } else {
                            assert(""@ == typed_recent_name(self.input@));
                            self.get_next_recent_name("")
                        };
                        proof {
                            assert(name@ == next_recent(self.recent_private@, typed_recent_name(self.input@))@);
                        }
                        let nb = name.as_bytes();
                        assert(nb@ == encode_utf8(name@));
                        let mut copy: Vec<u8> = Vec::new();
                        let mut k: usize = 0;
                        while k < nb.len()
                            invariant
                                k <= nb@.len(),
                                copy@ == nb@.subrange(0, k as int),
                            decreases nb@.len() - k,
                        {
                            copy.push(nb[k]);
                            k = k + 1;
                        }
                        proof {
                            assert(copy@ =~= nb@);
                        }
                        copy
                    };
                    let mut new_input: Vec<u8> = Vec::new();
                    new_input.push(58);
                    let mut k: usize = 0;
                    while k < name_bytes.len()
                        invariant
                            k <= name_bytes@.len(),
                            new_input@ == seq![58u8] + name_bytes@.subrange(0, k as int),
                        decreases name_bytes@.len() - k,
                    {
                        new_input.push(name_bytes[k]);
                        k = k + 1;
                    }
                    new_input.push(58);
                    proof {
                        assert(name_bytes@.subrange(0, name_bytes@.len() as int) =~= name_bytes@);
                        assert(new_input@ =~= seq![58u8] + name_bytes@ + seq![58u8]);
                    }
                    self.input = new_input;
                    return false;
                }
            }
            self.input.push(code);
        }
        false
    }

    /// Whether the input (which is not empty) is `:` or `:name:`.
    fn check_recent_request(&self) -> (r: bool)
        requires
            self.input@.len() > 0,
        ensures
            r == is_recent_request(self.input@),
    {
        if self.input[0] != 58 {
            return false;
        }
        if self.input.len() == 1 {
            return true;
        }
        let mut i: usize = 1;
        while i < self.input.len()
            invariant
                1 <= i <= self.input@.len(),
                self.input@.len() > 1,
                self.input@[0] == 58,
                colon_pos(self.input@, 1) == colon_pos(self.input@, i as int),
            decreases self.input@.len() - i,
        {
            if self.input[i] == 58 {
                assert(colon_pos(self.input@, i as int) == i);
                return i + 1 == self.input.len();
            }
            i = i + 1;
        }
        false
    }

    /// The first `:` in the input from position `from` on.
    fn find_colon(&self, from: usize) -> (r: usize)
        requires
            from <= self.input@.len(),
        ensures
            r == colon_pos(self.input@, from as int),
    {
        let mut i: usize = from;
        while i < self.input.len()
            invariant
                from <= i <= self.input@.len(),
                colon_pos(self.input@, from as int) == colon_pos(self.input@, i as int),
            decreases self.input@.len() - i,
        {
            if self.input[i] == 58 {
                return i;
            }
            i = i + 1;
        }
        i
    }

    pub fn get_chat_send_kind(&self) -> (r: ChatSendKind)
        ensures
            r == send_kind_of(self.input@),
    {
        if self.input.is_empty() {
            return ChatSendKind::Public;
        }
        let first = self.input[0];
        if first == 39 {
            ChatSendKind::Team
        } else if first == 47 {
            if self.input.len() > 1 && self.input[1] == 47 {
                ChatSendKind::Team
            } else {
                ChatSendKind::Private
            }
        } else if first == 58 {
            if self.input.len() >= 2 && self.find_colon(2) < self.input.len() {
                ChatSendKind::Private
            } else {
                ChatSendKind::Public
            }
        } else if first == 59 {
            ChatSendKind::Channel
        } else if first == 34 {
            ChatSendKind::Frequency
        } else {
            ChatSendKind::Public
        }
    }

    /// Files a received line. A private line moves its sender to the end of
    /// the recent correspondents. The history keeps the last 64 lines in a
    /// ring.
    pub fn handle_chat_message(&mut self, kind: ChatKind, sender: String, message: String)
        requires
            old(self).messages@.len() >= MAX_MESSAGE_HISTORY ==> old(self).insert_index < old(self).messages@.len(),
        ensures
            filed(*old(self), *final(self), kind, sender, message),
            final(self).input@ == old(self).input@,
            final(self).message_spans@ == old(self).message_spans@,
    {
        if kind == ChatKind::RemotePrivate || kind == ChatKind::Private {
            let sender_lower = to_lowercase(sender.as_str());
            let existing = self.find_recent(&sender_lower);
            if existing < self.recent_private.len() {
                self.recent_private.remove(existing);
            }
            if self.recent_private.len() >= RECENT_NAME_COUNT {
                self.recent_private.remove(0);
            }
            self.recent_private.push(sender.clone());
        }
        let entry = ChatEntry { kind, sender, message };
        if self.messages.len() < MAX_MESSAGE_HISTORY {
            self.messages.push(entry);
            self.insert_index = self.messages.len() % MAX_MESSAGE_HISTORY;
        } else {
            self.messages.set(self.insert_index, entry);
            self.insert_index = (self.insert_index + 1) % MAX_MESSAGE_HISTORY;
        }
    }

    /// Files a line from the client itself.
    pub fn add_system_message(&mut self, message: String)
        requires
            old(self).messages@.len() >= MAX_MESSAGE_HISTORY ==> old(self).insert_index < old(self).messages@.len(),
        ensures
            final(self).recent_private@ == old(self).recent_private@,
            old(self).messages@.len() < MAX_MESSAGE_HISTORY ==> {
                &&& final(self).messages@.len() == old(self).messages@.len() + 1
                &&& final(self).messages@.drop_last() == old(self).messages@
                &&& final(self).messages@.last().kind == ChatKind::Arena
                &&& final(self).messages@.last().sender@ == Seq::<char>::empty()
                &&& final(self).messages@.last().message == message
            },
            old(self).messages@.len() >= MAX_MESSAGE_HISTORY ==> {
                &&& final(self).messages@.len() == old(self).messages@.len()
                &&& forall|i: int| 0 <= i < old(self).messages@.len() && i != old(self).insert_index
                    ==> #[trigger] final(self).messages@[i] == old(self).messages@[i]
                &&& final(self).messages@[old(self).insert_index as int].kind == ChatKind::Arena
                &&& final(self).messages@[old(self).insert_index as int].sender@ == Seq::<char>::empty()
                &&& final(self).messages@[old(self).insert_index as int].message == message
            },
            final(self).input@ == old(self).input@,
    {
        self.handle_chat_message(ChatKind::Arena, String::new(), message);
    }

    /// Sends the input line: a command is handed back to be carried out; a
    /// chat line is handed back to be sent and is filed in our own history
    /// under `own_name` (under no name on a channel). `selected_player` is
    /// the player picked in the player list. The input line is cleared.
    pub fn send_input(&mut self, players: &PlayerManager, selected_player: PlayerId, own_name: &str) -> (r: ChatInput)
        requires
            old(self).messages@.len() >= MAX_MESSAGE_HISTORY ==> old(self).insert_index < old(self).messages@.len(),
        ensures
            final(self).input@.len() == 0,
            final(self).message_spans@ == old(self).message_spans@,
            match r {
                ChatInput::Command(c) => command_read(old(self).input@, Some(c))
                    && final(self).messages@ == old(self).messages@
                    && final(self).recent_private@ == old(self).recent_private@
                    && final(self).insert_index == old(self).insert_index
                    && final(self).render_mode == old(self).render_mode,
                ChatInput::Nothing => command_read(old(self).input@, None) && !valid_utf8(old(self).input@)
                    && final(self).messages@ == old(self).messages@
                    && final(self).recent_private@ == old(self).recent_private@
                    && final(self).insert_index == old(self).insert_index
                    && final(self).render_mode == old(self).render_mode,
                ChatInput::Send(chat) => command_read(old(self).input@, None) && valid_utf8(old(self).input@)
                    && (chat.kind, chat.target, chat.text@) == outgoing_chat(old(self).input@, players.players@, selected_player),
            },
            r matches ChatInput::Send(chat) ==> exists|sender: String, message: String| {
                &&& sender@ == (if send_kind_of(old(self).input@) == ChatSendKind::Channel { Seq::<char>::empty() } else { own_name@ })
                &&& message@ == chat.text@
                &&& #[trigger] filed(*old(self), *final(self), own_line_kind(send_kind_of(old(self).input@), chat.kind), sender, message)
            },
    {
        let command = self.handle_input_commands();
        if let Some(c) = command {
            self.input.clear();
            return ChatInput::Command(c);
        }
        let ghost input = self.input@;
        let Some(msg) = str_from_utf8(self.input.as_slice()) else {
            self.input.clear();
            return ChatInput::Nothing;
        };
        let send_kind = self.get_chat_send_kind();
        let n = msg.unicode_len();
        proof {
            reveal_strlit("");
            if input.len() > 0 && input[0] < 128 {
                lemma_decode_ascii_first(input);
                let rest = input.subrange(1, input.len() as int);
                if rest.len() > 0 && rest[0] < 128 {
                    lemma_decode_ascii_first(rest);
                }
            }
        }
        let chat = match send_kind {
            ChatSendKind::Public => SendChatMessage { kind: ChatKind::Public, target: None, text: String::from_str(msg) },
            ChatSendKind::Team => {
                let skip: usize = if self.input[0] == 39 { 1 } else { 2 };
                SendChatMessage { kind: ChatKind::Team, target: None, text: String::from_str(msg.substring_char(skip, n)) }
            },
            ChatSendKind::Private => {
                if self.input[0] == 58 {
                    let mut c: usize = 1;
                    while c < n
                        invariant_except_break
                            1 <= c <= n,
                            n == msg@.len(),
                            char_colon_pos(msg@, 1) == char_colon_pos(msg@, c as int),
                        ensures
                            1 <= c <= n,
                            n == msg@.len(),
                            c == char_colon_pos(msg@, 1),
                        decreases n - c,
                    {
                        if msg.get_char(c) == ':' {
                            break;
                        }
                        c = c + 1;
                    }
                    if c < n {
                        let name = msg.substring_char(1, c);
                        match players.get_by_name(name) {
                            Some(p) => SendChatMessage {
                                kind: ChatKind::Private,
                                target: Some(p.id),
                                text: String::from_str(msg.substring_char(c + 1, n)),
                            },
                            None => SendChatMessage { kind: ChatKind::RemotePrivate, target: None, text: String::from_str(msg) },
                        }
                    } else {
                        SendChatMessage { kind: ChatKind::Public, target: None, text: String::from_str(msg) }
                    }
                } else {
                    SendChatMessage { kind: ChatKind::Private, target: Some(selected_player), text: String::from_str(msg.substring_char(1, n)) }
                }
            },
            ChatSendKind::Frequency => SendChatMessage {
                kind: ChatKind::Frequency,
                target: Some(selected_player),
                text: String::from_str(msg.substring_char(1, n)),
            },
            ChatSendKind::Channel => SendChatMessage { kind: ChatKind::Channel, target: None, text: String::from_str(msg) },
        };
        let sender = match send_kind {
            ChatSendKind::Channel => String::from_str(""),
            _ => String::from_str(own_name),
        };
        let kind = match send_kind {
            ChatSendKind::Public => ChatKind::Public,
            ChatSendKind::Private => if chat.kind == ChatKind::RemotePrivate { ChatKind::RemotePrivate } else { ChatKind::Private },
            ChatSendKind::Team => ChatKind::Team,
            ChatSendKind::Frequency => ChatKind::Frequency,
            ChatSendKind::Channel => ChatKind::Channel,
        };
        let message = String::from_str(chat.text.as_str());
        let ghost sender_v = sender;
        let ghost message_v = message;
        self.handle_chat_message(kind, sender, message);
        self.input.clear();
        proof {
            assert(kind == own_line_kind(send_kind_of(old(self).input@), chat.kind));
            assert(filed(*old(self), *self, own_line_kind(send_kind_of(old(self).input@), chat.kind), sender_v, message_v));
        }
        ChatInput::Send(chat)
    }

    /// Reads a command from the input line: `=number` changes team and
    /// `?go name` changes arena. Anything else is no command.
    pub fn handle_input_commands(&self) -> (r: Option<ChatCommand>)
        ensures
            command_read(self.input@, r),
    {
        if self.input.is_empty() {
            return None;
        }
        let Some(text) = str_from_utf8(self.input.as_slice()) else {
            return None;
        };
        let input = str_trim(text);
        let n = input.unicode_len();
        if n < 2 {
            return None;
        }
        let invoker = input.get_char(0);
        if invoker == '=' {
            let rest = input.substring_char(1, n);
            proof {
                assert(rest@ =~= input@.drop_first());
            }
            if let Some(freq) = parse_u16(rest) {
                return Some(ChatCommand::ChangeFrequency(freq as u32));
            }
            return Some(ChatCommand::ChangeFrequency(0xFFFF_FFFF));
        }
        if invoker == '?' {
            if n >= 3 && input.get_char(1) == 'g' && input.get_char(2) == 'o' {
                let target = str_trim(input.substring_char(3, n));
                return Some(ChatCommand::Go(target.to_owned()));
            }
        }
        None
    }
}

/// The history never holds more than 64 lines, and once full the next line
/// always has a place to go: filing a line keeps both true.
pub proof fn lemma_history_bounded(old: ChatController, new: ChatController, kind: ChatKind, sender: String, message: String)
    requires
        filed(old, new, kind, sender, message),
        old.messages@.len() <= MAX_MESSAGE_HISTORY,
        old.messages@.len() >= MAX_MESSAGE_HISTORY ==> old.insert_index < old.messages@.len(),
    ensures
        new.messages@.len() <= MAX_MESSAGE_HISTORY,
        new.messages@.len() >= MAX_MESSAGE_HISTORY ==> new.insert_index < new.messages@.len(),
{
}


/// No two of the names are the same ignoring case.
pub open spec fn distinct_ignoring_case(names: Seq<String>) -> bool {
    forall|i: int, j: int| 0 <= i < j < names.len() ==> lowercase(names[i]@) != lowercase(names[j]@)
}

/// `a` is `b` with some entries left out, the rest in their order: `f`
/// tells where each entry of `a` stands in `b`.
pub open spec fn kept_in_order(a: Seq<String>, b: Seq<String>, f: spec_fn(int) -> int) -> bool {
    &&& forall|i: int| 0 <= i < a.len() ==> 0 <= #[trigger] f(i) < b.len() && a[i] == b[f(i)]
    &&& forall|i: int, j: int| 0 <= i < j < a.len() ==> #[trigger] f(i) < #[trigger] f(j)
}

proof fn lemma_recent_pos(names: Seq<String>, key: Seq<char>, from: int)
    requires
        0 <= from,
    ensures
        from <= names.len() ==> from <= recent_pos(names, key, from) <= names.len(),
        forall|j: int| from <= j < recent_pos(names, key, from) && j < names.len() ==> lowercase(#[trigger] names[j]@) != key,
        recent_pos(names, key, from) < names.len() ==> lowercase(names[recent_pos(names, key, from)]@) == key,
    decreases names.len() - from,
{
    if from < names.len() && lowercase(names[from]@) != key {
        lemma_recent_pos(names, key, from + 1);
    }
}

/// The recent correspondents stay at most five, distinct ignoring case
/// and in their order: after a private line, its sender is the newest,
/// and the others are earlier names in their old order.
pub proof fn lemma_recent_distinct_ordered(names: Seq<String>, sender: String)
    requires
        names.len() <= RECENT_NAME_COUNT,
        distinct_ignoring_case(names),
    ensures
        ({
            let r = recent_after(names, sender);
            &&& r.len() <= RECENT_NAME_COUNT
            &&& r.last() == sender
            &&& distinct_ignoring_case(r)
            &&& exists|f: spec_fn(int) -> int| kept_in_order(r.drop_last(), names, f)
        }),
{
    let key = lowercase(sender@);
    let k = recent_pos(names, key, 0);
    lemma_recent_pos(names, key, 0);
    let n1 = if k < names.len() { names.remove(k) } else { names };
    let f1 = |i: int| if k < names.len() && i >= k { i + 1 } else { i };
    assert(kept_in_order(n1, names, f1));
    assert forall|i: int| 0 <= i < n1.len() implies lowercase(#[trigger] n1[i]@) != key by {
        if k < names.len() && f1(i) > k {
            assert(lowercase(names[k]@) != lowercase(names[f1(i)]@));
        }
    }
    let n2 = if n1.len() >= RECENT_NAME_COUNT { n1.remove(0) } else { n1 };
    let f2 = |i: int| if n1.len() >= RECENT_NAME_COUNT { f1(i + 1) } else { f1(i) };
    assert(kept_in_order(n2, names, f2));
    let r = n2.push(sender);
    assert(r.drop_last() =~= n2);
    assert(r == recent_after(names, sender));
    assert forall|i: int, j: int| 0 <= i < j < r.len() implies lowercase(r[i]@) != lowercase(r[j]@) by {
        if j == r.len() - 1 {
            assert(r[i] == n2[i]);
            let m = if n1.len() >= RECENT_NAME_COUNT { i + 1 } else { i };
            assert(n2[i] == n1[m]);
        } else {
            assert(f2(i) < f2(j));
            assert(r[i] == names[f2(i)] && r[j] == names[f2(j)]);
        }
    }
}

} // verus!

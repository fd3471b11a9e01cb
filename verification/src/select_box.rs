use vstd::prelude::*;
use vstd::string::{StrSliceExecFns, StringExecFns};
use vstd::utf8::encode_utf8;

use crate::render::text_renderer::TextColor;
use crate::text::{push_signed_decimal, signed_decimal};

verus! {

/// Lines shown at once.
pub const DISPLAY_COUNT: usize = 15;

/// A list box of lines, each with a number and a color, one of them selected.
pub struct SelectBox {
    pub title: String,
    pub contents: Vec<(String, i32, TextColor)>,
    pub max_length: i32,
    pub is_arena_directory: bool,
    pub top_index: usize,
    pub selected_index: usize,
}

/// The length in bytes of a text, as `str::len` gives it.
pub open spec fn byte_len(s: Seq<char>) -> int {
    (encode_utf8(s).len() as usize) as int
}

/// The longest of the title (`title_len` bytes) and the first `n` lines, in bytes.
pub open spec fn longest_line(title_len: int, contents: Seq<(String, i32, TextColor)>, n: int) -> int
    decreases n,
{
    if n <= 0 || n > contents.len() {
        title_len
    } else {
        let rest = longest_line(title_len, contents, n - 1);
        let len = byte_len(contents[n - 1].0@);
        if len > rest { len } else { rest }
    }
}

/// The position of the first space, or the length.
pub open spec fn space_pos(s: Seq<char>, from: int) -> int
    decreases s.len() - from,
{
    if from < 0 || from >= s.len() {
        s.len() as int
    } else if s[from] == ' ' {
        from
    } else {
        space_pos(s, from + 1)
    }
}

/// The text up to its first space.
pub open spec fn first_word(s: Seq<char>) -> Seq<char> {
    s.subrange(0, space_pos(s, 0))
}

/// The command a selected line sends: in the arena list the arena's number
/// (or, for named arenas, its name), elsewhere the line's number and text.
pub open spec fn selection_command(line: Seq<char>, number: i32, is_arena_directory: bool) -> Seq<char> {
    if is_arena_directory {
        if number >= 0 {
            "?go "@ + signed_decimal(number as int)
        } else {
            "?go "@ + first_word(line)
        }
    } else {
        "?select "@ + signed_decimal(number as int) + " "@ + line
    }
}


impl SelectBox {
    pub fn new(title: String, contents: Vec<(String, i32, TextColor)>) -> (r: SelectBox)
        ensures
            r.title@ == title@,
            r.contents@ == contents@,
            r.max_length == longest_line(byte_len(title@), contents@, contents@.len() as int) as i32,
            r.top_index == 0 && r.selected_index == 0,
            !r.is_arena_directory,
    {
        let mut max_length: usize = title.as_str().len();
        let mut i: usize = 0;
        while i < contents.len()
            invariant
                i <= contents@.len(),
                max_length == longest_line(byte_len(title@), contents@, i as int),
            decreases contents@.len() - i,
        {
            let len = contents[i].0.as_str().len();
            if len > max_length {
                max_length = len;
            }
            i = i + 1;
        }
        SelectBox {
            title,
            contents,
            max_length: #[verifier::truncate] (max_length as i32),
            top_index: 0,
            selected_index: 0,
            is_arena_directory: false,
        }
    }

    /// Moves the selection by `direction` lines (a page of 15 with
    /// `shift`), staying inside the list, and scrolls it into view.
    pub fn move_selected(&mut self, direction: i32, shift: bool)
        requires
            old(self).contents@.len() > 0,
            shift ==> -143165576 <= direction <= 143165576,
            old(self).top_index + DISPLAY_COUNT <= usize::MAX,
        ensures
            ({
                let amount: int = if shift { direction * 15 } else { direction as int };
                let v = old(self).selected_index + amount;
                let moved: int = if v < 0 { 0 } else if v > usize::MAX { usize::MAX as int } else { v };
                let n = old(self).contents@.len() as int;
                let sel = if moved >= n { n - 1 } else { moved };
                let top1 = if sel < old(self).top_index { sel } else { old(self).top_index as int };
                let top2 = if sel >= top1 + 15 { if sel >= 14 { sel - 14 } else { 0 } } else { top1 };
                &&& final(self).selected_index == sel
                &&& final(self).top_index == top2
            }),
            final(self).contents@ == old(self).contents@,
            final(self).title@ == old(self).title@,
            final(self).max_length == old(self).max_length,
            final(self).is_arena_directory == old(self).is_arena_directory,
    {
        let move_amount: i32 = if shift { direction * 15 } else { direction };
        let selected: usize = if move_amount < 0 {
            let back = (0i64 - move_amount as i64) as usize;
            if self.selected_index < back { 0 } else { self.selected_index - back }
        } else {
            let forward = move_amount as usize;
            if self.selected_index > usize::MAX - forward { usize::MAX } else { self.selected_index + forward }
        };
        self.selected_index = selected;
        if self.selected_index >= self.contents.len() {
            self.selected_index = self.contents.len() - 1;
        }
        if self.selected_index < self.top_index {
            self.top_index = self.selected_index;
        }
        if self.selected_index >= self.top_index + DISPLAY_COUNT {
            self.top_index = if self.selected_index >= DISPLAY_COUNT - 1 { self.selected_index - (DISPLAY_COUNT - 1) } else { 0 };
        }
    }

    /// The command for the selected line.
    pub fn select(&mut self) -> (r: String)
        requires
            old(self).selected_index < old(self).contents@.len(),
        ensures
            r@ == selection_command(old(self).contents@[old(self).selected_index as int].0@,
                old(self).contents@[old(self).selected_index as int].1, old(self).is_arena_directory),
            *final(self) == *old(self),
    {
        let line = self.contents[self.selected_index].0.as_str();
        let number = self.contents[self.selected_index].1;
        proof {
            reveal_strlit("?go ");
            reveal_strlit("?select ");
            reveal_strlit(" ");
        }
        if self.is_arena_directory {
            let mut command = String::from_str("?go ");
            if number >= 0 {
                push_signed_decimal(&mut command, number);
            } else {
                let n = line.unicode_len();
                let mut k: usize = 0;
                while k < n
                    invariant_except_break
                        k <= n,
                        n == line@.len(),
                        space_pos(line@, 0) == space_pos(line@, k as int),
                    ensures
                        k <= n,
                        n == line@.len(),
                        k == space_pos(line@, 0),
                    decreases n - k,
                {
                    if line.get_char(k) == ' ' {
                        break;
                    }
                    k = k + 1;
                }
                command.append(line.substring_char(0, k));
            }
            command
        } else {
            let mut command = String::from_str("?select ");
            push_signed_decimal(&mut command, number);
            command.append(" ");
            command.append(line);
            command
        }
    }
}

} // verus!

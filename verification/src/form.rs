//! Form rows with a text caret. The caret is a byte offset into the
//! row's value; it moves by whole characters and by lines.

use vstd::prelude::*;
use crate::fields::FieldKind;
use crate::text::{chars_of, string_of};
use crate::utf8::{
    byte_len, floor_idx, is_boundary, offset, width, char_width, str_byte_len, floor_idx_exec,
    offset_exec, lemma_offset_mono, lemma_boundary_idx, lemma_floor_idx,
};

verus! {

/// The start of the line holding character position `k`: the position
/// right after the last `\n` before `k`, or 0.
pub open spec fn line_start(s: Seq<char>, k: int) -> int
    decreases k,
{
    if k <= 0 {
        0
    } else if s[k - 1] == '\n' {
        k
    } else {
        line_start(s, k - 1)
    }
}

/// The end of the line holding character position `k`: the position of
/// the first `\n` at or after `k`, or the end of `s`.
pub open spec fn line_end(s: Seq<char>, k: int) -> int
    decreases s.len() - k,
{
    if k >= s.len() {
        s.len() as int
    } else if s[k] == '\n' {
        k
    } else {
        line_end(s, k + 1)
    }
}

pub open spec fn min(a: int, b: int) -> int {
    if a <= b {
        a
    } else {
        b
    }
}

/// Where a caret at character position `k` lands one line up: the same
/// column on the previous line, clamped to that line's end; the very
/// start of the text when there is no previous line.
pub open spec fn pos_up(s: Seq<char>, k: int) -> int {
    let ls = line_start(s, k);
    if ls == 0 {
        0
    } else {
        let ple = ls - 1;
        min(line_start(s, ple) + (k - ls), ple)
    }
}

/// Where a caret at character position `k` lands one line down: the same
/// column on the next line, clamped to that line's end; the end of the
/// text when there is no next line.
pub open spec fn pos_down(s: Seq<char>, k: int) -> int {
    let ls = line_start(s, k);
    let le = line_end(s, ls);
    if le == s.len() {
        s.len() as int
    } else {
        let nls = le + 1;
        min(nls + (k - ls), line_end(s, nls))
    }
}

proof fn lemma_line_start(s: Seq<char>, k: int)
    requires
        0 <= k <= s.len(),
    ensures
        0 <= line_start(s, k) <= k,
        line_start(s, k) > 0 ==> s[line_start(s, k) - 1] == '\n',
        forall|j: int| line_start(s, k) <= j < k ==> s[j] != '\n',
    decreases k,
{
    if k > 0 && s[k - 1] != '\n' {
        lemma_line_start(s, k - 1);
    }
}

proof fn lemma_line_end(s: Seq<char>, k: int)
    requires
        0 <= k <= s.len(),
    ensures
        k <= line_end(s, k) <= s.len(),
        line_end(s, k) < s.len() ==> s[line_end(s, k)] == '\n',
    decreases s.len() - k,
{
    if k < s.len() && s[k] != '\n' {
        lemma_line_end(s, k + 1);
    }
}

fn line_start_exec(s: &Vec<char>, k: usize) -> (r: usize)
    requires
        k <= s.len(),
    ensures
        r == line_start(s@, k as int),
{
    let mut i = k;
    while i > 0 && s[i - 1] != '\n'
        invariant
            i <= k <= s.len(),
            line_start(s@, k as int) == line_start(s@, i as int),
        decreases i,
    {
        i = i - 1;
    }
    i
}

fn line_end_exec(s: &Vec<char>, k: usize) -> (r: usize)
    requires
        k <= s.len(),
    ensures
        r == line_end(s@, k as int),
{
    let mut i = k;
    while i < s.len() && s[i] != '\n'
        invariant
            k <= i <= s.len(),
            line_end(s@, k as int) == line_end(s@, i as int),
        decreases s.len() - i,
    {
        i = i + 1;
    }
    i
}

/// One row of a form: a label and an editable value with a caret.
#[derive(Clone, Debug, PartialEq, Eq)]
pub struct FormField {
    pub label: String,
    pub value: String,
    pub required: bool,
    pub multiline: bool,
    /// Byte offset of the insertion caret inside `value`.
    pub caret: usize,
    /// The id under which a template-declared field's value is stored.
    pub field_id: Option<String>,
    /// The kind of a template-declared field.
    pub kind: Option<FieldKind>,
    /// The allowed option ids of a select field.
    pub options: Vec<String>,
}

impl FormField {
    /// The character position of the caret.
    pub open spec fn caret_pos(&self) -> int {
        floor_idx(self.value@, self.caret as int) as int
    }

    /// The caret sits on a character boundary of the value.
    pub open spec fn caret_ok(&self) -> bool {
        is_boundary(self.value@, self.caret as int)
    }

    /// Whether the caret sits on a character boundary of the value.
    pub fn caret_is_ok(&self) -> (r: bool)
        ensures
            r == self.caret_ok(),
    {
        let v = chars_of(self.value.as_str());
        let k = floor_idx_exec(&v, self.caret);
        let total = str_byte_len(self.value.as_str());
        offset_exec(&v, k, total) == self.caret
    }

    /// Everything but the caret and the value stays as it was.
    pub open spec fn same_row(&self, other: &FormField) -> bool {
        &&& self.label == other.label
        &&& self.required == other.required
        &&& self.multiline == other.multiline
        &&& self.field_id == other.field_id
        &&& self.kind == other.kind
        &&& self.options == other.options
    }

    /// A row with the caret at the end of its value.
    pub fn plain(label: &str, value: &str, required: bool, multiline: bool) -> (r: FormField)
        ensures
            r.label@ == label@,
            r.value@ == value@,
            r.required == required,
            r.multiline == multiline,
            r.caret == byte_len(value@),
            r.caret_ok(),
            r.field_id is None,
            r.kind is None,
            r.options@.len() == 0,
    {
        let caret = str_byte_len(value);
        proof {
            assert(value@.take(value@.len() as int) =~= value@);
            lemma_boundary_idx(value@, value@.len() as int);
        }
        FormField {
            label: label.to_string(),
            value: value.to_string(),
            required,
            multiline,
            caret,
            field_id: None,
            kind: None,
            options: Vec::new(),
        }
    }

    /// Moves the caret to `pos`, or to the nearest character boundary
    /// below it, within the value.
    pub fn set_caret(&mut self, pos: usize)
        ensures
            final(self).value == old(self).value,
            final(self).same_row(old(self)),
            final(self).caret == offset(old(self).value@, floor_idx(old(self).value@, pos as int) as int),
            final(self).caret_ok(),
    {
        let cs = chars_of(self.value.as_str());
        let total = str_byte_len(self.value.as_str());
        let k = floor_idx_exec(&cs, pos);
        self.caret = offset_exec(&cs, k, total);
        proof {
            lemma_boundary_idx(cs@, k as int);
        }
    }

    /// Inserts `c` at the caret and moves the caret past it.
    pub fn insert_char(&mut self, c: char)
        requires
            old(self).caret >= byte_len(old(self).value@) || old(self).caret_ok(),
        ensures
            ({
                let s = old(self).value@;
                let k = old(self).caret_pos();
                &&& final(self).value@ == s.take(k) + seq![c] + s.skip(k)
                &&& final(self).caret == offset(s, k) + width(c)
            }),
            final(self).same_row(old(self)),
            final(self).caret_ok(),
    {
        let cs = chars_of(self.value.as_str());
        let total = str_byte_len(self.value.as_str());
        let pos = if self.caret < total {
            self.caret
        } else {
            total
        };
        let k = floor_idx_exec(&cs, pos);
        proof {
            lemma_floor_idx(cs@, self.caret as int);
            lemma_floor_idx(cs@, total as int);
            assert(cs@.take(cs@.len() as int) =~= cs@);
            lemma_offset_mono(cs@, 0, cs@.len() as int);
            if self.caret >= total {
                lemma_boundary_idx(cs@, cs@.len() as int);
                lemma_floor_idx(cs@, pos as int);
            }
        }
        let mut out: Vec<char> = Vec::new();
        let mut i: usize = 0;
        while i < k
            invariant
                i <= k <= cs.len(),
                out@ == cs@.take(i as int),
            decreases k - i,
        {
            out.push(cs[i]);
            i = i + 1;
            proof {
                assert(out@ =~= cs@.take(i as int));
            }
        }
        out.push(c);
        while i < cs.len()
            invariant
                k <= i <= cs.len(),
                out@ == cs@.take(k as int) + seq![c] + cs@.subrange(k as int, i as int),
            decreases cs.len() - i,
        {
            out.push(cs[i]);
            i = i + 1;
            proof {
                assert(out@ =~= cs@.take(k as int) + seq![c] + cs@.subrange(k as int, i as int));
            }
        }
        proof {
            assert(cs@.subrange(k as int, cs.len() as int) =~= cs@.skip(k as int));
        }
        let ghost s = cs@;
        let v = string_of(&out);
        let new_total = str_byte_len(v.as_str());
        proof {
            assert(out@.take(k as int) =~= s.take(k as int));
            assert(out@.take(k + 1).drop_last() =~= s.take(k as int));
            lemma_offset_mono(out@, k + 1, out@.len() as int);
            lemma_boundary_idx(out@, k + 1);
        }
        let w = char_width(c);
        self.value = v;
        self.caret = pos + w;
    }

    /// Deletes the character before the caret; nothing at position 0.
    pub fn backspace(&mut self)
        requires
            old(self).caret == 0 || old(self).caret_ok(),
        ensures
            old(self).caret == 0 ==> *final(self) == *old(self),
            old(self).caret > 0 ==> ({
                let s = old(self).value@;
                let k = old(self).caret_pos();
                &&& final(self).value@ == s.take(k - 1) + s.skip(k)
                &&& final(self).caret == offset(s, k - 1)
            }),
            final(self).same_row(old(self)),
            old(self).caret_ok() ==> final(self).caret_ok(),
    {
        if self.caret == 0 {
            return;
        }
        let cs = chars_of(self.value.as_str());
        let total = str_byte_len(self.value.as_str());
        let k = floor_idx_exec(&cs, self.caret);
        proof {
            if k == 0 {
                assert(offset(cs@, 0) == 0) by {
                    assert(cs@.take(0) =~= Seq::<char>::empty());
                }
            }
        }
        let start = offset_exec(&cs, k - 1, total);
        let mut out: Vec<char> = Vec::new();
        let mut i: usize = 0;
        while i < cs.len()
            invariant
                1 <= k <= cs.len(),
                i <= cs.len(),
                out@ == (if i < k {
                    cs@.take(i as int)
                } else {
                    cs@.take(k - 1) + cs@.subrange(k as int, i as int)
                }),
            decreases cs.len() - i,
        {
            if i + 1 != k {
                out.push(cs[i]);
            }
            i = i + 1;
            proof {
                if i < k {
                    assert(out@ =~= cs@.take(i as int));
                } else if i == k {
                    assert(out@ =~= cs@.take(k - 1) + cs@.subrange(k as int, i as int));
                } else {
                    assert(out@ =~= cs@.take(k - 1) + cs@.subrange(k as int, i as int));
                }
            }
        }
        proof {
            assert(cs@.subrange(k as int, cs.len() as int) =~= cs@.skip(k as int));
            assert(out@.take(k - 1) =~= cs@.take(k - 1));
            lemma_boundary_idx(out@, k - 1);
        }
        self.value = string_of(&out);
        self.caret = start;
    }

    /// Moves the caret one character left.
    pub fn caret_left(&mut self)
        ensures
            final(self).value == old(self).value,
            final(self).same_row(old(self)),
            final(self).caret == if old(self).caret == 0 {
                0
            } else {
                offset(old(self).value@, floor_idx(old(self).value@, old(self).caret - 1) as int)
            },
            old(self).caret_ok() ==> final(self).caret_ok(),
    {
        if self.caret == 0 {
            return;
        }
        let cs = chars_of(self.value.as_str());
        let total = str_byte_len(self.value.as_str());
        let k = floor_idx_exec(&cs, self.caret - 1);
        self.caret = offset_exec(&cs, k, total);
        proof {
            lemma_boundary_idx(cs@, k as int);
        }
    }

    /// Moves the caret one character right, unless it is at the end.
    pub fn caret_right(&mut self)
        ensures
            final(self).value == old(self).value,
            final(self).same_row(old(self)),
            final(self).caret == if old(self).caret >= byte_len(old(self).value@) {
                old(self).caret as int
            } else {
                offset(old(self).value@, old(self).caret_pos() + 1) as int
            },
            old(self).caret_ok() ==> final(self).caret_ok(),
    {
        let total = str_byte_len(self.value.as_str());
        if self.caret >= total {
            return;
        }
        let cs = chars_of(self.value.as_str());
        let k = floor_idx_exec(&cs, self.caret);
        proof {
            assert(cs@.take(cs@.len() as int) =~= cs@);
            lemma_floor_idx(cs@, self.caret as int);
        }
        self.caret = offset_exec(&cs, k + 1, total);
        proof {
            lemma_boundary_idx(cs@, k + 1);
        }
    }

    /// Moves the caret to the start of its line.
    pub fn caret_home(&mut self)
        requires
            old(self).caret_ok(),
        ensures
            final(self).value == old(self).value,
            final(self).same_row(old(self)),
            final(self).caret == offset(
                old(self).value@,
                line_start(old(self).value@, old(self).caret_pos()),
            ),
            final(self).caret_ok(),
    {
        let cs = chars_of(self.value.as_str());
        let total = str_byte_len(self.value.as_str());
        let k = floor_idx_exec(&cs, self.caret);
        let j = line_start_exec(&cs, k);
        proof {
            lemma_line_start(cs@, k as int);
            lemma_boundary_idx(cs@, j as int);
        }
        self.caret = offset_exec(&cs, j, total);
    }

    /// Moves the caret to the end of its line.
    pub fn caret_end(&mut self)
        requires
            old(self).caret_ok(),
        ensures
            final(self).value == old(self).value,
            final(self).same_row(old(self)),
            final(self).caret == offset(
                old(self).value@,
                line_end(old(self).value@, old(self).caret_pos()),
            ),
            final(self).caret_ok(),
    {
        let cs = chars_of(self.value.as_str());
        let total = str_byte_len(self.value.as_str());
        let k = floor_idx_exec(&cs, self.caret);
        let j = line_end_exec(&cs, k);
        proof {
            lemma_line_end(cs@, k as int);
            lemma_boundary_idx(cs@, j as int);
        }
        self.caret = offset_exec(&cs, j, total);
    }

    /// Moves the caret to the same column of the previous line.
    pub fn caret_up(&mut self)
        requires
            old(self).caret_ok(),
        ensures
            final(self).value == old(self).value,
            final(self).same_row(old(self)),
            final(self).caret == offset(
                old(self).value@,
                pos_up(old(self).value@, old(self).caret_pos()),
            ),
            final(self).caret_ok(),
    {
        let cs = chars_of(self.value.as_str());
        let total = str_byte_len(self.value.as_str());
        let k = floor_idx_exec(&cs, self.caret);
        let ls = line_start_exec(&cs, k);
        proof {
            lemma_line_start(cs@, k as int);
        }
        if ls == 0 {
            proof {
                assert(cs@.take(0) =~= Seq::<char>::empty());
                lemma_boundary_idx(cs@, 0);
            }
            self.caret = 0;
            return;
        }
        let ple = ls - 1;
        let pls = line_start_exec(&cs, ple);
        proof {
            lemma_line_start(cs@, ple as int);
        }
        let col = k - ls;
        let target = if col <= ple - pls {
            pls + col
        } else {
            ple
        };
        proof {
            lemma_boundary_idx(cs@, target as int);
        }
        self.caret = offset_exec(&cs, target, total);
    }

    /// Moves the caret to the same column of the next line.
    pub fn caret_down(&mut self)
        requires
            old(self).caret_ok(),
        ensures
            final(self).value == old(self).value,
            final(self).same_row(old(self)),
            final(self).caret == offset(
                old(self).value@,
                pos_down(old(self).value@, old(self).caret_pos()),
            ),
            final(self).caret_ok(),
    {
        let cs = chars_of(self.value.as_str());
        let total = str_byte_len(self.value.as_str());
        let k = floor_idx_exec(&cs, self.caret);
        let ls = line_start_exec(&cs, k);
        proof {
            lemma_line_start(cs@, k as int);
        }
        let le = line_end_exec(&cs, ls);
        proof {
            lemma_line_end(cs@, ls as int);
        }
        if le == cs.len() {
            proof {
                assert(cs@.take(cs@.len() as int) =~= cs@);
                lemma_boundary_idx(cs@, cs@.len() as int);
            }
            self.caret = total;
            return;
        }
        let nls = le + 1;
        let nle = line_end_exec(&cs, nls);
        proof {
            lemma_line_end(cs@, nls as int);
        }
        let col = k - ls;
        let target = if col <= nle - nls {
            nls + col
        } else {
            nle
        };
        proof {
            lemma_boundary_idx(cs@, target as int);
        }
        self.caret = offset_exec(&cs, target, total);
    }

    /// The caret's column, in characters, and the byte offset of the
    /// start of its line.
    pub fn current_col_and_line_start(&self) -> (r: (usize, usize))
        requires
            self.caret_ok(),
        ensures
            r.0 == self.caret_pos() - line_start(self.value@, self.caret_pos()),
            r.1 == offset(self.value@, line_start(self.value@, self.caret_pos())),
    {
        let cs = chars_of(self.value.as_str());
        let total = str_byte_len(self.value.as_str());
        let k = floor_idx_exec(&cs, self.caret);
        let ls = line_start_exec(&cs, k);
        proof {
            lemma_line_start(cs@, k as int);
        }
        (k - ls, offset_exec(&cs, ls, total))
    }

    /// Moves the caret as `m` says.
    pub fn move_caret(&mut self, m: CaretMove)
        requires
            old(self).caret_ok(),
        ensures
            final(self).value == old(self).value,
            final(self).same_row(old(self)),
            final(self).caret == caret_target(*old(self), m),
            final(self).caret_ok(),
    {
        match m {
            CaretMove::Left => self.caret_left(),
            CaretMove::Right => self.caret_right(),
            CaretMove::Up => self.caret_up(),
            CaretMove::Down => self.caret_down(),
            CaretMove::Home => self.caret_home(),
            CaretMove::End => self.caret_end(),
        }
    }
}

/// A caret movement key.
#[derive(Clone, Copy, Debug, PartialEq, Eq, Structural)]
pub enum CaretMove {
    Left,
    Right,
    Up,
    Down,
    Home,
    End,
}

/// Where the caret of `f` lands after the movement `m`.
pub open spec fn caret_target(f: FormField, m: CaretMove) -> int {
    let s = f.value@;
    match m {
        CaretMove::Left => if f.caret == 0 {
            0
        } else {
            offset(s, floor_idx(s, f.caret - 1) as int) as int
        },
        CaretMove::Right => if f.caret >= byte_len(s) {
            f.caret as int
        } else {
            offset(s, f.caret_pos() + 1) as int
        },
        CaretMove::Up => offset(s, pos_up(s, f.caret_pos())) as int,
        CaretMove::Down => offset(s, pos_down(s, f.caret_pos())) as int,
        CaretMove::Home => offset(s, line_start(s, f.caret_pos())) as int,
        CaretMove::End => offset(s, line_end(s, f.caret_pos())) as int,
    }
}

/// `b` is `a` after typing `c` at the caret.
pub open spec fn typed(a: FormField, c: char, b: FormField) -> bool {
    let s = a.value@;
    let k = a.caret_pos();
    &&& b.value@ == s.take(k) + seq![c] + s.skip(k)
    &&& b.caret == offset(s, k) + width(c)
    &&& b.same_row(&a)
    &&& b.caret_ok()
}

/// `b` is `a` after a backspace: the character before the caret is
/// gone, and nothing changes with the caret at the start.
pub open spec fn erased(a: FormField, b: FormField) -> bool {
    &&& a.caret == 0 ==> b == a
    &&& a.caret > 0 ==> ({
        let s = a.value@;
        let k = a.caret_pos();
        &&& b.value@ == s.take(k - 1) + s.skip(k)
        &&& b.caret == offset(s, k - 1)
    })
    &&& b.same_row(&a)
    &&& b.caret_ok()
}

/// `b` is `a` with its caret moved by `m`.
pub open spec fn moved(a: FormField, m: CaretMove, b: FormField) -> bool {
    &&& b.value == a.value
    &&& b.same_row(&a)
    &&& b.caret == caret_target(a, m)
    &&& b.caret_ok()
}

} // verus!

//! The text preview of the diagram being edited: participant names
//! centred over their columns, then one row per event with the
//! lifelines, the message arrow and its relation id.
//!
//! Each row is painted in a fixed order on a blank line of the preview's
//! width; a label only lands on cells still blank, so it never hides a
//! lifeline or an arrow.

use vstd::prelude::*;
use crate::sequence::{SequenceDiagram, SequenceEditorState, SequenceEvent};
use crate::text::{chars_of, eq, string_of};

verus! {

/// A line of `w` blanks.
pub open spec fn blank(w: nat) -> Seq<char> {
    Seq::new(w, |_i: int| ' ')
}

/// `row` with `c` at `pos`, when `pos` is inside it.
pub open spec fn put(row: Seq<char>, pos: int, c: char) -> Seq<char> {
    if 0 <= pos < row.len() {
        row.update(pos, c)
    } else {
        row
    }
}

/// `row` with `c` at `pos`, when `pos` is inside it and still blank.
pub open spec fn put_blank(row: Seq<char>, pos: int, c: char) -> Seq<char> {
    if 0 <= pos < row.len() && row[pos] == ' ' {
        row.update(pos, c)
    } else {
        row
    }
}

/// `row` with the characters of `s` written from `start` on, left to
/// right (only on blank cells when `only_blank`).
pub open spec fn paint(row: Seq<char>, start: int, s: Seq<char>, only_blank: bool) -> Seq<char>
    decreases s.len(),
{
    if s.len() == 0 {
        row
    } else {
        let before = paint(row, start, s.drop_last(), only_blank);
        let pos = start + s.len() - 1;
        if only_blank {
            put_blank(before, pos, s.last())
        } else {
            put(before, pos, s.last())
        }
    }
}

/// The centre column of participant `i` when columns are `cw` wide with
/// two blanks between them.
pub open spec fn col_x(i: int, cw: int) -> int {
    i * (cw + 2) + cw / 2
}

/// `row` with the lifelines of the first `n` participants.
pub open spec fn lifelines(row: Seq<char>, n: int, cw: int) -> Seq<char>
    decreases n,
{
    if n <= 0 {
        row
    } else {
        put(lifelines(row, n - 1, cw), col_x(n - 1, cw), '│')
    }
}

/// `row` with `c` on the blank cells of `lo..hi`.
pub open spec fn strokes(row: Seq<char>, lo: int, hi: int, c: char) -> Seq<char>
    decreases hi - lo,
{
    if lo >= hi {
        row
    } else {
        put_blank(strokes(row, lo, hi - 1, c), hi - 1, c)
    }
}

/// A relation id as shown on an arrow: at most 18 characters, a longer
/// one cut to 17 and ended with `…`.
pub open spec fn short_label(s: Seq<char>) -> Seq<char> {
    if s.len() > 18 {
        s.take(17).push('…')
    } else {
        s
    }
}

/// The first `k` characters of `s` (all of them when shorter).
pub open spec fn take_at_most(s: Seq<char>, k: int) -> Seq<char> {
    if s.len() > k {
        s.take(k)
    } else {
        s
    }
}

/// The header: each participant's name, cut to the column width,
/// centred in its column.
pub open spec fn header(parts: Seq<String>, cw: int, w: nat) -> Seq<char>
    decreases parts.len(),
{
    if parts.len() == 0 {
        blank(w)
    } else {
        let i = parts.len() - 1;
        let label = take_at_most(parts.last()@, cw);
        paint(header(parts.drop_last(), cw, w), i * (cw + 2) + (cw - label.len()) / 2, label, false)
    }
}

/// The first index of a participant called `name`.
pub open spec fn position_of(parts: Seq<String>, name: Seq<char>) -> Option<int>
    decreases parts.len(),
{
    if parts.len() == 0 {
        None
    } else {
        match position_of(parts.drop_last(), name) {
            Some(i) => Some(i),
            None => if parts.last()@ == name {
                Some(parts.len() - 1)
            } else {
                None
            },
        }
    }
}

/// The row of a message from participant `a` to participant `b` drawn
/// over `row`: a loop mark beside the lifeline for a message to itself,
/// else a stroke between the lifelines with its head beside the target
/// (`►`) or right of the sender (`◄`); then the label.
pub open spec fn message_row(row: Seq<char>, a: int, b: int, dashed: bool, rel: Seq<char>, cw: int) -> Seq<
    char,
> {
    let xa = col_x(a, cw);
    let xb = col_x(b, cw);
    let label = short_label(rel);
    if xa == xb {
        let ls = if xa + 1 < row.len() - 1 {
            xa + 1
        } else {
            row.len() - 1
        };
        paint(put(row, ls, '↺'), ls + 2, label, true)
    } else {
        let l = if xa <= xb {
            xa
        } else {
            xb
        };
        let r = if xa <= xb {
            xb
        } else {
            xa
        };
        let stroke = if dashed {
            '┄'
        } else {
            '─'
        };
        let s1 = strokes(row, l + 1, r, stroke);
        let s2 = if xa <= xb {
            if 0 < r && r - 1 < s1.len() && s1[r - 1] == stroke {
                s1.update(r - 1, '►')
            } else {
                s1
            }
        } else {
            put_blank(s1, r + 1, '◄')
        };
        let mid = l + (r - l) / 2;
        let start = if mid >= label.len() / 2 {
            mid - label.len() / 2
        } else {
            0
        };
        paint(s2, start, label, true)
    }
}

/// The row of event `i` of `d`, `w` wide with `cw`-wide columns.
pub open spec fn event_row(d: SequenceDiagram, i: int, selected: bool, cw: int, w: nat) -> Seq<char> {
    let base = lifelines(blank(w), d.participants@.len() as int, cw);
    let marked = if selected && w > 0 {
        base.update(0, '▶')
    } else {
        base
    };
    match d.events@[i] {
        SequenceEvent::Message { from, to, dashed, rel_id, .. } => match (
            position_of(d.participants@, from@),
            position_of(d.participants@, to@),
        ) {
            (Some(a), Some(b)) => message_row(marked, a, b, dashed, rel_id@, cw),
            _ => marked,
        },
    }
}

/// The column width for `n` participants on `w` cells: an equal share
/// of what the gaps leave, kept within 3..=14.
pub open spec fn column_width(w: nat, n: nat) -> int {
    let usable = if 2 * (n - 1) >= w {
        0
    } else {
        w - 2 * (n - 1)
    };
    let share = usable / (n as int);
    if share < 3 {
        3
    } else if share > 14 {
        14
    } else {
        share
    }
}

/// The preview of the selected diagram for a pane `max_width` wide.
pub open spec fn preview_lines(ed: SequenceEditorState, max_width: nat) -> Seq<Seq<char>> {
    if ed.diagram_cursor >= ed.diagrams@.len() {
        seq!["No diagram."@]
    } else if max_width < 10 {
        seq!["…"@]
    } else {
        let d = ed.diagrams@[ed.diagram_cursor as int];
        if d.participants@.len() == 0 {
            seq!["No participants. Press 'p' to add one."@]
        } else {
            let w = (max_width - 2) as nat;
            let cw = column_width(w, d.participants@.len());
            let rows = Seq::new(
                d.events@.len(),
                |i: int| event_row(d, i, i == ed.event_cursor, cw, w),
            );
            let body = seq![header(d.participants@, cw, w)] + rows;
            if d.events@.len() == 0 {
                body + seq![Seq::<char>::empty(), "No events. Press 'm' to add a message."@]
            } else {
                body
            }
        }
    }
}

proof fn lemma_col_bound(i: int, cw: int)
    by (nonlinear_arith)
    requires
        0 <= i < 0x1_0000_0000_0000_0000,
        0 <= cw <= 14,
    ensures
        0 <= i * (cw + 2) <= 0x10_0000_0000_0000_0000,
{
}

/// The start of column `i` and its centre.
fn col_start_exec(i: usize, cw: usize) -> (r: u128)
    requires
        cw <= 14,
    ensures
        r == i * (cw + 2),
        r <= 0x10_0000_0000_0000_0000,
{
    proof {
        lemma_col_bound(i as int, cw as int);
    }
    (i as u128) * ((cw + 2) as u128)
}

fn blank_exec(w: usize) -> (r: Vec<char>)
    ensures
        r@ == blank(w as nat),
{
    let mut v: Vec<char> = Vec::new();
    let mut i: usize = 0;
    while i < w
        invariant
            i <= w,
            v@ == blank(i as nat),
        decreases w - i,
    {
        v.push(' ');
        i = i + 1;
        proof {
            assert(v@ =~= blank(i as nat));
        }
    }
    v
}

fn put_exec(row: &mut Vec<char>, pos: u128, c: char)
    ensures
        final(row)@ == put(old(row)@, pos as int, c),
{
    if pos < row.len() as u128 {
        row.set(pos as usize, c);
    }
}

fn put_blank_exec(row: &mut Vec<char>, pos: u128, c: char)
    ensures
        final(row)@ == put_blank(old(row)@, pos as int, c),
{
    if pos < row.len() as u128 {
        if row[pos as usize] == ' ' {
            row.set(pos as usize, c);
        }
    }
}

fn paint_exec(row: &mut Vec<char>, start: u128, s: &Vec<char>, only_blank: bool)
    requires
        start + s@.len() < u128::MAX,
    ensures
        final(row)@ == paint(old(row)@, start as int, s@, only_blank),
{
    let ghost orig = row@;
    let mut k: usize = 0;
    while k < s.len()
        invariant
            k <= s.len(),
            start + s@.len() < u128::MAX,
            row@ == paint(orig, start as int, s@.take(k as int), only_blank),
        decreases s.len() - k,
    {
        proof {
            assert(s@.take(k + 1).drop_last() =~= s@.take(k as int));
            assert(s@.take(k + 1).last() == s@[k as int]);
        }
        if only_blank {
            put_blank_exec(row, start + k as u128, s[k]);
        } else {
            put_exec(row, start + k as u128, s[k]);
        }
        k = k + 1;
    }
    proof {
        assert(s@.take(s@.len() as int) =~= s@);
    }
}

fn short_label_exec(s: &String) -> (r: Vec<char>)
    ensures
        r@ == short_label(s@),
{
    let cs = chars_of(s.as_str());
    if cs.len() > 18 {
        let mut out: Vec<char> = Vec::new();
        let mut i: usize = 0;
        while i < 17
            invariant
                i <= 17 < cs.len(),
                out@ == cs@.take(i as int),
            decreases 17 - i,
        {
            out.push(cs[i]);
            i = i + 1;
            proof {
                assert(out@ =~= cs@.take(i as int));
            }
        }
        out.push('…');
        out
    } else {
        cs
    }
}

fn take_at_most_exec(s: &String, k: usize) -> (r: Vec<char>)
    ensures
        r@ == take_at_most(s@, k as int),
{
    let cs = chars_of(s.as_str());
    if cs.len() > k {
        let mut out: Vec<char> = Vec::new();
        let mut i: usize = 0;
        while i < k
            invariant
                i <= k < cs.len(),
                out@ == cs@.take(i as int),
            decreases k - i,
        {
            out.push(cs[i]);
            i = i + 1;
            proof {
                assert(out@ =~= cs@.take(i as int));
            }
        }
        out
    } else {
        cs
    }
}

fn header_exec(parts: &Vec<String>, cw: usize, w: usize) -> (r: Vec<char>)
    requires
        3 <= cw <= 14,
        parts@.len() < 0x1_0000_0000_0000_0000,
    ensures
        r@ == header(parts@, cw as int, w as nat),
{
    let mut row = blank_exec(w);
    let mut i: usize = 0;
    proof {
        assert(parts@.take(0) =~= Seq::<String>::empty());
    }
    while i < parts.len()
        invariant
            i <= parts.len(),
            3 <= cw <= 14,
            parts@.len() < 0x1_0000_0000_0000_0000,
            row@ == header(parts@.take(i as int), cw as int, w as nat),
        decreases parts.len() - i,
    {
        proof {
            assert(parts@.take(i + 1).drop_last() =~= parts@.take(i as int));
            assert(parts@.take(i + 1).last() == parts@[i as int]);
        }
        let label = take_at_most_exec(&parts[i], cw);
        let start: u128 = col_start_exec(i, cw) + ((cw - label.len()) / 2) as u128;
        paint_exec(&mut row, start, &label, false);
        i = i + 1;
    }
    proof {
        assert(parts@.take(parts@.len() as int) =~= parts@);
    }
    row
}

fn position_exec(parts: &Vec<String>, name: &String) -> (r: Option<usize>)
    ensures
        match r {
            Some(i) => position_of(parts@, name@) == Some(i as int),
            None => position_of(parts@, name@) is None,
        },
{
    let nc = chars_of(name.as_str());
    let mut i: usize = 0;
    while i < parts.len()
        invariant
            i <= parts.len(),
            nc@ == name@,
            position_of(parts@.take(i as int), name@) is None,
        decreases parts.len() - i,
    {
        proof {
            assert(parts@.take(i + 1).drop_last() =~= parts@.take(i as int));
            assert(parts@.take(i + 1).last() == parts@[i as int]);
        }
        if eq(&chars_of(parts[i].as_str()), &nc) {
            proof {
                lemma_position_prefix(parts@, name@, i + 1);
            }
            return Some(i);
        }
        i = i + 1;
    }
    proof {
        assert(parts@.take(parts@.len() as int) =~= parts@);
    }
    None
}

proof fn lemma_position_prefix(parts: Seq<String>, name: Seq<char>, n: int)
    requires
        0 < n <= parts.len(),
        position_of(parts.take(n), name) is Some,
    ensures
        position_of(parts, name) == position_of(parts.take(n), name),
    decreases parts.len() - n,
{
    if n < parts.len() {
        assert(parts.take(n + 1).drop_last() =~= parts.take(n));
        lemma_position_prefix(parts, name, n + 1);
    } else {
        assert(parts.take(n) =~= parts);
    }
}

fn lifelines_exec(row: &mut Vec<char>, n: usize, cw: usize)
    requires
        3 <= cw <= 14,
        n < 0x1_0000_0000_0000_0000,
    ensures
        final(row)@ == lifelines(old(row)@, n as int, cw as int),
{
    let ghost orig = row@;
    let mut p: usize = 0;
    while p < n
        invariant
            p <= n,
            3 <= cw <= 14,
            n < 0x1_0000_0000_0000_0000,
            row@ == lifelines(orig, p as int, cw as int),
        decreases n - p,
    {
        let x: u128 = col_start_exec(p, cw) + (cw / 2) as u128;
        put_exec(row, x, '│');
        p = p + 1;
    }
}

proof fn lemma_lifelines_len(row: Seq<char>, n: int, cw: int)
    ensures
        lifelines(row, n, cw).len() == row.len(),
    decreases n,
{
    if n > 0 {
        lemma_lifelines_len(row, n - 1, cw);
    }
}

fn strokes_exec(row: &mut Vec<char>, lo: u128, hi: u128, c: char)
    requires
        hi < u128::MAX,
    ensures
        final(row)@ == strokes(old(row)@, lo as int, hi as int, c),
        final(row)@.len() == old(row)@.len(),
{
    let ghost orig = row@;
    let end: u128 = if hi < row.len() as u128 {
        hi
    } else {
        row.len() as u128
    };
    proof {
        lemma_strokes_beyond(orig, lo as int, end as int, hi as int, c);
    }
    if lo >= end {
        proof {
            lemma_strokes_empty(orig, lo as int, end as int, c);
        }
        return;
    }
    let mut x: u128 = lo;
    proof {
        lemma_strokes_empty(orig, lo as int, lo as int, c);
    }
    while x < end
        invariant
            lo <= x <= end <= orig.len(),
            row@ == strokes(orig, lo as int, x as int, c),
            row@.len() == orig.len(),
        decreases end - x,
    {
        put_blank_exec(row, x, c);
        x = x + 1;
    }
}

proof fn lemma_strokes_len(row: Seq<char>, lo: int, hi: int, c: char)
    ensures
        strokes(row, lo, hi, c).len() == row.len(),
    decreases hi - lo,
{
    if lo < hi {
        lemma_strokes_len(row, lo, hi - 1, c);
    }
}

proof fn lemma_strokes_empty(row: Seq<char>, lo: int, hi: int, c: char)
    requires
        lo >= hi,
    ensures
        strokes(row, lo, hi, c) == row,
{
}

proof fn lemma_strokes_beyond(row: Seq<char>, lo: int, end: int, hi: int, c: char)
    requires
        end <= hi,
        end == hi || end == row.len(),
    ensures
        strokes(row, lo, hi, c) == strokes(row, lo, end, c),
    decreases hi - end,
{
    if hi > end {
        lemma_strokes_beyond(row, lo, end, hi - 1, c);
        lemma_strokes_len(row, lo, hi - 1, c);
        if lo < hi {
            assert(hi - 1 >= row.len());
        } else {
            assert(strokes(row, lo, end, c) == row) by {
                lemma_strokes_empty(row, lo, end, c);
            }
        }
    }
}

fn message_row_exec(
    row: &mut Vec<char>,
    a: usize,
    b: usize,
    dashed: bool,
    rel: &String,
    cw: usize,
)
    requires
        3 <= cw <= 14,
        a < 0x1_0000_0000_0000_0000,
        b < 0x1_0000_0000_0000_0000,
        old(row)@.len() > 0,
        old(row)@.len() < 0x1_0000_0000_0000_0000,
    ensures
        final(row)@ == message_row(old(row)@, a as int, b as int, dashed, rel@, cw as int),
{
    let ghost orig = row@;
    let xa: u128 = col_start_exec(a, cw) + (cw / 2) as u128;
    let xb: u128 = col_start_exec(b, cw) + (cw / 2) as u128;
    let label = short_label_exec(rel);
    let w = row.len() as u128;
    if xa == xb {
        let ls: u128 = if xa + 1 < w - 1 {
            xa + 1
        } else {
            w - 1
        };
        put_exec(row, ls, '↺');
        paint_exec(row, ls + 2, &label, true);
        return;
    }
    let l = if xa <= xb {
        xa
    } else {
        xb
    };
    let r = if xa <= xb {
        xb
    } else {
        xa
    };
    let stroke = if dashed {
        '┄'
    } else {
        '─'
    };
    strokes_exec(row, l + 1, r, stroke);
    let ghost s1 = row@;
    if xa <= xb {
        if 0 < r && r - 1 < row.len() as u128 {
            if row[(r - 1) as usize] == stroke {
                row.set((r - 1) as usize, '►');
            }
        }
    } else {
        put_blank_exec(row, r + 1, '◄');
    }
    let mid = l + (r - l) / 2;
    let half = (label.len() / 2) as u128;
    let start = if mid >= half {
        mid - half
    } else {
        0
    };
    paint_exec(row, start, &label, true);
}

/// The preview of the selected diagram for a pane `max_width` wide, one
/// string per line.
pub fn sequence_preview(ed: &SequenceEditorState, max_width: usize) -> (r: Vec<String>)
    ensures
        r@.map_values(|s: String| s@) == preview_lines(*ed, max_width as nat),
{
    proof {
        reveal_strlit("No diagram.");
        reveal_strlit("…");
        reveal_strlit("No participants. Press 'p' to add one.");
        reveal_strlit("No events. Press 'm' to add a message.");
    }
    let mut out: Vec<String> = Vec::new();
    if ed.diagram_cursor >= ed.diagrams.len() {
        out.push("No diagram.".to_string());
        proof {
            assert(out@.map_values(|s: String| s@) =~= preview_lines(*ed, max_width as nat));
        }
        return out;
    }
    if max_width < 10 {
        out.push("…".to_string());
        proof {
            assert(out@.map_values(|s: String| s@) =~= preview_lines(*ed, max_width as nat));
        }
        return out;
    }
    let d = &ed.diagrams[ed.diagram_cursor];
    let n = d.participants.len();
    if n == 0 {
        out.push("No participants. Press 'p' to add one.".to_string());
        proof {
            assert(out@.map_values(|s: String| s@) =~= preview_lines(*ed, max_width as nat));
        }
        return out;
    }
    let w = max_width - 2;
    let usable: usize = if 2 * ((n - 1) as u128) >= w as u128 {
        0
    } else {
        w - 2 * (n - 1)
    };
    let share = usable / n;
    let cw = if share < 3 {
        3
    } else if share > 14 {
        14
    } else {
        share
    };
    let ghost wn = w as nat;
    let ghost cwi = cw as int;
    assert(cwi == column_width(wn, n as nat));
    let head = header_exec(&d.participants, cw, w);
    out.push(string_of(&head));
    let ghost rows = Seq::new(
        d.events@.len(),
        |i: int| event_row(*d, i, i == ed.event_cursor, cwi, wn),
    );
    let mut i: usize = 0;
    while i < d.events.len()
        invariant
            i <= d.events.len(),
            3 <= cw <= 14,
            n == d.participants@.len(),
            n < 0x1_0000_0000_0000_0000,
            w == wn,
            w >= 8,
            cw == cwi,
            *d == ed.diagrams@[ed.diagram_cursor as int],
            rows.len() == d.events@.len(),
            forall|j: int|
                0 <= j < rows.len() ==> #[trigger] rows[j] == event_row(
                    *d,
                    j,
                    j == ed.event_cursor,
                    cwi,
                    wn,
                ),
            out@.map_values(|s: String| s@) == seq![header(d.participants@, cwi, wn)] + rows.take(
                i as int,
            ),
        decreases d.events.len() - i,
    {
        let mut row = blank_exec(w);
        lifelines_exec(&mut row, n, cw);
        proof {
            lemma_lifelines_len(blank(wn), n as int, cwi);
        }
        if i == ed.event_cursor {
            row.set(0, '▶');
        }
        match &d.events[i] {
            SequenceEvent::Message { from, to, dashed, rel_id, .. } => {
                let pa = position_exec(&d.participants, from);
                let pb = position_exec(&d.participants, to);
                match (pa, pb) {
                    (Some(a), Some(b)) => {
                        message_row_exec(&mut row, a, b, *dashed, rel_id, cw);
                    },
                    _ => {},
                }
            },
        }
        let ghost before = out@.map_values(|s: String| s@);
        out.push(string_of(&row));
        proof {
            assert(row@ == rows[i as int]);
            assert(rows.take(i + 1) =~= rows.take(i as int).push(rows[i as int]));
            assert(out@.map_values(|s: String| s@) =~= before.push(row@));
        }
        i = i + 1;
    }
    proof {
        assert(rows.take(d.events@.len() as int) =~= rows);
    }
    if d.events.len() == 0 {
        let ghost before = out@.map_values(|s: String| s@);
        out.push(String::new());
        out.push("No events. Press 'm' to add a message.".to_string());
        proof {
            assert(out@.map_values(|s: String| s@) =~= before + seq![
                Seq::<char>::empty(),
                "No events. Press 'm' to add a message."@,
            ]);
        }
    }
    proof {
        assert(out@.map_values(|s: String| s@) =~= preview_lines(*ed, max_width as nat));
    }
    out
}

} // verus!

//! The text filters prompt templates can apply: bullet lists, indenting,
//! fenced code blocks, quoting, truncation, and wrapping a sequence
//! diagram as Mermaid.

use vstd::prelude::*;
use crate::text::{
    append, chars_of, copy_chars, has_prefix, join, join_exec, lines, lines_exec, string_of, trim,
    trim_start, v_trim, v_trim_start, views,
};
use crate::utf8::{byte_len, floor_idx, floor_idx_exec, str_byte_len};

verus! {

/// A character `bullet` strips from the start of a line.
pub open spec fn bullet_mark(c: char) -> bool {
    c == '-' || c == '*' || c == ' '
}

/// How many bullet marks `s` starts with.
pub open spec fn lead_marks(s: Seq<char>) -> nat
    decreases s.len(),
{
    if s.len() > 0 && bullet_mark(s[0]) {
        1 + lead_marks(s.drop_first())
    } else {
        0
    }
}

/// The non-blank lines, each without its leading marks and as `- line`.
pub open spec fn bullet_lines(ls: Seq<Seq<char>>) -> Seq<Seq<char>>
    decreases ls.len(),
{
    if ls.len() == 0 {
        Seq::empty()
    } else {
        let prev = bullet_lines(ls.drop_last());
        let l = ls.last();
        if trim(l).len() > 0 {
            prev.push("- "@ + l.skip(lead_marks(l) as int))
        } else {
            prev
        }
    }
}

proof fn lemma_marks_gone(l: Seq<char>)
    ensures
        lead_marks(l) <= l.len(),
        lead_marks(l.skip(lead_marks(l) as int)) == 0,
    decreases l.len(),
{
    if l.len() > 0 && bullet_mark(l[0]) {
        lemma_marks_gone(l.drop_first());
        assert(l.skip(lead_marks(l) as int) =~= l.drop_first().skip(
            lead_marks(l.drop_first()) as int,
        ));
    } else {
        assert(l.skip(0) =~= l);
    }
}

proof fn lemma_bullet_line_kept(rest: Seq<char>)
    requires
        lead_marks(rest) == 0,
    ensures
        trim("- "@ + rest).len() > 0,
        ("- "@ + rest).skip(lead_marks("- "@ + rest) as int) == rest,
{
    reveal_strlit("- ");
    let x = "- "@ + rest;
    assert(x[0] == '-');
    assert(x.drop_first() =~= seq![' '] + rest);
    assert((seq![' '] + rest).drop_first() =~= rest);
    assert(lead_marks(seq![' '] + rest) == 1);
    assert(lead_marks(x) == 2);
    assert(x.skip(2) =~= rest);
    crate::text::lemma_trim_nonblank(x, 0);
}

/// Bulleting is idempotent: every line it gives starts with `- `, and
/// bulleting those lines again gives them back unchanged.
pub proof fn lemma_bullet_idempotent(ls: Seq<Seq<char>>)
    ensures
        forall|i: int|
            0 <= i < bullet_lines(ls).len() ==> has_prefix(#[trigger] bullet_lines(ls)[i], "- "@),
        bullet_lines(bullet_lines(ls)) == bullet_lines(ls),
    decreases ls.len(),
{
    reveal_strlit("- ");
    if ls.len() > 0 {
        let front = ls.drop_last();
        lemma_bullet_idempotent(front);
        let prev = bullet_lines(front);
        let l = ls.last();
        if trim(l).len() > 0 {
            lemma_marks_gone(l);
            let rest = l.skip(lead_marks(l) as int);
            let x = "- "@ + rest;
            lemma_bullet_line_kept(rest);
            let b = prev.push(x);
            assert(b.drop_last() =~= prev);
            assert(b.last() == x);
            assert(x.take(2) =~= "- "@);
            assert forall|i: int| 0 <= i < b.len() implies has_prefix(#[trigger] b[i], "- "@) by {
                if i < prev.len() {
                    assert(b[i] == prev[i]);
                }
            }
        }
    }
}

/// Each item as `- item`.
pub open spec fn bullet_items_spec(items: Seq<Seq<char>>) -> Seq<Seq<char>> {
    items.map_values(|x: Seq<char>| "- "@ + x)
}

/// Each line with `prefix` before it.
pub open spec fn prefixed(ls: Seq<Seq<char>>, prefix: Seq<char>) -> Seq<Seq<char>> {
    ls.map_values(|l: Seq<char>| prefix + l)
}

/// `n` spaces.
pub open spec fn spaces(n: nat) -> Seq<char> {
    Seq::new(n, |i: int| ' ')
}

fn lead_marks_exec(s: &Vec<char>) -> (r: usize)
    ensures
        r == lead_marks(s@),
        r <= s.len(),
{
    let mut i: usize = 0;
    proof {
        assert(s@.skip(0) =~= s@);
    }
    while i < s.len() && (s[i] == '-' || s[i] == '*' || s[i] == ' ')
        invariant
            i <= s.len(),
            lead_marks(s@) == i + lead_marks(s@.skip(i as int)),
        decreases s.len() - i,
    {
        proof {
            assert(s@.skip(i as int).drop_first() =~= s@.skip(i + 1));
        }
        i = i + 1;
    }
    proof {
        if i < s.len() {
            assert(s@.skip(i as int)[0] == s@[i as int]);
        }
    }
    i
}

fn skip_exec(s: &Vec<char>, k: usize) -> (r: Vec<char>)
    requires
        k <= s.len(),
    ensures
        r@ == s@.skip(k as int),
{
    let mut out: Vec<char> = Vec::new();
    let mut i = k;
    while i < s.len()
        invariant
            k <= i <= s.len(),
            out@ == s@.subrange(k as int, i as int),
        decreases s.len() - i,
    {
        out.push(s[i]);
        i = i + 1;
    }
    out
}

/// `bullet` on text: each non-blank line becomes `- line`, without the
/// `-`, `*` and spaces it started with; the bullets are joined by
/// newlines.
pub fn bullet_text(s: &str) -> (r: String)
    ensures
        r@ == join(bullet_lines(lines(s@)), "\n"@),
{
    let ls = lines_exec(&chars_of(s));
    let mut out: Vec<Vec<char>> = Vec::new();
    let mut i: usize = 0;
    proof {
        reveal_strlit("- ");
    }
    while i < ls.len()
        invariant
            i <= ls.len(),
            views(ls@) == lines(s@),
            views(out@) == bullet_lines(views(ls@).take(i as int)),
        decreases ls.len() - i,
    {
        let l = &ls[i];
        proof {
            assert(views(ls@).take(i + 1).drop_last() =~= views(ls@).take(i as int));
            assert(views(ls@).take(i + 1).last() == l@);
        }
        if v_trim(l).len() > 0 {
            let k = lead_marks_exec(l);
            let mut b = chars_of("- ");
            append(&mut b, &skip_exec(l, k));
            let ghost before = views(out@);
            out.push(b);
            proof {
                assert(views(out@) =~= before.push(b@));
            }
        }
        i = i + 1;
    }
    proof {
        assert(views(ls@).take(ls.len() as int) =~= views(ls@));
        reveal_strlit("\n");
    }
    string_of(&join_exec(&out, &chars_of("\n")))
}

/// `bullet` on a list: one `- item` per item (each item as it displays),
/// joined by newlines.
pub fn bullet_items(items: &Vec<String>) -> (r: String)
    ensures
        r@ == join(bullet_items_spec(items@.map_values(|x: String| x@)), "\n"@),
{
    let mut out: Vec<Vec<char>> = Vec::new();
    let mut i: usize = 0;
    let ghost iv = items@.map_values(|x: String| x@);
    proof {
        reveal_strlit("- ");
    }
    while i < items.len()
        invariant
            i <= items.len(),
            iv == items@.map_values(|x: String| x@),
            views(out@) == bullet_items_spec(iv.take(i as int)),
        decreases items.len() - i,
    {
        let mut b = chars_of("- ");
        append(&mut b, &chars_of(items[i].as_str()));
        let ghost before = views(out@);
        out.push(b);
        proof {
            assert(iv[i as int] == items@[i as int]@);
            assert(views(out@) =~= before.push(b@));
            assert(iv.take(i + 1) =~= iv.take(i as int).push(iv[i as int]));
            assert(bullet_items_spec(iv.take(i + 1)) =~= bullet_items_spec(iv.take(i as int)).push("- "@ + iv[i as int]));
        }
        i = i + 1;
    }
    proof {
        assert(iv.take(items.len() as int) =~= iv);
        reveal_strlit("\n");
    }
    string_of(&join_exec(&out, &chars_of("\n")))
}

fn prefixed_exec(s: &str, prefix: &Vec<char>) -> (r: String)
    ensures
        r@ == join(prefixed(lines(s@), prefix@), "\n"@),
{
    let ls = lines_exec(&chars_of(s));
    let mut out: Vec<Vec<char>> = Vec::new();
    let mut i: usize = 0;
    while i < ls.len()
        invariant
            i <= ls.len(),
            views(ls@) == lines(s@),
            views(out@) == prefixed(views(ls@).take(i as int), prefix@),
        decreases ls.len() - i,
    {
        let mut b = copy_chars(prefix);
        append(&mut b, &ls[i]);
        let ghost before = views(out@);
        out.push(b);
        proof {
            let lv = views(ls@);
            assert(lv[i as int] == ls@[i as int]@);
            assert(views(out@) =~= before.push(b@));
            assert(lv.take(i + 1) =~= lv.take(i as int).push(lv[i as int]));
            assert(prefixed(lv.take(i + 1), prefix@) =~= prefixed(lv.take(i as int), prefix@).push(prefix@ + lv[i as int]));
        }
        i = i + 1;
    }
    proof {
        assert(views(ls@).take(ls.len() as int) =~= views(ls@));
        reveal_strlit("\n");
    }
    string_of(&join_exec(&out, &chars_of("\n")))
}

/// `indent(n)`: each line with `n` spaces before it, joined by
/// newlines; refused for a negative width.
pub fn indent(s: &str, n: i64) -> (r: Result<String, String>)
    ensures
        n < 0 || n > usize::MAX ==> (r matches Err(e) && e@ == "indent: negative width"@),
        0 <= n <= usize::MAX ==> (r matches Ok(t) && t@ == join(
            prefixed(lines(s@), spaces(n as nat)),
            "\n"@,
        )),
{
    if n < 0 || n as i128 > usize::MAX as i128 {
        proof {
            reveal_strlit("indent: negative width");
        }
        return Err("indent: negative width".to_string());
    }
    let w = n as usize;
    let mut pad: Vec<char> = Vec::new();
    let mut i: usize = 0;
    while i < w
        invariant
            i <= w,
            pad@ == spaces(i as nat),
        decreases w - i,
    {
        pad.push(' ');
        i = i + 1;
        proof {
            assert(pad@ =~= spaces(i as nat));
        }
    }
    Ok(prefixed_exec(s, &pad))
}

/// `code_block(lang)`: the body in a fence naming the language (none
/// by default).
pub fn code_block(body: &str, lang: &str) -> (r: String)
    ensures
        r@ == "```"@ + lang@ + "\n"@ + body@ + "\n```"@,
{
    proof {
        reveal_strlit("```");
        reveal_strlit("\n");
        reveal_strlit("\n```");
    }
    let mut v = chars_of("```");
    append(&mut v, &chars_of(lang));
    append(&mut v, &chars_of("\n"));
    append(&mut v, &chars_of(body));
    append(&mut v, &chars_of("\n```"));
    string_of(&v)
}

/// `quote`: each line as `> line`, joined by newlines.
pub fn quote(s: &str) -> (r: String)
    ensures
        r@ == join(prefixed(lines(s@), "> "@), "\n"@),
{
    proof {
        reveal_strlit("> ");
    }
    prefixed_exec(s, &chars_of("> "))
}

/// `truncate(n)`: the text when it has at most `n` bytes; otherwise its
/// longest prefix of at most `n` bytes that ends on a character
/// boundary, then `...`. Refused for a negative length.
pub fn truncate(s: &str, n: i64) -> (r: Result<String, String>)
    ensures
        n < 0 || n > usize::MAX ==> (r matches Err(e) && e@ == "truncate: negative length"@),
        0 <= n <= usize::MAX ==> (r matches Ok(t) && t@ == if byte_len(s@) <= n {
            s@
        } else {
            s@.take(floor_idx(s@, n as int) as int) + "..."@
        }),
{
    if n < 0 || n as i128 > usize::MAX as i128 {
        proof {
            reveal_strlit("truncate: negative length");
        }
        return Err("truncate: negative length".to_string());
    }
    let w = n as usize;
    let total = str_byte_len(s);
    if total <= w {
        return Ok(s.to_string());
    }
    let cs = chars_of(s);
    let k = floor_idx_exec(&cs, w);
    let mut out: Vec<char> = Vec::new();
    let mut i: usize = 0;
    proof {
        crate::utf8::lemma_floor_idx(cs@, w as int);
    }
    while i < k
        invariant
            i <= k <= cs.len(),
            out@ == cs@.take(i as int),
        decreases k - i,
    {
        out.push(cs[i]);
        i = i + 1;
        proof {
            assert(out@ =~= cs@.take(i as int));
        }
    }
    proof {
        reveal_strlit("...");
    }
    append(&mut out, &chars_of("..."));
    Ok(string_of(&out))
}

/// The lines without the blank ones at the start and at the end.
pub open spec fn trim_blank_lines(ls: Seq<Seq<char>>) -> Seq<Seq<char>>
    decreases ls.len(),
{
    if ls.len() > 0 && trim(ls[0]).len() == 0 {
        trim_blank_lines(ls.drop_first())
    } else if ls.len() > 0 && trim(ls.last()).len() == 0 {
        trim_blank_lines(ls.drop_last())
    } else {
        ls
    }
}

/// `sequence_gram`: the diagram's lines, without blank lines around
/// them, in a Mermaid fence, with a `sequenceDiagram` header unless the
/// first line has one.
pub open spec fn mermaid_fenced(raw: Seq<char>) -> Seq<char> {
    let ls = trim_blank_lines(lines(raw));
    let header = ls.len() > 0 && has_prefix(trim_start(ls[0]), "sequenceDiagram"@);
    "```mermaid\n"@ + (if header {
        Seq::empty()
    } else {
        "sequenceDiagram\n"@
    }) + (if ls.len() > 0 {
        join(ls, "\n"@) + "\n"@
    } else {
        Seq::empty()
    }) + "```"@
}

/// `sequence_gram`: the diagram's lines in a Mermaid fence.
pub fn sequence_gram(raw: &str) -> (r: String)
    ensures
        r@ == mermaid_fenced(raw@),
{
    let ls = lines_exec(&chars_of(raw));
    let mut lo: usize = 0;
    let mut hi: usize = ls.len();
    let ghost all = views(ls@);
    proof {
        assert(all.subrange(0, all.len() as int) =~= all);
    }
    while lo < hi && v_trim(&ls[lo]).len() == 0
        invariant
            lo <= hi <= ls.len(),
            all == views(ls@),
            hi == ls.len(),
            trim_blank_lines(all) == trim_blank_lines(all.subrange(lo as int, hi as int)),
        decreases hi - lo,
    {
        proof {
            let sub = all.subrange(lo as int, hi as int);
            assert(sub[0] == all[lo as int]);
            assert(sub.drop_first() =~= all.subrange(lo + 1, hi as int));
        }
        lo = lo + 1;
    }
    while lo < hi && v_trim(&ls[hi - 1]).len() == 0
        invariant
            lo <= hi <= ls.len(),
            all == views(ls@),
            trim_blank_lines(all) == trim_blank_lines(all.subrange(lo as int, hi as int)),
            lo < hi ==> trim(all[lo as int]).len() > 0,
        decreases hi - lo,
    {
        proof {
            let sub = all.subrange(lo as int, hi as int);
            assert(sub[0] == all[lo as int]);
            assert(sub.last() == all[hi - 1]);
            assert(sub.drop_last() =~= all.subrange(lo as int, hi - 1));
        }
        hi = hi - 1;
    }
    let ghost kept = all.subrange(lo as int, hi as int);
    proof {
        if lo < hi {
            assert(kept[0] == all[lo as int]);
            assert(kept.last() == all[hi - 1]);
        }
        assert(trim_blank_lines(kept) == kept);
    }
    let mut body: Vec<Vec<char>> = Vec::new();
    let mut i = lo;
    while i < hi
        invariant
            lo <= i <= hi <= ls.len(),
            all == views(ls@),
            views(body@) == all.subrange(lo as int, i as int),
        decreases hi - i,
    {
        let ghost before = views(body@);
        let c = copy_chars(&ls[i]);
        body.push(c);
        proof {
            assert(all[i as int] == ls@[i as int]@);
            assert(views(body@) =~= before.push(c@));
        }
        i = i + 1;
        proof {
            assert(views(body@) =~= all.subrange(lo as int, i as int));
        }
    }
    proof {
        reveal_strlit("```mermaid\n");
        reveal_strlit("sequenceDiagram\n");
        reveal_strlit("sequenceDiagram");
        reveal_strlit("\n");
        reveal_strlit("```");
    }
    let mut out = chars_of("```mermaid\n");
    let header = body.len() > 0 && crate::text::starts_with(
        &v_trim_start(&body[0]),
        &chars_of("sequenceDiagram"),
    );
    if !header {
        append(&mut out, &chars_of("sequenceDiagram\n"));
    }
    if body.len() > 0 {
        append(&mut out, &join_exec(&body, &chars_of("\n")));
        append(&mut out, &chars_of("\n"));
    }
    append(&mut out, &chars_of("```"));
    proof {
        assert(views(body@) == kept);
    }
    string_of(&out)
}

} // verus!

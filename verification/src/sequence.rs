//! The sequence-gram field format: named Mermaid sequence diagrams,
//! whose messages carry relation ids and optional edge context.
//!
//! ````text
//! ## Name
//! ```mermaid
//! sequenceDiagram
//!     participant A
//!     A->>B: text
//!     Note over A,B: context
//! ```
//! ````

use vstd::prelude::*;
use crate::cursor::{apply_delta, clamp_delta, cycle_wrap, wrap_index};
use crate::num::{dec, fmt_u128, parse_unsigned, parse_unsigned_exec};
use crate::text::{
    copy_string, pop_char, push_char, append, chars_of, concat, copy_chars, contains, contains_exec, eq, eq_ignore_case, eq_ignore_case_exec,
    has_prefix, has_suffix, join, join_exec, lines, lines_exec, replace, replace_exec,
    split_once, split_once_exec, starts_with, ends_with, strip_all_prefix, strip_prefix,
    strip_prefix_exec, string_of, trim, trim_ch, trim_end, trim_end_ch, trim_start_ch, v_trim,
    v_trim_ch, v_trim_end, v_trim_end_ch, v_trim_start_ch, views, is_ws, lead_ws, trail_ws,
    lead_ch, trail_ch, trim_start, find, find_from, occurs_at, lemma_find_from_props,
};

verus! {

/// One event of a diagram: a message between two participants.
#[derive(Clone, Debug, PartialEq, Eq)]
pub enum SequenceEvent {
    Message {
        from: String,
        to: String,
        dashed: bool,
        rel_id: String,
        text: String,
        edge_context: Option<String>,
    },
}

/// One named diagram.
#[derive(Clone, Debug, PartialEq, Eq)]
pub struct SequenceDiagram {
    pub name: String,
    pub participants: Vec<String>,
    pub events: Vec<SequenceEvent>,
}

/// The sequence-gram editor.
#[derive(Clone, Debug, PartialEq, Eq)]
pub struct SequenceEditorState {
    /// Index into the form's fields of the field being edited.
    pub form_field_index: usize,
    pub diagrams: Vec<SequenceDiagram>,
    pub diagram_cursor: usize,
    pub event_cursor: usize,
    pub participant_cursor: usize,
    pub mode: SequenceEditorMode,
}

/// What the sequence-gram editor is doing.
#[derive(Clone, Debug, PartialEq, Eq)]
pub enum SequenceEditorMode {
    Browse,
    AddParticipant { input: String },
    RenameDiagram { input: String },
    AddDiagram { input: String },
    AddMessage { from: usize, to: usize, dashed: bool, input: String },
    EditEdgeContext { input: String },
}

/// A message as plain values: from, to, dashed, relation id, text and
/// edge context.
pub struct EventV {
    pub from: Seq<char>,
    pub to: Seq<char>,
    pub dashed: bool,
    pub rel_id: Seq<char>,
    pub text: Seq<char>,
    pub edge_context: Option<Seq<char>>,
}

pub open spec fn opt_view(o: Option<String>) -> Option<Seq<char>> {
    match o {
        Some(s) => Some(s@),
        None => None,
    }
}

impl View for SequenceEvent {
    type V = EventV;

    open spec fn view(&self) -> EventV {
        match self {
            SequenceEvent::Message { from, to, dashed, rel_id, text, edge_context } => EventV {
                from: from@,
                to: to@,
                dashed: *dashed,
                rel_id: rel_id@,
                text: text@,
                edge_context: opt_view(*edge_context),
            },
        }
    }
}

pub open spec fn events_view(s: Seq<SequenceEvent>) -> Seq<EventV> {
    s.map_values(|e: SequenceEvent| e@)
}

pub open spec fn strings_view(s: Seq<String>) -> Seq<Seq<char>> {
    s.map_values(|x: String| x@)
}

/// A diagram as plain values.
pub struct DiagramV {
    pub name: Seq<char>,
    pub participants: Seq<Seq<char>>,
    pub events: Seq<EventV>,
}

impl View for SequenceDiagram {
    type V = DiagramV;

    open spec fn view(&self) -> DiagramV {
        DiagramV {
            name: self.name@,
            participants: strings_view(self.participants@),
            events: events_view(self.events@),
        }
    }
}

pub open spec fn diagrams_view(s: Seq<SequenceDiagram>) -> Seq<DiagramV> {
    s.map_values(|d: SequenceDiagram| d@)
}

// ---------------------------------------------------------------------
// Edge context: relation id to text.

/// Edge context collected while reading: relation id to text, in order
/// of first appearance, each id at most once.
pub struct EdgeContexts {
    pub entries: Vec<(Vec<char>, Vec<char>)>,
}

pub type Assoc = Seq<(Seq<char>, Seq<char>)>;

pub open spec fn pairs_view(s: Seq<(Vec<char>, Vec<char>)>) -> Assoc {
    s.map_values(|p: (Vec<char>, Vec<char>)| (p.0@, p.1@))
}

impl View for EdgeContexts {
    type V = Assoc;

    open spec fn view(&self) -> Assoc {
        pairs_view(self.entries@)
    }
}

/// The text recorded for `k`.
pub open spec fn assoc_get(a: Assoc, k: Seq<char>) -> Option<Seq<char>>
    decreases a.len(),
{
    if a.len() == 0 {
        None
    } else if a[0].0 == k {
        Some(a[0].1)
    } else {
        assoc_get(a.drop_first(), k)
    }
}

/// `a` with `k` recorded as `v`, in place of an earlier record.
pub open spec fn assoc_set(a: Assoc, k: Seq<char>, v: Seq<char>) -> Assoc
    decreases a.len(),
{
    if a.len() == 0 {
        seq![(k, v)]
    } else if a[0].0 == k {
        seq![(k, v)] + a.drop_first()
    } else {
        seq![a[0]] + assoc_set(a.drop_first(), k, v)
    }
}

/// `a` without any record for `k`.
pub open spec fn assoc_remove(a: Assoc, k: Seq<char>) -> Assoc
    decreases a.len(),
{
    if a.len() == 0 {
        Seq::empty()
    } else if a[0].0 == k {
        assoc_remove(a.drop_first(), k)
    } else {
        seq![a[0]] + assoc_remove(a.drop_first(), k)
    }
}

/// `a` with an empty record for `k` unless it has one.
pub open spec fn assoc_touch(a: Assoc, k: Seq<char>) -> Assoc {
    if assoc_get(a, k) is Some {
        a
    } else {
        assoc_set(a, k, Seq::empty())
    }
}

/// `a` with `txt` added as a new line of the record for `k`.
pub open spec fn assoc_append(a: Assoc, k: Seq<char>, txt: Seq<char>) -> Assoc {
    match assoc_get(a, k) {
        Some(cur) => assoc_set(a, k, if cur.len() > 0 {
            cur + seq!['\n'] + txt
        } else {
            txt
        }),
        None => assoc_set(a, k, txt),
    }
}

proof fn lemma_pairs_skip(s: Seq<(Vec<char>, Vec<char>)>, i: int)
    requires
        0 <= i < s.len(),
    ensures
        pairs_view(s).skip(i).drop_first() == pairs_view(s).skip(i + 1),
        pairs_view(s).skip(i)[0] == (s[i].0@, s[i].1@),
        pairs_view(s).skip(i).len() > 0,
{
    assert(pairs_view(s).skip(i).drop_first() =~= pairs_view(s).skip(i + 1));
}

impl EdgeContexts {
    pub fn new() -> (r: EdgeContexts)
        ensures
            r@ == Seq::<(Seq<char>, Seq<char>)>::empty(),
    {
        let r = EdgeContexts { entries: Vec::new() };
        proof {
            assert(r@ =~= Seq::<(Seq<char>, Seq<char>)>::empty());
        }
        r
    }

    pub fn is_empty(&self) -> (r: bool)
        ensures
            r == (self@.len() == 0),
    {
        self.entries.len() == 0
    }

    /// The text recorded for `k`.
    pub fn get(&self, k: &Vec<char>) -> (r: Option<Vec<char>>)
        ensures
            match r {
                Some(v) => assoc_get(self@, k@) == Some(v@),
                None => assoc_get(self@, k@) is None,
            },
    {
        let mut i: usize = 0;
        proof {
            assert(self@.skip(0) =~= self@);
        }
        while i < self.entries.len()
            invariant
                i <= self.entries.len(),
                assoc_get(self@, k@) == assoc_get(self@.skip(i as int), k@),
            decreases self.entries.len() - i,
        {
            proof {
                lemma_pairs_skip(self.entries@, i as int);
            }
            if eq(&self.entries[i].0, k) {
                return Some(copy_chars(&self.entries[i].1));
            }
            i = i + 1;
        }
        None
    }

    /// Records `v` for `k`.
    pub fn set(&mut self, k: &Vec<char>, v: &Vec<char>)
        ensures
            final(self)@ == assoc_set(old(self)@, k@, v@),
    {
        let ghost a = self@;
        let mut i: usize = 0;
        proof {
            assert(a.skip(0) =~= a);
            assert(a.take(0) + assoc_set(a.skip(0), k@, v@) =~= assoc_set(a, k@, v@));
        }
        while i < self.entries.len()
            invariant
                i <= self.entries.len(),
                a == self@,
                a == old(self)@,
                assoc_set(a, k@, v@) == a.take(i as int) + assoc_set(a.skip(i as int), k@, v@),
            decreases self.entries.len() - i,
        {
            proof {
                lemma_pairs_skip(self.entries@, i as int);
            }
            if eq(&self.entries[i].0, k) {
                let key = copy_chars(k);
                let val = copy_chars(v);
                self.entries.set(i, (key, val));
                proof {
                    assert(a.skip(i as int)[0].0 == k@);
                    assert(assoc_set(a.skip(i as int), k@, v@) == seq![(k@, v@)] + a.skip(i + 1));
                    assert(self@ =~= a.take(i as int) + (seq![(k@, v@)] + a.skip(i + 1)));
                }
                return;
            }
            proof {
                assert(a.take(i as int) + (seq![a.skip(i as int)[0]] + assoc_set(
                    a.skip(i + 1),
                    k@,
                    v@,
                )) =~= a.take(i + 1) + assoc_set(a.skip(i + 1), k@, v@));
            }
            i = i + 1;
        }
        self.entries.push((copy_chars(k), copy_chars(v)));
        proof {
            assert(a.skip(i as int) =~= Seq::<(Seq<char>, Seq<char>)>::empty());
            assert(a.take(i as int) =~= a);
            assert(self@ =~= a + seq![(k@, v@)]);
        }
    }

    /// Drops the record for `k`.
    pub fn remove(&mut self, k: &Vec<char>)
        ensures
            final(self)@ == assoc_remove(old(self)@, k@),
    {
        let ghost a = self@;
        let mut out: Vec<(Vec<char>, Vec<char>)> = Vec::new();
        let mut i: usize = 0;
        proof {
            assert(a.skip(0) =~= a);
            assert(pairs_view(out@) + assoc_remove(a.skip(0), k@) =~= assoc_remove(a, k@));
        }
        while i < self.entries.len()
            invariant
                i <= self.entries.len(),
                a == self@,
                assoc_remove(a, k@) == pairs_view(out@) + assoc_remove(a.skip(i as int), k@),
            decreases self.entries.len() - i,
        {
            proof {
                lemma_pairs_skip(self.entries@, i as int);
            }
            if !eq(&self.entries[i].0, k) {
                let ghost o = out@;
                out.push((copy_chars(&self.entries[i].0), copy_chars(&self.entries[i].1)));
                proof {
                    assert(pairs_view(out@) =~= pairs_view(o).push(a[i as int]));
                    assert(pairs_view(out@) + assoc_remove(a.skip(i + 1), k@) =~= pairs_view(o)
                        + (seq![a[i as int]] + assoc_remove(a.skip(i + 1), k@)));
                }
            }
            i = i + 1;
        }
        proof {
            assert(a.skip(i as int) =~= Seq::<(Seq<char>, Seq<char>)>::empty());
            assert(pairs_view(out@) + Seq::<(Seq<char>, Seq<char>)>::empty() =~= pairs_view(
                out@,
            ));
        }
        self.entries = out;
    }

    /// Makes sure `k` has a record, empty if it is new.
    pub fn touch(&mut self, k: &Vec<char>)
        ensures
            final(self)@ == assoc_touch(old(self)@, k@),
    {
        if self.get(k).is_none() {
            let empty: Vec<char> = Vec::new();
            proof {
                assert(empty@ =~= Seq::<char>::empty());
            }
            self.set(k, &empty);
        }
    }

    /// Adds `txt` as a new line of the record for `k`.
    pub fn append_line(&mut self, k: &Vec<char>, txt: &Vec<char>)
        ensures
            final(self)@ == assoc_append(old(self)@, k@, txt@),
    {
        match self.get(k) {
            Some(cur) => {
                let mut v = cur;
                if v.len() > 0 {
                    v.push('\n');
                }
                append(&mut v, txt);
                proof {
                    let c = assoc_get(self@, k@)->0;
                    assert(v@ =~= if c.len() > 0 {
                        c + seq!['\n'] + txt@
                    } else {
                        txt@
                    });
                }
                self.set(k, &v);
            },
            None => {
                self.set(k, txt);
            },
        }
    }
}

/// The event with its edge context taken from `ctx` when `ctx` has a
/// record for its relation id.
pub open spec fn attach_one(e: EventV, ctx: Assoc) -> EventV {
    match assoc_get(ctx, e.rel_id) {
        Some(t) => EventV { edge_context: Some(t), ..e },
        None => e,
    }
}

fn clone_opt(o: &Option<String>) -> (r: Option<String>)
    ensures
        opt_view(r) == opt_view(*o),
{
    match o {
        Some(s) => Some(s.clone()),
        None => None,
    }
}

fn attach_event(e: &SequenceEvent, ctx: &EdgeContexts) -> (r: SequenceEvent)
    ensures
        r@ == attach_one(e@, ctx@),
{
    let SequenceEvent::Message { from, to, dashed, rel_id, text, edge_context } = e;
    let ec = match ctx.get(&chars_of(rel_id.as_str())) {
        Some(t) => Some(string_of(&t)),
        None => clone_opt(edge_context),
    };
    SequenceEvent::Message {
        from: from.clone(),
        to: to.clone(),
        dashed: *dashed,
        rel_id: rel_id.clone(),
        text: text.clone(),
        edge_context: ec,
    }
}

/// Gives each message of `diag` the edge context `ctx` records for its
/// relation id; the other messages keep theirs.
pub fn attach_edge_contexts(diag: &mut SequenceDiagram, edge_contexts: &EdgeContexts)
    ensures
        final(diag).name == old(diag).name,
        final(diag).participants == old(diag).participants,
        final(diag)@.events == old(diag)@.events.map_values(
            |e: EventV| attach_one(e, edge_contexts@),
        ),
{
    let mut out: Vec<SequenceEvent> = Vec::new();
    let mut i: usize = 0;
    while i < diag.events.len()
        invariant
            i <= diag.events.len(),
            out.len() == i,
            forall|j: int|
                0 <= j < i ==> #[trigger] out@[j]@ == attach_one(
                    diag.events@[j]@,
                    edge_contexts@,
                ),
        decreases diag.events.len() - i,
    {
        out.push(attach_event(&diag.events[i], edge_contexts));
        i = i + 1;
    }
    proof {
        assert(events_view(out@) =~= old(diag)@.events.map_values(
            |e: EventV| attach_one(e, edge_contexts@),
        ));
    }
    diag.events = out;
}

// ---------------------------------------------------------------------
// Writing.

/// Text on one Mermaid line: line breaks as `<br/>`, trimmed.
pub open spec fn inline_text(s: Seq<char>) -> Seq<char> {
    trim(replace(s, seq!['\n'], "<br/>"@))
}

/// The text of a note, unless it holds nothing but line breaks.
pub open spec fn note_text(s: Seq<char>) -> Option<Seq<char>> {
    let c = inline_text(s);
    if c.len() == 0 || trim(replace(c, "<br/>"@, Seq::empty())).len() == 0 {
        None
    } else {
        Some(c)
    }
}

/// The participants a note of the message is over.
pub open spec fn note_who(e: EventV) -> Seq<char> {
    if e.from == e.to {
        e.from
    } else {
        e.from + seq![','] + e.to
    }
}

/// The arrow line of a message.
pub open spec fn arrow_text(e: EventV) -> Seq<char> {
    "    "@ + e.from + (if e.dashed {
        "-->>"@
    } else {
        "->>"@
    }) + e.to + ": "@ + inline_text(e.text) + seq!['\n']
}

/// The note line of a message: its edge context, when that has text.
pub open spec fn note_line(e: EventV) -> Seq<char> {
    match e.edge_context {
        Some(c) => if trim(c).len() > 0 {
            match note_text(trim(c)) {
                Some(n) => "    Note over "@ + note_who(e) + ": "@ + n + seq!['\n'],
                None => Seq::empty(),
            }
        } else {
            Seq::empty()
        },
        None => Seq::empty(),
    }
}

/// The lines of one message: the arrow, and a note with its edge context.
pub open spec fn event_text(e: EventV) -> Seq<char> {
    arrow_text(e) + note_line(e)
}

pub open spec fn participants_text(ps: Seq<Seq<char>>) -> Seq<char>
    decreases ps.len(),
{
    if ps.len() == 0 {
        Seq::empty()
    } else {
        participants_text(ps.drop_last()) + "    participant "@ + ps.last() + seq!['\n']
    }
}

pub open spec fn events_text(es: Seq<EventV>) -> Seq<char>
    decreases es.len(),
{
    if es.len() == 0 {
        Seq::empty()
    } else {
        events_text(es.drop_last()) + event_text(es.last())
    }
}

/// The body of a Mermaid sequence diagram.
pub open spec fn mermaid_body(ps: Seq<Seq<char>>, es: Seq<EventV>) -> Seq<char> {
    "sequenceDiagram\n"@ + participants_text(ps) + events_text(es)
}

/// The text of the `i`-th diagram.
pub open spec fn diagram_text(i: int, d: DiagramV) -> Seq<char> {
    (if i > 0 {
        seq!['\n']
    } else {
        Seq::empty()
    }) + "## "@ + d.name + seq!['\n'] + "```mermaid\n"@ + mermaid_body(d.participants, d.events)
        + "```\n"@
}

pub open spec fn diagrams_text(ds: Seq<DiagramV>) -> Seq<char>
    decreases ds.len(),
{
    if ds.len() == 0 {
        Seq::empty()
    } else {
        diagrams_text(ds.drop_last()) + diagram_text(ds.len() - 1, ds.last())
    }
}

fn inline_text_exec(s: &Vec<char>) -> (r: Vec<char>)
    ensures
        r@ == inline_text(s@),
{
    let nl: Vec<char> = vec!['\n'];
    proof {
        assert(nl@ =~= seq!['\n']);
    }
    v_trim(&replace_exec(s, &nl, &chars_of("<br/>")))
}

fn note_text_exec(s: &Vec<char>) -> (r: Option<Vec<char>>)
    ensures
        match r {
            Some(v) => note_text(s@) == Some(v@),
            None => note_text(s@) is None,
        },
{
    let c = inline_text_exec(s);
    if c.len() == 0 {
        return None;
    }
    let br = chars_of("<br/>");
    proof {
        reveal_strlit("<br/>");
    }
    let empty: Vec<char> = Vec::new();
    proof {
        assert(empty@ =~= Seq::<char>::empty());
    }
    let without = replace_exec(&c, &br, &empty);
    if v_trim(&without).len() == 0 {
        None
    } else {
        Some(c)
    }
}

fn arrow_text_exec(out: &mut Vec<char>, e: &SequenceEvent)
    ensures
        final(out)@ == old(out)@ + arrow_text(e@),
{
    let SequenceEvent::Message { from, to, dashed, text, .. } = e;
    append(out, &chars_of("    "));
    append(out, &chars_of(from.as_str()));
    if *dashed {
        append(out, &chars_of("-->>"));
    } else {
        append(out, &chars_of("->>"));
    }
    append(out, &chars_of(to.as_str()));
    append(out, &chars_of(": "));
    append(out, &inline_text_exec(&chars_of(text.as_str())));
    out.push('\n');
}

fn note_line_exec(out: &mut Vec<char>, e: &SequenceEvent)
    ensures
        final(out)@ == old(out)@ + note_line(e@),
{
    let SequenceEvent::Message { from, to, edge_context, .. } = e;
    match edge_context {
        Some(c) => {
            let ct = v_trim(&chars_of(c.as_str()));
            if ct.len() > 0 {
                match note_text_exec(&ct) {
                    Some(n) => {
                        let f = chars_of(from.as_str());
                        let t = chars_of(to.as_str());
                        append(out, &chars_of("    Note over "));
                        if eq(&f, &t) {
                            append(out, &f);
                        } else {
                            append(out, &f);
                            out.push(',');
                            append(out, &t);
                        }
                        append(out, &chars_of(": "));
                        append(out, &n);
                        out.push('\n');
                    },
                    None => {},
                }
            }
        },
        None => {},
    }
}

fn event_text_exec(out: &mut Vec<char>, e: &SequenceEvent)
    ensures
        final(out)@ == old(out)@ + event_text(e@),
{
    arrow_text_exec(out, e);
    note_line_exec(out, e);
}

/// The body of a Mermaid sequence diagram: its participants, then its
/// messages, each with a note holding its edge context.
pub fn render_mermaid_body(participants: &Vec<String>, events: &Vec<SequenceEvent>) -> (r:
    String)
    ensures
        r@ == mermaid_body(strings_view(participants@), events_view(events@)),
{
    let mut out = chars_of("sequenceDiagram\n");
    let ghost head = out@;
    let mut i: usize = 0;
    while i < participants.len()
        invariant
            i <= participants.len(),
            out@ == head + participants_text(strings_view(participants@).take(i as int)),
        decreases participants.len() - i,
    {
        append(&mut out, &chars_of("    participant "));
        append(&mut out, &chars_of(participants[i].as_str()));
        out.push('\n');
        proof {
            let v = strings_view(participants@).take(i + 1);
            assert(v.drop_last() =~= strings_view(participants@).take(i as int));
        }
        i = i + 1;
    }
    proof {
        assert(strings_view(participants@).take(participants.len() as int) =~= strings_view(
            participants@,
        ));
    }
    let ghost mid = out@;
    let mut j: usize = 0;
    while j < events.len()
        invariant
            j <= events.len(),
            out@ == mid + events_text(events_view(events@).take(j as int)),
        decreases events.len() - j,
    {
        let ghost before = out@;
        event_text_exec(&mut out, &events[j]);
        proof {
            let v = events_view(events@).take(j + 1);
            assert(v.drop_last() =~= events_view(events@).take(j as int));
            assert(out@ =~= mid + events_text(v));
        }
        j = j + 1;
    }
    proof {
        assert(events_view(events@).take(events.len() as int) =~= events_view(events@));
    }
    string_of(&out)
}

/// Writes diagrams in the sequence-gram format.
pub fn render_sequence_gram(diagrams: &Vec<SequenceDiagram>) -> (r: String)
    ensures
        r@ == diagrams_text(diagrams_view(diagrams@)),
{
    let mut out: Vec<char> = Vec::new();
    let mut i: usize = 0;
    while i < diagrams.len()
        invariant
            i <= diagrams.len(),
            out@ == diagrams_text(diagrams_view(diagrams@).take(i as int)),
        decreases diagrams.len() - i,
    {
        let d = &diagrams[i];
        let ghost before = out@;
        if i > 0 {
            out.push('\n');
        }
        append(&mut out, &chars_of("## "));
        append(&mut out, &chars_of(d.name.as_str()));
        out.push('\n');
        append(&mut out, &chars_of("```mermaid\n"));
        append(&mut out, &chars_of(render_mermaid_body(&d.participants, &d.events).as_str()));
        append(&mut out, &chars_of("```\n"));
        proof {
            let v = diagrams_view(diagrams@).take(i + 1);
            assert(v.drop_last() =~= diagrams_view(diagrams@).take(i as int));
            assert(out@ =~= before + diagram_text(i as int, d@));
        }
        i = i + 1;
    }
    proof {
        assert(diagrams_view(diagrams@).take(diagrams.len() as int) =~= diagrams_view(diagrams@));
    }
    string_of(&out)
}

/// The number of a relation id `R<n>`, when it has that form.
pub open spec fn rel_number(id: Seq<char>) -> Option<nat> {
    match strip_prefix(id, seq!['R']) {
        Some(rest) => parse_unsigned(rest, u64::MAX as nat),
        None => None,
    }
}

pub open spec fn max_rel(es: Seq<EventV>) -> nat
    decreases es.len(),
{
    if es.len() == 0 {
        0
    } else {
        let m = max_rel(es.drop_last());
        match rel_number(es.last().rel_id) {
            Some(n) => if n > m {
                n
            } else {
                m
            },
            None => m,
        }
    }
}

/// `R<n+1>` for the largest `n` among the `R<n>` relation ids, stopping
/// at the largest `u64`.
pub open spec fn next_rel_id(es: Seq<EventV>) -> Seq<char> {
    seq!['R'] + dec(if max_rel(es) < u64::MAX {
        max_rel(es) + 1
    } else {
        u64::MAX as nat
    })
}

proof fn lemma_max_rel_bound(es: Seq<EventV>)
    ensures
        max_rel(es) <= u64::MAX,
    decreases es.len(),
{
    if es.len() > 0 {
        lemma_max_rel_bound(es.drop_last());
    }
}

/// A relation id that no message of `diag` uses in the `R<n>` form.
pub fn next_relation_id(diag: &SequenceDiagram) -> (r: String)
    ensures
        r@ == next_rel_id(diag@.events),
{
    let mut max_n: u64 = 0;
    let mut i: usize = 0;
    let r_only: Vec<char> = vec!['R'];
    proof {
        assert(r_only@ =~= seq!['R']);
    }
    while i < diag.events.len()
        invariant
            i <= diag.events.len(),
            r_only@ == seq!['R'],
            max_n == max_rel(events_view(diag.events@).take(i as int)),
        decreases diag.events.len() - i,
    {
        let SequenceEvent::Message { rel_id, .. } = &diag.events[i];
        proof {
            let v = events_view(diag.events@).take(i + 1);
            assert(v.drop_last() =~= events_view(diag.events@).take(i as int));
            assert(v.last() == diag.events@[i as int]@);
        }
        match strip_prefix_exec(&chars_of(rel_id.as_str()), &r_only) {
            Some(rest) => {
                match parse_unsigned_exec(&rest, u64::MAX) {
                    Some(n) => {
                        if n > max_n {
                            max_n = n;
                        }
                    },
                    None => {},
                }
            },
            None => {},
        }
        i = i + 1;
    }
    proof {
        assert(events_view(diag.events@).take(diag.events.len() as int) =~= events_view(
            diag.events@,
        ));
    }
    let next: u64 = if max_n < u64::MAX {
        max_n + 1
    } else {
        u64::MAX
    };
    let mut v = r_only;
    append(&mut v, &fmt_u128(next as u128));
    string_of(&v)
}

// ---------------------------------------------------------------------
// Reading one diagram.

/// Text without surrounding `*` and whitespace.
pub open spec fn unbold(s: Seq<char>) -> Seq<char> {
    trim(trim_ch(s, '*'))
}

/// The line that opens an edge-context block.
pub open spec fn is_ctx_header(ru: Seq<char>) -> bool {
    eq_ignore_case(ru, "edgecontext:"@) || eq_ignore_case(ru, "edgecontext"@) || eq_ignore_case(
        ru,
        "context:"@,
    ) || eq_ignore_case(ru, "context"@)
}

/// A relation id written with optional square brackets.
pub open spec fn bracket_id(s: Seq<char>) -> Seq<char> {
    trim_end_ch(trim_start_ch(trim(s), '['), ']')
}

/// A line holding a bracketed relation id alone.
pub open spec fn is_bare_id(ru: Seq<char>) -> bool {
    has_prefix(ru, "["@) && has_suffix(ru, "]"@) && !contains(ru, "->"@)
}

/// An `id -> text` or `id: text` line, as its two trimmed sides.
pub open spec fn ctx_pair(ru: Seq<char>, rest: Seq<char>) -> Option<(Seq<char>, Seq<char>)> {
    match split_once(ru, "->"@) {
        Some(p) => Some((trim(p.0), trim(p.1))),
        None => match split_once(rest, ":"@) {
            Some(p) => Some((trim(p.0), trim(p.1))),
            None => None,
        },
    }
}

/// A leading `[id]` of a message side: the id, when it is non-blank and
/// has no space, and the trimmed text after the bracket.
pub open spec fn bracket_prefix(s: Seq<char>) -> Option<(Seq<char>, Seq<char>)> {
    match strip_prefix(s, "["@) {
        Some(r) => match split_once(r, "]"@) {
            Some(p) => if trim(p.0).len() > 0 && !contains(trim(p.0), " "@) {
                Some((trim(p.0), trim(p.1)))
            } else {
                None
            },
            None => None,
        },
        None => None,
    }
}

/// The state of a line-by-line read of a diagram body.
pub struct MermaidScan {
    pub participants: Seq<Seq<char>>,
    pub events: Seq<EventV>,
    pub ctx: Assoc,
    pub in_ctx: bool,
    pub cur: Option<Seq<char>>,
    pub last: Option<int>,
}

/// A line inside an edge-context block: the new state, and whether the
/// line is used up.
pub open spec fn mermaid_ctx_line(st: MermaidScan, rest0: Seq<char>) -> (MermaidScan, bool) {
    let rest = trim(trim_start_ch(rest0, '-'));
    let ru = unbold(rest);
    if is_bare_id(ru) && bracket_id(ru).len() > 0 {
        (
            MermaidScan {
                cur: Some(bracket_id(ru)),
                ctx: assoc_touch(st.ctx, bracket_id(ru)),
                ..st
            },
            true,
        )
    } else {
        let st1 = match ctx_pair(ru, rest) {
            Some(p) => {
                let id = bracket_id(p.0);
                let ctx = if id.len() > 0 {
                    if p.1.len() > 0 {
                        assoc_set(st.ctx, id, p.1)
                    } else {
                        assoc_remove(st.ctx, id)
                    }
                } else {
                    st.ctx
                };
                MermaidScan { ctx, cur: None, ..st }
            },
            None => st,
        };
        let st2 = match st1.cur {
            Some(id) => if rest.len() > 0 && !contains(rest, ":"@) && !contains(rest, "->"@) {
                MermaidScan { ctx: assoc_append(st1.ctx, id, rest), ..st1 }
            } else {
                st1
            },
            None => st1,
        };
        (st2, false)
    }
}

/// A character of a plain name: an ASCII letter or digit, or `_`.
pub open spec fn is_name_char(c: char) -> bool {
    ('a' <= c && c <= 'z') || ('A' <= c && c <= 'Z') || ('0' <= c && c <= '9') || c == '_'
}

/// A plain participant name: one or more name characters.
pub open spec fn is_plain_name(s: Seq<char>) -> bool {
    s.len() > 0 && forall|i: int| 0 <= i < s.len() ==> is_name_char(#[trigger] s[i])
}

proof fn lemma_find_first(s: Seq<char>, p: Seq<char>, k: int)
    requires
        occurs_at(s, p, k),
        forall|j: int| 0 <= j < k ==> !occurs_at(s, p, j),
    ensures
        find(s, p) == Some(k),
{
    lemma_find_from_props(s, p, 0);
    if let Some(k2) = find_from(s, p, 0) {
        if k2 < k {
            assert(!occurs_at(s, p, k2));
        }
        if k2 > k {
            assert(!occurs_at(s, p, k));
        }
    }
}

proof fn lemma_plain_name_trimmed(s: Seq<char>)
    requires
        is_plain_name(s),
    ensures
        trim(s) == s,
        !is_ws(s[0]),
        !is_ws(s.last()),
{
    assert(is_name_char(s[0]));
    assert(is_name_char(s[s.len() - 1]));
    assert(lead_ws(s) == 0);
    assert(trim_start(s) =~= s);
    assert(trail_ws(s) == 0);
    assert(trim_end(s) =~= s);
}

/// The text conditions under which a message text is read back as is.
pub open spec fn is_plain_text(t: Seq<char>) -> bool {
    &&& t.len() > 0
    &&& !is_ws(t[0])
    &&& !is_ws(t.last())
    &&& t[0] != '['
    &&& t.last() != '*'
    &&& !contains(t, "-->>"@)
}

proof fn lemma_no_dashed_arrow(a: Seq<char>, b: Seq<char>, t: Seq<char>)
    requires
        is_plain_name(a),
        is_plain_name(b),
        !contains(t, "-->>"@),
    ensures
        !contains(a + "->>"@ + b + ": "@ + t, "-->>"@),
{
    reveal_strlit("->>");
    reveal_strlit("-->>");
    reveal_strlit(": ");
    let l = a + "->>"@ + b + ": "@ + t;
    let na = a.len() as int;
    let nb = b.len() as int;
    let dd = "-->>"@;
    lemma_find_from_props(t, dd, 0);
    assert forall|j: int| 0 <= j implies !occurs_at(l, dd, j) by {
        if occurs_at(l, dd, j) {
            let w = l.subrange(j, j + 4);
            assert(w[0] == '-' && w[1] == '-');
            assert(l[j] == '-' && l[j + 1] == '-');
            if j < na {
                assert(l[j] == a[j]);
                assert(is_name_char(a[j]));
            } else if j < na + 3 {
                assert(l[j + 1] != '-');
            } else if j < na + 3 + nb {
                assert(l[j] == b[j - na - 3]);
                assert(is_name_char(b[j - na - 3]));
            } else if j < na + 5 + nb {
                assert(l[j] != '-');
            } else {
                let k = j - (na + 5 + nb);
                assert(t.subrange(k, k + 4) =~= w);
                assert(occurs_at(t, dd, k));
            }
        }
    }
    lemma_find_from_props(l, dd, 0);
}

proof fn lemma_arrow_split(a: Seq<char>, b: Seq<char>, t: Seq<char>)
    requires
        is_plain_name(a),
        is_plain_name(b),
        is_plain_text(t),
    ensures
        contains(a + "->>"@ + b + ": "@ + t, "->>"@),
        split_once(a + "->>"@ + b + ": "@ + t, "->>"@) == Some((a, b + ": "@ + t)),
        split_once(b + ": "@ + t, ":"@) == Some((b, seq![' '] + t)),
        trim(seq![' '] + t) == t,
{
    reveal_strlit("->>");
    reveal_strlit(": ");
    reveal_strlit(":");
    let l = a + "->>"@ + b + ": "@ + t;
    let na = a.len() as int;
    let nb = b.len() as int;
    let arrow = "->>"@;
    assert(occurs_at(l, arrow, na)) by {
        assert(l.subrange(na, na + 3) =~= arrow);
    }
    assert forall|j: int| 0 <= j < na implies !occurs_at(l, arrow, j) by {
        if occurs_at(l, arrow, j) {
            assert(l.subrange(j, j + 3)[0] == arrow[0]);
            assert(l[j] == a[j]);
            assert(is_name_char(a[j]));
        }
    }
    lemma_find_first(l, arrow, na);
    assert(l.take(na) =~= a);
    let rest = b + ": "@ + t;
    assert(l.skip(na + 3) =~= rest);
    let colon = ":"@;
    assert(occurs_at(rest, colon, nb)) by {
        assert(rest.subrange(nb, nb + 1) =~= colon);
    }
    assert forall|j: int| 0 <= j < nb implies !occurs_at(rest, colon, j) by {
        if occurs_at(rest, colon, j) {
            assert(rest.subrange(j, j + 1)[0] == colon[0]);
            assert(rest[j] == b[j]);
            assert(is_name_char(b[j]));
        }
    }
    lemma_find_first(rest, colon, nb);
    assert(rest.take(nb) =~= b);
    let tail = seq![' '] + t;
    assert(rest.skip(nb + 1) =~= tail);
    assert(tail.drop_first() =~= t);
    assert(lead_ws(t) == 0);
    assert(lead_ws(tail) == 1);
    assert(trim_start(tail) =~= t);
    assert(trail_ws(t) == 0);
    assert(trim_end(t) =~= t);
}

proof fn lemma_message_read(st: MermaidScan, a: Seq<char>, b: Seq<char>, t: Seq<char>)
    requires
        is_plain_name(a),
        is_plain_name(b),
        is_plain_text(t),
    ensures
        mermaid_message(st, a + "->>"@ + b + ": "@ + t) == (MermaidScan {
            participants: add_participant(add_participant(st.participants, a), b),
            events: st.events.push(
                EventV {
                    from: a,
                    to: b,
                    dashed: false,
                    rel_id: seq!['R'] + dec(st.events.len() + 1),
                    text: t,
                    edge_context: None,
                },
            ),
            last: Some(st.events.len() as int),
            ..st
        }),
{
    reveal_strlit("[");
    lemma_no_dashed_arrow(a, b, t);
    lemma_arrow_split(a, b, t);
    lemma_plain_name_trimmed(a);
    lemma_plain_name_trimmed(b);
    assert(is_name_char(a[0]));
    assert(strip_prefix(a, "["@) is None) by {
        if has_prefix(a, "["@) {
            assert(a.take(1)[0] == "["@[0]);
        }
    }
    assert(strip_prefix(t, "["@) is None) by {
        if has_prefix(t, "["@) {
            assert(t.take(1)[0] == "["@[0]);
        }
    }
}

proof fn lemma_indented_trim(l: Seq<char>)
    requires
        l.len() > 0,
        !is_ws(l[0]),
        !is_ws(l.last()),
    ensures
        trim("    "@ + l) == l,
        trim(l) == l,
{
    reveal_strlit("    ");
    let line = "    "@ + l;
    reveal_with_fuel(lead_ws, 6);
    assert(line.skip(4) =~= l);
    assert(lead_ws(l) == 0);
    assert(line.skip(3).drop_first() =~= line.skip(4));
    assert(line.skip(2).drop_first() =~= line.skip(3));
    assert(line.skip(1).drop_first() =~= line.skip(2));
    assert(line.drop_first() =~= line.skip(1));
    assert(lead_ws(line) == 4);
    assert(trim_start(line) =~= l);
    assert(trail_ws(l) == 0);
    assert(trim_end(l) =~= l);
    assert(trim_start(l) =~= l);
}

proof fn lemma_plain_line_step(st: MermaidScan, line: Seq<char>, l: Seq<char>)
    requires
        !st.in_ctx,
        trim(line) == l,
        trim(l) == l,
        l.len() > 0,
        l[0] != '`' && l[0] != '%' && l[0] != '*',
        l.last() != '*',
        !has_prefix(l, "sequenceDiagram"@),
        !is_ctx_header(l),
        !has_prefix(l, "Note over "@),
        !has_prefix(l, "participant "@),
    ensures
        mermaid_step(st, line) == mermaid_message(st, l),
{
    reveal_strlit("```");
    reveal_strlit("%%");
    assert(!has_prefix(l, "```"@)) by {
        if has_prefix(l, "```"@) {
            assert(l.take(3)[0] == "```"@[0]);
        }
    }
    assert(strip_prefix(l, "%%"@) is None) by {
        if has_prefix(l, "%%"@) {
            assert(l.take(2)[0] == "%%"@[0]);
        }
    }
    assert(lead_ch(l, '*') == 0);
    assert(trail_ch(l, '*') == 0);
    assert(trim_ch(l, '*') =~= l);
    assert(unbold(l) == l);
    assert(mermaid_plain(st, l) == mermaid_message(st, l));
}

/// A message line as the writer puts it, `    from->>to: text`, is read
/// back as that message: from `from` to `to`, not dashed, with that text,
/// no edge context and the next relation id; both participants are
/// recorded. This holds outside an edge-context block, for plain names
/// and a trimmed text that does not open with `[` nor end with `*` and
/// has no `-->>`, on a line that is no note, participant, keyword or
/// header line.
pub proof fn lemma_message_line_read(st: MermaidScan, e: EventV)
    requires
        !st.in_ctx,
        !e.dashed,
        is_plain_name(e.from),
        is_plain_name(e.to),
        is_plain_text(inline_text(e.text)),
        ({
            let l = e.from + "->>"@ + e.to + ": "@ + inline_text(e.text);
            &&& !has_prefix(l, "Note over "@)
            &&& !has_prefix(l, "participant "@)
            &&& !has_prefix(l, "sequenceDiagram"@)
            &&& !is_ctx_header(l)
        }),
    ensures
        arrow_text(e) == "    "@ + e.from + "->>"@ + e.to + ": "@ + inline_text(e.text) + seq!['\n'],
        mermaid_step(st, "    "@ + e.from + "->>"@ + e.to + ": "@ + inline_text(e.text)) == (
        MermaidScan {
            participants: add_participant(add_participant(st.participants, e.from), e.to),
            events: st.events.push(
                EventV {
                    from: e.from,
                    to: e.to,
                    dashed: false,
                    rel_id: seq!['R'] + dec(st.events.len() + 1),
                    text: inline_text(e.text),
                    edge_context: None,
                },
            ),
            last: Some(st.events.len() as int),
            ..st
        }),
{
    let a = e.from;
    let t = inline_text(e.text);
    let l = a + "->>"@ + e.to + ": "@ + t;
    assert(("    "@ + a + "->>"@ + e.to + ": "@ + t) =~= "    "@ + l);
    lemma_plain_name_trimmed(a);
    assert(is_name_char(a[0]));
    assert(l[0] == a[0]);
    assert(l.last() == t.last());
    lemma_indented_trim(l);
    lemma_plain_line_step(st, "    "@ + l, l);
    lemma_message_read(st, a, e.to, t);
}

/// Whether a note over `who` belongs to message `e`.
pub open spec fn note_matches(who: Seq<char>, e: EventV) -> bool {
    if e.from == e.to {
        who == e.from
    } else {
        who == e.from + seq![','] + e.to || who == e.to + seq![','] + e.from
    }
}

/// `ps` with `p` added unless already there.
pub open spec fn add_participant(ps: Seq<Seq<char>>, p: Seq<char>) -> Seq<Seq<char>> {
    if ps.contains(p) {
        ps
    } else {
        ps.push(p)
    }
}

/// A `Note over who: text` line: the text becomes the edge context of
/// the last message when it is over that message's participants.
pub open spec fn mermaid_note(st: MermaidScan, who0: Seq<char>, text0: Seq<char>) -> MermaidScan {
    let who = trim(who0);
    let text = trim(text0);
    match st.last {
        Some(idx) => {
            let normalized = trim(replace(text, "<br/>"@, seq!['\n']));
            if normalized.len() > 0 && 0 <= idx < st.events.len() && note_matches(
                who,
                st.events[idx],
            ) {
                MermaidScan {
                    events: st.events.update(
                        idx,
                        EventV { edge_context: Some(normalized), ..st.events[idx] },
                    ),
                    ..st
                }
            } else {
                st
            }
        },
        None => st,
    }
}

/// A message line `from->>to: text` (or `-->>` for dashed), with an
/// optional `[id]` before `from` or before the text.
pub open spec fn mermaid_message(st: MermaidScan, l: Seq<char>) -> MermaidScan {
    let dashed = contains(l, "-->>"@);
    let sep = if dashed {
        "-->>"@
    } else {
        "->>"@
    };
    if !dashed && !contains(l, "->>"@) {
        st
    } else {
        match split_once(l, sep) {
            None => st,
            Some(sides) => {
                let lhs0 = trim(sides.0);
                let (rel_l, lhs1) = match bracket_prefix(lhs0) {
                    Some(p) => (Some(p.0), p.1),
                    None => (None, lhs0),
                };
                let from = trim(lhs1);
                match split_once(sides.1, ":"@) {
                    None => st,
                    Some(tt) => {
                        let to = trim(tt.0);
                        let text1 = trim(tt.1);
                        let (rel_t, text) = match bracket_prefix(text1) {
                            Some(p) => (Some(p.0), p.1),
                            None => (None, text1),
                        };
                        if from.len() == 0 || to.len() == 0 || text.len() == 0 {
                            st
                        } else {
                            let rel = match rel_t {
                                Some(r) => r,
                                None => match rel_l {
                                    Some(r) => r,
                                    None => seq!['R'] + dec(st.events.len() + 1),
                                },
                            };
                            MermaidScan {
                                participants: add_participant(
                                    add_participant(st.participants, from),
                                    to,
                                ),
                                events: st.events.push(
                                    EventV {
                                        from,
                                        to,
                                        dashed,
                                        rel_id: rel,
                                        text,
                                        edge_context: None,
                                    },
                                ),
                                last: Some(st.events.len() as int),
                                ..st
                            }
                        }
                    },
                }
            },
        }
    }
}

/// A line that is not part of an edge-context block: a note, a
/// participant or a message; anything else is skipped.
pub open spec fn mermaid_plain(st: MermaidScan, l: Seq<char>) -> MermaidScan {
    let note = match strip_prefix(l, "Note over "@) {
        Some(r) => split_once(r, ":"@),
        None => None,
    };
    if let Some(p) = note {
        mermaid_note(st, p.0, p.1)
    } else if let Some(r) = strip_prefix(l, "participant "@) {
        let pname = trim(r);
        if pname.len() > 0 {
            MermaidScan { participants: add_participant(st.participants, pname), ..st }
        } else {
            st
        }
    } else {
        mermaid_message(st, l)
    }
}

/// One line of a diagram body.
pub open spec fn mermaid_step(st: MermaidScan, line: Seq<char>) -> MermaidScan {
    let l = trim(line);
    if l.len() == 0 || has_prefix(l, "```"@) || has_prefix(l, "sequenceDiagram"@) {
        st
    } else {
        let (is_comment, rest) = match strip_prefix(l, "%%"@) {
            Some(r) => (true, trim(r)),
            None => (false, l),
        };
        if is_ctx_header(unbold(rest)) {
            MermaidScan { in_ctx: true, cur: None, ..st }
        } else if st.in_ctx {
            let (st2, used) = mermaid_ctx_line(st, rest);
            if used || is_comment {
                st2
            } else {
                mermaid_plain(st2, l)
            }
        } else {
            mermaid_plain(st, l)
        }
    }
}

pub open spec fn mermaid_init() -> MermaidScan {
    MermaidScan {
        participants: Seq::empty(),
        events: Seq::empty(),
        ctx: Seq::empty(),
        in_ctx: false,
        cur: None,
        last: None,
    }
}

pub open spec fn mermaid_scan(ls: Seq<Seq<char>>) -> MermaidScan
    decreases ls.len(),
{
    if ls.len() == 0 {
        mermaid_init()
    } else {
        mermaid_step(mermaid_scan(ls.drop_last()), ls.last())
    }
}

/// The diagram a Mermaid body describes; edge context gathered in the
/// body goes to the messages with the matching relation ids.
pub open spec fn parse_mermaid(name: Seq<char>, body: Seq<char>) -> DiagramV {
    let st = mermaid_scan(lines(body));
    DiagramV {
        name,
        participants: st.participants,
        events: st.events.map_values(|e: EventV| attach_one(e, st.ctx)),
    }
}

/// A line of edge-context text: non-blank, without surrounding
/// whitespace, not a block header, a comment, a fence, a relation-id
/// marker or a bulleted or bold line, and holding neither `:` nor `->`,
/// so that it is neither an `id: text` nor an `id -> text` record.
pub open spec fn is_ctx_text(l: Seq<char>) -> bool {
    &&& l.len() > 0
    &&& !is_ws(l[0])
    &&& !is_ws(l.last())
    &&& l[0] != '-' && l[0] != '[' && l[0] != '*' && l[0] != '%' && l[0] != '`'
    &&& l.last() != '*'
    &&& !contains(l, ":"@)
    &&& !contains(l, "->"@)
    &&& !has_prefix(l, "sequenceDiagram"@)
    &&& !is_ctx_header(l)
}

/// Recording `v` for `k` makes `v` what is read back for `k`, and leaves
/// what is read for every other id as it was.
pub proof fn lemma_assoc_get_set(a: Assoc, k: Seq<char>, v: Seq<char>, other: Seq<char>)
    ensures
        assoc_get(assoc_set(a, k, v), k) == Some(v),
        other != k ==> assoc_get(assoc_set(a, k, v), other) == assoc_get(a, other),
    decreases a.len(),
{
    if a.len() == 0 {
        let e = Seq::<(Seq<char>, Seq<char>)>::empty();
        assert(seq![(k, v)].drop_first() =~= e);
        assert(assoc_get(e, other) is None);
    } else if a[0].0 == k {
        let r = seq![(k, v)] + a.drop_first();
        assert(r[0] == (k, v));
        assert(r.drop_first() =~= a.drop_first());
    } else {
        lemma_assoc_get_set(a.drop_first(), k, v, other);
        let r = seq![a[0]] + assoc_set(a.drop_first(), k, v);
        assert(r[0] == a[0]);
        assert(r.drop_first() =~= assoc_set(a.drop_first(), k, v));
    }
}

/// Removing the record for `k` leaves nothing to read for `k`, and leaves
/// what is read for every other id as it was.
pub proof fn lemma_assoc_get_remove(a: Assoc, k: Seq<char>, other: Seq<char>)
    ensures
        assoc_get(assoc_remove(a, k), k) is None,
        other != k ==> assoc_get(assoc_remove(a, k), other) == assoc_get(a, other),
    decreases a.len(),
{
    if a.len() > 0 {
        lemma_assoc_get_remove(a.drop_first(), k, other);
        if a[0].0 != k {
            let r = seq![a[0]] + assoc_remove(a.drop_first(), k);
            assert(r[0] == a[0]);
            assert(r.drop_first() =~= assoc_remove(a.drop_first(), k));
        }
    }
}

/// Adding a line of text for `k` keeps what was there: the record becomes
/// the old text, a newline and the new line, or the new line alone when
/// there was no text yet; the records of other ids are unchanged.
pub proof fn lemma_assoc_get_append(a: Assoc, k: Seq<char>, txt: Seq<char>, other: Seq<char>)
    ensures
        assoc_get(assoc_append(a, k, txt), k) == Some(
            match assoc_get(a, k) {
                Some(cur) => if cur.len() > 0 {
                    cur + seq!['\n'] + txt
                } else {
                    txt
                },
                None => txt,
            },
        ),
        other != k ==> assoc_get(assoc_append(a, k, txt), other) == assoc_get(a, other),
{
    match assoc_get(a, k) {
        Some(cur) => {
            lemma_assoc_get_set(
                a,
                k,
                if cur.len() > 0 {
                    cur + seq!['\n'] + txt
                } else {
                    txt
                },
                other,
            );
        },
        None => {
            lemma_assoc_get_set(a, k, txt, other);
        },
    }
}

proof fn lemma_plain_keeps_ctx(st: MermaidScan, l: Seq<char>)
    ensures
        mermaid_plain(st, l).ctx == st.ctx,
        mermaid_plain(st, l).in_ctx == st.in_ctx,
        mermaid_plain(st, l).cur == st.cur,
{
}

proof fn lemma_ctx_text_step(st: MermaidScan, l: Seq<char>, id: Seq<char>)
    requires
        st.in_ctx,
        st.cur == Some(id),
        is_ctx_text(l),
    ensures
        mermaid_step(st, l).in_ctx,
        mermaid_step(st, l).cur == Some(id),
        mermaid_step(st, l).ctx == assoc_append(st.ctx, id, l),
{
    reveal_strlit("```");
    reveal_strlit("%%");
    reveal_strlit("[");
    assert(lead_ws(l) == 0);
    assert(trim_start(l) =~= l);
    assert(trail_ws(l) == 0);
    assert(trim(l) =~= l);
    assert(lead_ch(l, '*') == 0);
    assert(trail_ch(l, '*') == 0);
    assert(trim_ch(l, '*') =~= l);
    assert(unbold(l) == l);
    assert(lead_ch(l, '-') == 0);
    assert(trim_start_ch(l, '-') =~= l);
    assert(!has_prefix(l, "```"@)) by {
        if has_prefix(l, "```"@) {
            assert(l.take(3)[0] == "```"@[0]);
        }
    }
    assert(strip_prefix(l, "%%"@) is None) by {
        if has_prefix(l, "%%"@) {
            assert(l.take(2)[0] == "%%"@[0]);
        }
    }
    assert(!is_bare_id(l)) by {
        if has_prefix(l, "["@) {
            assert(l.take(1)[0] == "["@[0]);
        }
    }
    assert(ctx_pair(l, l) is None);
    let st2 = MermaidScan { ctx: assoc_append(st.ctx, id, l), ..st };
    assert(mermaid_ctx_line(st, l) == (st2, false));
    lemma_plain_keeps_ctx(st2, l);
}

/// Joined lines end with the last one.
proof fn lemma_join_len(ps: Seq<Seq<char>>, sep: Seq<char>)
    requires
        ps.len() > 0,
    ensures
        join(ps, sep).len() >= ps.last().len(),
{
}

proof fn lemma_ctx_text_run(pre: Seq<Seq<char>>, ls: Seq<Seq<char>>, id: Seq<char>)
    requires
        mermaid_scan(pre).in_ctx,
        mermaid_scan(pre).cur == Some(id),
        assoc_get(mermaid_scan(pre).ctx, id) == Some(Seq::<char>::empty()),
        ls.len() > 0,
        forall|i: int| 0 <= i < ls.len() ==> is_ctx_text(#[trigger] ls[i]),
    ensures
        mermaid_scan(pre + ls).in_ctx,
        mermaid_scan(pre + ls).cur == Some(id),
        assoc_get(mermaid_scan(pre + ls).ctx, id) == Some(join(ls, seq!['\n'])),
    decreases ls.len(),
{
    let all = pre + ls;
    assert(all.len() > 0);
    assert(all.last() == ls.last());
    assert(is_ctx_text(ls[ls.len() - 1]));
    if ls.len() == 1 {
        assert(all.drop_last() =~= pre);
        let st = mermaid_scan(pre);
        lemma_ctx_text_step(st, ls[0], id);
        lemma_assoc_get_append(st.ctx, id, ls[0], id);
    } else {
        let front = ls.drop_last();
        assert(all.drop_last() =~= pre + front);
        assert forall|i: int| 0 <= i < front.len() implies is_ctx_text(#[trigger] front[i]) by {
            assert(front[i] == ls[i]);
        }
        lemma_ctx_text_run(pre, front, id);
        let st = mermaid_scan(pre + front);
        lemma_ctx_text_step(st, ls.last(), id);
        lemma_join_len(front, seq!['\n']);
        assert(front.last() == ls[ls.len() - 2]);
        assert(is_ctx_text(ls[ls.len() - 2]));
        lemma_assoc_get_append(st.ctx, id, ls.last(), id);
    }
}

/// In an edge-context block, once a line `[id]` has opened a fresh record
/// for `id`, every plain text line that follows is kept, in order: the
/// edge context of each message of the diagram with relation id `id` is
/// those lines joined by newlines.
pub proof fn lemma_ctx_lines_joined(
    name: Seq<char>,
    body: Seq<char>,
    pre: Seq<Seq<char>>,
    ls: Seq<Seq<char>>,
    id: Seq<char>,
)
    requires
        lines(body) == pre + ls,
        mermaid_scan(pre).in_ctx,
        mermaid_scan(pre).cur == Some(id),
        assoc_get(mermaid_scan(pre).ctx, id) == Some(Seq::<char>::empty()),
        ls.len() > 0,
        forall|i: int| 0 <= i < ls.len() ==> is_ctx_text(#[trigger] ls[i]),
    ensures
        forall|i: int|
            0 <= i < parse_mermaid(name, body).events.len() && (#[trigger] parse_mermaid(
                name,
                body,
            ).events[i]).rel_id == id ==> parse_mermaid(name, body).events[i].edge_context == Some(
                join(ls, seq!['\n']),
            ),
{
    lemma_ctx_text_run(pre, ls, id);
}

struct MState {
    participants: Vec<String>,
    events: Vec<SequenceEvent>,
    ctx: EdgeContexts,
    in_ctx: bool,
    cur: Option<Vec<char>>,
    last: Option<usize>,
}

pub open spec fn chars_opt(o: Option<Vec<char>>) -> Option<Seq<char>> {
    match o {
        Some(v) => Some(v@),
        None => None,
    }
}

impl MState {
    spec fn view(&self) -> MermaidScan {
        MermaidScan {
            participants: strings_view(self.participants@),
            events: events_view(self.events@),
            ctx: self.ctx@,
            in_ctx: self.in_ctx,
            cur: chars_opt(self.cur),
            last: match self.last {
                Some(i) => Some(i as int),
                None => None,
            },
        }
    }
}

fn unbold_exec(s: &Vec<char>) -> (r: Vec<char>)
    ensures
        r@ == unbold(s@),
{
    v_trim(&v_trim_ch(s, '*'))
}

fn is_ctx_header_exec(ru: &Vec<char>) -> (r: bool)
    ensures
        r == is_ctx_header(ru@),
{
    eq_ignore_case_exec(ru, &chars_of("edgecontext:")) || eq_ignore_case_exec(
        ru,
        &chars_of("edgecontext"),
    ) || eq_ignore_case_exec(ru, &chars_of("context:")) || eq_ignore_case_exec(
        ru,
        &chars_of("context"),
    )
}

fn bracket_id_exec(s: &Vec<char>) -> (r: Vec<char>)
    ensures
        r@ == bracket_id(s@),
{
    v_trim_end_ch(&v_trim_start_ch(&v_trim(s), '['), ']')
}

fn is_bare_id_exec(ru: &Vec<char>) -> (r: bool)
    ensures
        r == is_bare_id(ru@),
{
    starts_with(ru, &chars_of("[")) && ends_with(ru, &chars_of("]")) && !contains_exec(
        ru,
        &chars_of("->"),
    )
}

fn ctx_pair_exec(ru: &Vec<char>, rest: &Vec<char>) -> (r: Option<(Vec<char>, Vec<char>)>)
    ensures
        match r {
            Some(p) => ctx_pair(ru@, rest@) == Some((p.0@, p.1@)),
            None => ctx_pair(ru@, rest@) is None,
        },
{
    match split_once_exec(ru, &chars_of("->")) {
        Some(p) => Some((v_trim(&p.0), v_trim(&p.1))),
        None => match split_once_exec(rest, &chars_of(":")) {
            Some(p) => Some((v_trim(&p.0), v_trim(&p.1))),
            None => None,
        },
    }
}

fn bracket_prefix_exec(s: &Vec<char>) -> (r: Option<(Vec<char>, Vec<char>)>)
    ensures
        match r {
            Some(p) => bracket_prefix(s@) == Some((p.0@, p.1@)),
            None => bracket_prefix(s@) is None,
        },
{
    match strip_prefix_exec(s, &chars_of("[")) {
        Some(r) => match split_once_exec(&r, &chars_of("]")) {
            Some(p) => {
                let id = v_trim(&p.0);
                if id.len() > 0 && !contains_exec(&id, &chars_of(" ")) {
                    Some((id, v_trim(&p.1)))
                } else {
                    None
                }
            },
            None => None,
        },
        None => None,
    }
}

fn contains_string(ps: &Vec<String>, p: &Vec<char>) -> (r: bool)
    ensures
        r == strings_view(ps@).contains(p@),
{
    let mut i: usize = 0;
    while i < ps.len()
        invariant
            i <= ps.len(),
            forall|j: int| 0 <= j < i ==> ps@[j]@ != p@,
        decreases ps.len() - i,
    {
        if eq(&chars_of(ps[i].as_str()), p) {
            proof {
                assert(strings_view(ps@)[i as int] == p@);
            }
            return true;
        }
        i = i + 1;
    }
    proof {
        if strings_view(ps@).contains(p@) {
            let j = choose|j: int| 0 <= j < strings_view(ps@).len() && strings_view(ps@)[j] == p@;
            assert(ps@[j]@ == p@);
        }
    }
    false
}

fn add_participant_exec(ps: &mut Vec<String>, p: &Vec<char>)
    ensures
        strings_view(final(ps)@) == add_participant(strings_view(old(ps)@), p@),
{
    if !contains_string(ps, p) {
        let ghost a = ps@;
        ps.push(string_of(p));
        proof {
            assert(strings_view(ps@) =~= strings_view(a).push(p@));
        }
    }
}

fn ctx_line_exec(st: &mut MState, rest0: &Vec<char>) -> (used: bool)
    ensures
        (final(st).view(), used) == mermaid_ctx_line(old(st).view(), rest0@),
        final(st).participants == old(st).participants,
        final(st).events == old(st).events,
        final(st).last == old(st).last,
        final(st).in_ctx == old(st).in_ctx,
{
    let rest = v_trim(&v_trim_start_ch(rest0, '-'));
    let ru = unbold_exec(&rest);
    if is_bare_id_exec(&ru) {
        let id = bracket_id_exec(&ru);
        if id.len() > 0 {
            st.ctx.touch(&id);
            st.cur = Some(id);
            return true;
        }
    }
    match ctx_pair_exec(&ru, &rest) {
        Some(p) => {
            let id = bracket_id_exec(&p.0);
            if id.len() > 0 {
                if p.1.len() > 0 {
                    st.ctx.set(&id, &p.1);
                } else {
                    st.ctx.remove(&id);
                }
            }
            st.cur = None;
        },
        None => {},
    }
    match &st.cur {
        Some(id) => {
            if rest.len() > 0 && !contains_exec(&rest, &chars_of(":")) && !contains_exec(
                &rest,
                &chars_of("->"),
            ) {
                let idc = copy_chars(id);
                st.ctx.append_line(&idc, &rest);
            }
        },
        None => {},
    }
    false
}

fn clone_event(e: &SequenceEvent) -> (r: SequenceEvent)
    ensures
        r@ == e@,
{
    let SequenceEvent::Message { from, to, dashed, rel_id, text, edge_context } = e;
    SequenceEvent::Message {
        from: from.clone(),
        to: to.clone(),
        dashed: *dashed,
        rel_id: rel_id.clone(),
        text: text.clone(),
        edge_context: clone_opt(edge_context),
    }
}

fn note_matches_exec(who: &Vec<char>, e: &SequenceEvent) -> (r: bool)
    ensures
        r == note_matches(who@, e@),
{
    let SequenceEvent::Message { from, to, .. } = e;
    let f = chars_of(from.as_str());
    let t = chars_of(to.as_str());
    if eq(&f, &t) {
        eq(who, &f)
    } else {
        let mut a = f.clone();
        a.push(',');
        append(&mut a, &t);
        let mut b = t.clone();
        b.push(',');
        append(&mut b, &f);
        proof {
            assert(a@ =~= f@ + seq![','] + t@);
            assert(b@ =~= t@ + seq![','] + f@);
        }
        eq(who, &a) || eq(who, &b)
    }
}

fn note_exec(st: &mut MState, who0: &Vec<char>, text0: &Vec<char>)
    ensures
        final(st).view() == mermaid_note(old(st).view(), who0@, text0@),
{
    let who = v_trim(who0);
    let text = v_trim(text0);
    match st.last {
        Some(idx) => {
            let nl: Vec<char> = vec!['\n'];
            let br = chars_of("<br/>");
            proof {
                reveal_strlit("<br/>");
                assert(nl@ =~= seq!['\n']);
            }
            let normalized = v_trim(&replace_exec(&text, &br, &nl));
            if normalized.len() > 0 && idx < st.events.len() && note_matches_exec(
                &who,
                &st.events[idx],
            ) {
                let SequenceEvent::Message { from, to, dashed, rel_id, text, .. } =
                    &st.events[idx];
                let ne = SequenceEvent::Message {
                    from: from.clone(),
                    to: to.clone(),
                    dashed: *dashed,
                    rel_id: rel_id.clone(),
                    text: text.clone(),
                    edge_context: Some(string_of(&normalized)),
                };
                let ghost a = st.events@;
                st.events.set(idx, ne);
                proof {
                    assert(events_view(st.events@) =~= events_view(a).update(
                        idx as int,
                        EventV { edge_context: Some(normalized@), ..events_view(a)[idx as int] },
                    ));
                }
            }
        },
        None => {},
    }
}

fn message_exec(st: &mut MState, l: &Vec<char>)
    ensures
        final(st).view() == mermaid_message(old(st).view(), l@),
{
    let dashed = contains_exec(l, &chars_of("-->>"));
    let sep = if dashed {
        chars_of("-->>")
    } else {
        chars_of("->>")
    };
    if !dashed && !contains_exec(l, &chars_of("->>")) {
        return;
    }
    let sides = match split_once_exec(l, &sep) {
        Some(p) => p,
        None => {
            return;
        },
    };
    let lhs0 = v_trim(&sides.0);
    let (rel_l, lhs1) = match bracket_prefix_exec(&lhs0) {
        Some(p) => (Some(p.0), p.1),
        None => (None, lhs0),
    };
    let from = v_trim(&lhs1);
    let tt = match split_once_exec(&sides.1, &chars_of(":")) {
        Some(p) => p,
        None => {
            return;
        },
    };
    let to = v_trim(&tt.0);
    let text1 = v_trim(&tt.1);
    let (rel_t, text) = match bracket_prefix_exec(&text1) {
        Some(p) => (Some(p.0), p.1),
        None => (None, text1),
    };
    if from.len() == 0 || to.len() == 0 || text.len() == 0 {
        return;
    }
    let n = st.events.len();
    let rel = match rel_t {
        Some(r) => r,
        None => match rel_l {
            Some(r) => r,
            None => {
                let mut v: Vec<char> = vec!['R'];
                append(&mut v, &fmt_u128(n as u128 + 1));
                proof {
                    assert(v@ =~= seq!['R'] + dec(n as nat + 1));
                }
                v
            },
        },
    };
    add_participant_exec(&mut st.participants, &from);
    add_participant_exec(&mut st.participants, &to);
    let e = SequenceEvent::Message {
        from: string_of(&from),
        to: string_of(&to),
        dashed,
        rel_id: string_of(&rel),
        text: string_of(&text),
        edge_context: None,
    };
    let ghost a = st.events@;
    st.events.push(e);
    proof {
        assert(events_view(st.events@) =~= events_view(a).push(e@));
    }
    st.last = Some(n);
}

fn plain_exec(st: &mut MState, l: &Vec<char>)
    ensures
        final(st).view() == mermaid_plain(old(st).view(), l@),
{
    let note = match strip_prefix_exec(l, &chars_of("Note over ")) {
        Some(r) => split_once_exec(&r, &chars_of(":")),
        None => None,
    };
    match note {
        Some(p) => {
            note_exec(st, &p.0, &p.1);
            return;
        },
        None => {},
    }
    match strip_prefix_exec(l, &chars_of("participant ")) {
        Some(r) => {
            let pname = v_trim(&r);
            if pname.len() > 0 {
                add_participant_exec(&mut st.participants, &pname);
            }
            return;
        },
        None => {},
    }
    message_exec(st, l);
}

fn mermaid_step_exec(st: &mut MState, line: &Vec<char>)
    ensures
        final(st).view() == mermaid_step(old(st).view(), line@),
{
    let l = v_trim(line);
    if l.len() == 0 || starts_with(&l, &chars_of("```")) || starts_with(
        &l,
        &chars_of("sequenceDiagram"),
    ) {
        return;
    }
    let (is_comment, rest) = match strip_prefix_exec(&l, &chars_of("%%")) {
        Some(r) => (true, v_trim(&r)),
        None => (false, l.clone()),
    };
    if is_ctx_header_exec(&unbold_exec(&rest)) {
        st.in_ctx = true;
        st.cur = None;
        return;
    }
    if st.in_ctx {
        let used = ctx_line_exec(st, &rest);
        if used || is_comment {
            return;
        }
    }
    plain_exec(st, &l);
}

/// Reads one Mermaid sequence diagram body: participants, messages with
/// their relation ids, notes, and edge-context blocks.
pub fn parse_mermaid_diagram(name: &str, body: &str) -> (r: SequenceDiagram)
    ensures
        r@ == parse_mermaid(name@, body@),
{
    let b = chars_of(body);
    let ls = lines_exec(&b);
    let mut st = MState {
        participants: Vec::new(),
        events: Vec::new(),
        ctx: EdgeContexts::new(),
        in_ctx: false,
        cur: None,
        last: None,
    };
    proof {
        assert(st.view().participants =~= Seq::<Seq<char>>::empty());
        assert(st.view().events =~= Seq::<EventV>::empty());
        assert(views(ls@).take(0) =~= Seq::<Seq<char>>::empty());
    }
    let mut i: usize = 0;
    while i < ls.len()
        invariant
            i <= ls.len(),
            views(ls@) == lines(b@),
            st.view() == mermaid_scan(views(ls@).take(i as int)),
        decreases ls.len() - i,
    {
        proof {
            assert(views(ls@).take(i + 1).drop_last() =~= views(ls@).take(i as int));
        }
        mermaid_step_exec(&mut st, &ls[i]);
        i = i + 1;
    }
    proof {
        assert(views(ls@).take(ls.len() as int) =~= views(ls@));
    }
    let mut d = SequenceDiagram {
        name: name.to_string(),
        participants: st.participants,
        events: st.events,
    };
    attach_edge_contexts(&mut d, &st.ctx);
    d
}

// ---------------------------------------------------------------------
// Reading a list of diagrams.

/// A diagram with neither participants nor messages.
pub open spec fn is_empty_diagram(d: DiagramV) -> bool {
    d.participants.len() == 0 && d.events.len() == 0
}

/// The diagram with edge context from `ctx` attached.
pub open spec fn attach_all(d: DiagramV, ctx: Assoc) -> DiagramV {
    DiagramV { events: d.events.map_values(|e: EventV| attach_one(e, ctx)), ..d }
}

/// The state of a line-by-line read of the sequence-gram format.
pub struct GramScan {
    pub diagrams: Seq<DiagramV>,
    pub pending: Option<Seq<char>>,
    pub in_mermaid: bool,
    pub buf: Seq<Seq<char>>,
    pub ctx: Assoc,
    pub in_ctx: bool,
    pub cur: Option<Seq<char>>,
}

/// `## ` or `### ` heading text.
pub open spec fn gram_heading(l: Seq<char>) -> Option<Seq<char>> {
    match strip_prefix(l, "## "@) {
        Some(h) => Some(h),
        None => strip_prefix(l, "### "@),
    }
}

/// The line that opens an edge-context block outside a fence.
pub open spec fn is_gram_ctx_header(t: Seq<char>) -> bool {
    eq_ignore_case(unbold(t), "edgecontext:"@) || eq_ignore_case(t, "edgecontext"@)
        || eq_ignore_case(t, "context:"@) || eq_ignore_case(t, "context"@)
}

/// A line of an edge-context block outside a fence: `Ok` with the state
/// when the line is used up, `Err` with the state to go on with when it
/// is not.
pub open spec fn gram_ctx_line(st: GramScan, t: Seq<char>) -> Result<GramScan, GramScan> {
    if t == "```mermaid"@ {
        Err(GramScan { in_ctx: false, cur: None, ..st })
    } else if t.len() == 0 {
        Ok(GramScan { in_ctx: false, cur: None, ..st })
    } else {
        let rest = trim(trim_start_ch(t, '-'));
        let ru = unbold(rest);
        if is_bare_id(ru) && bracket_id(ru).len() > 0 {
            Ok(GramScan { cur: Some(bracket_id(ru)), ctx: assoc_touch(st.ctx, bracket_id(ru)), ..st })
        } else if let Some(p) = ctx_pair(ru, rest) {
            let id = bracket_id(p.0);
            let txt = trim(p.1);
            let ctx = if id.len() > 0 {
                if txt.len() == 0 {
                    assoc_remove(st.ctx, id)
                } else {
                    assoc_set(st.ctx, id, txt)
                }
            } else {
                st.ctx
            };
            Ok(GramScan { ctx, cur: None, ..st })
        } else if st.cur is Some && rest.len() > 0 {
            Ok(GramScan { ctx: assoc_append(st.ctx, st.cur->0, rest), ..st })
        } else {
            Err(GramScan { in_ctx: false, cur: None, ..st })
        }
    }
}

/// The name of a closed diagram: the pending heading unless it is empty,
/// else `Diagram n` for the `n`-th.
pub open spec fn diagram_name(pending: Option<Seq<char>>, n: nat) -> Seq<char> {
    match pending {
        Some(p) => if p.len() > 0 {
            p
        } else {
            "Diagram "@ + dec(n)
        },
        None => "Diagram "@ + dec(n),
    }
}

/// One line of the sequence-gram format.
pub open spec fn gram_step(st: GramScan, line: Seq<char>) -> GramScan {
    let l = trim_end(line);
    if !st.in_mermaid {
        if let Some(h) = gram_heading(l) {
            GramScan { pending: Some(trim(h)), in_ctx: false, ..st }
        } else {
            let t = trim(l);
            if is_gram_ctx_header(t) {
                GramScan { in_ctx: true, ..st }
            } else {
                let r = if st.in_ctx {
                    gram_ctx_line(st, t)
                } else {
                    Err(st)
                };
                match r {
                    Ok(s2) => s2,
                    Err(s2) => if t == "```mermaid"@ {
                        GramScan { in_mermaid: true, buf: Seq::empty(), ..s2 }
                    } else {
                        s2
                    },
                }
            }
        }
    } else if trim(l) == "```"@ {
        let name = diagram_name(st.pending, st.diagrams.len() + 1);
        let parsed = parse_mermaid(name, join(st.buf, "\n"@));
        let d = if st.ctx.len() > 0 {
            attach_all(parsed, st.ctx)
        } else {
            parsed
        };
        GramScan {
            diagrams: if is_empty_diagram(d) {
                st.diagrams
            } else {
                st.diagrams.push(d)
            },
            pending: None,
            in_mermaid: false,
            buf: Seq::empty(),
            ctx: Seq::empty(),
            ..st
        }
    } else {
        GramScan { buf: st.buf.push(l), ..st }
    }
}

pub open spec fn gram_init() -> GramScan {
    GramScan {
        diagrams: Seq::empty(),
        pending: None,
        in_mermaid: false,
        buf: Seq::empty(),
        ctx: Seq::empty(),
        in_ctx: false,
        cur: None,
    }
}

pub open spec fn gram_scan(ls: Seq<Seq<char>>) -> GramScan
    decreases ls.len(),
{
    if ls.len() == 0 {
        gram_init()
    } else {
        gram_step(gram_scan(ls.drop_last()), ls.last())
    }
}

proof fn lemma_gram_scan_kept(ls: Seq<Seq<char>>)
    ensures
        forall|i: int|
            0 <= i < gram_scan(ls).diagrams.len() ==> !is_empty_diagram(
                #[trigger] gram_scan(ls).diagrams[i],
            ),
    decreases ls.len(),
{
    if ls.len() > 0 {
        lemma_gram_scan_kept(ls.drop_last());
    }
}

/// The empty diagram an editor starts from.
pub open spec fn placeholder_diagram() -> DiagramV {
    DiagramV { name: "Diagram"@, participants: Seq::empty(), events: Seq::empty() }
}

/// The diagrams the sequence-gram format holds: the non-empty fenced
/// diagrams; failing those, the whole text read as one diagram body;
/// failing that, one empty diagram.
pub open spec fn parse_gram(src: Seq<char>) -> Seq<DiagramV> {
    if trim(src).len() == 0 {
        seq![placeholder_diagram()]
    } else {
        let st = gram_scan(lines(src));
        if st.diagrams.len() > 0 {
            st.diagrams
        } else {
            let one = parse_mermaid("Diagram"@, src);
            if is_empty_diagram(one) {
                seq![placeholder_diagram()]
            } else {
                seq![one]
            }
        }
    }
}

struct GState {
    diagrams: Vec<SequenceDiagram>,
    pending: Option<Vec<char>>,
    in_mermaid: bool,
    buf: Vec<Vec<char>>,
    ctx: EdgeContexts,
    in_ctx: bool,
    cur: Option<Vec<char>>,
}

impl GState {
    spec fn view(&self) -> GramScan {
        GramScan {
            diagrams: diagrams_view(self.diagrams@),
            pending: chars_opt(self.pending),
            in_mermaid: self.in_mermaid,
            buf: views(self.buf@),
            ctx: self.ctx@,
            in_ctx: self.in_ctx,
            cur: chars_opt(self.cur),
        }
    }
}

fn gram_heading_exec(l: &Vec<char>) -> (r: Option<Vec<char>>)
    ensures
        chars_opt(r) == gram_heading(l@),
{
    match strip_prefix_exec(l, &chars_of("## ")) {
        Some(h) => Some(h),
        None => strip_prefix_exec(l, &chars_of("### ")),
    }
}

fn is_gram_ctx_header_exec(t: &Vec<char>) -> (r: bool)
    ensures
        r == is_gram_ctx_header(t@),
{
    eq_ignore_case_exec(&unbold_exec(t), &chars_of("edgecontext:")) || eq_ignore_case_exec(
        t,
        &chars_of("edgecontext"),
    ) || eq_ignore_case_exec(t, &chars_of("context:")) || eq_ignore_case_exec(
        t,
        &chars_of("context"),
    )
}

/// Runs one edge-context line; true when the line is used up.
fn gram_ctx_line_exec(st: &mut GState, t: &Vec<char>) -> (used: bool)
    ensures
        match gram_ctx_line(old(st).view(), t@) {
            Ok(s2) => used && final(st).view() == s2,
            Err(s2) => !used && final(st).view() == s2,
        },
{
    if eq(t, &chars_of("```mermaid")) {
        st.in_ctx = false;
        st.cur = None;
        return false;
    }
    if t.len() == 0 {
        st.in_ctx = false;
        st.cur = None;
        return true;
    }
    let rest = v_trim(&v_trim_start_ch(t, '-'));
    let ru = unbold_exec(&rest);
    if is_bare_id_exec(&ru) {
        let id = bracket_id_exec(&ru);
        if id.len() > 0 {
            st.ctx.touch(&id);
            st.cur = Some(id);
            return true;
        }
    }
    match ctx_pair_exec(&ru, &rest) {
        Some(p) => {
            let id = bracket_id_exec(&p.0);
            let txt = v_trim(&p.1);
            if id.len() > 0 {
                if txt.len() == 0 {
                    st.ctx.remove(&id);
                } else {
                    st.ctx.set(&id, &txt);
                }
            }
            st.cur = None;
            return true;
        },
        None => {},
    }
    match &st.cur {
        Some(id) => {
            if rest.len() > 0 {
                let idc = copy_chars(id);
                st.ctx.append_line(&idc, &rest);
                return true;
            }
        },
        None => {},
    }
    st.in_ctx = false;
    st.cur = None;
    false
}

fn diagram_name_exec(pending: &Option<Vec<char>>, n: u128) -> (r: Vec<char>)
    ensures
        r@ == diagram_name(chars_opt(*pending), n as nat),
{
    match pending {
        Some(p) => {
            if p.len() > 0 {
                return copy_chars(p);
            }
        },
        None => {},
    }
    concat(&chars_of("Diagram "), &fmt_u128(n))
}

fn gram_step_exec(st: &mut GState, line: &Vec<char>)
    ensures
        final(st).view() == gram_step(old(st).view(), line@),
{
    let l = v_trim_end(line);
    if !st.in_mermaid {
        match gram_heading_exec(&l) {
            Some(h) => {
                st.pending = Some(v_trim(&h));
                st.in_ctx = false;
                return;
            },
            None => {},
        }
        let t = v_trim(&l);
        if is_gram_ctx_header_exec(&t) {
            st.in_ctx = true;
            return;
        }
        if st.in_ctx {
            if gram_ctx_line_exec(st, &t) {
                return;
            }
        }
        if eq(&t, &chars_of("```mermaid")) {
            st.in_mermaid = true;
            st.buf = Vec::new();
            proof {
                assert(views(st.buf@) =~= Seq::<Seq<char>>::empty());
            }
        }
        return;
    }
    if eq(&v_trim(&l), &chars_of("```")) {
        let name = diagram_name_exec(&st.pending, st.diagrams.len() as u128 + 1);
        let body = join_exec(&st.buf, &chars_of("\n"));
        let mut parsed = parse_mermaid_diagram(string_of(&name).as_str(), string_of(&body).as_str());
        if !st.ctx.is_empty() {
            attach_edge_contexts(&mut parsed, &st.ctx);
        }
        if !(parsed.participants.len() == 0 && parsed.events.len() == 0) {
            let ghost a = st.diagrams@;
            st.diagrams.push(parsed);
            proof {
                assert(diagrams_view(st.diagrams@) =~= diagrams_view(a).push(parsed@));
            }
        }
        st.pending = None;
        st.in_mermaid = false;
        st.buf = Vec::new();
        st.ctx = EdgeContexts::new();
        proof {
            assert(views(st.buf@) =~= Seq::<Seq<char>>::empty());
        }
        return;
    }
    let ghost a = st.buf@;
    st.buf.push(l);
    proof {
        assert(views(st.buf@) =~= views(a).push(l@));
    }
}

fn placeholder() -> (r: SequenceDiagram)
    ensures
        r@ == placeholder_diagram(),
{
    let d = SequenceDiagram {
        name: "Diagram".to_string(),
        participants: Vec::new(),
        events: Vec::new(),
    };
    proof {
        assert(d@.participants =~= Seq::<Seq<char>>::empty());
        assert(d@.events =~= Seq::<EventV>::empty());
    }
    d
}

/// Reading the format always gives at least one diagram: blank text gives
/// one empty diagram named `Diagram`, and otherwise every diagram read
/// has a participant or a message, unless the one empty diagram is all
/// there is.
pub proof fn lemma_gram_never_empty(src: Seq<char>)
    ensures
        parse_gram(src).len() > 0,
        trim(src).len() == 0 ==> parse_gram(src) == seq![placeholder_diagram()],
        parse_gram(src) == seq![placeholder_diagram()] || forall|i: int|
            0 <= i < parse_gram(src).len() ==> !is_empty_diagram(#[trigger] parse_gram(src)[i]),
{
    lemma_gram_scan_kept(lines(src));
}

/// Reads the sequence-gram format.
pub fn parse_sequence_gram(src: &str) -> (r: Vec<SequenceDiagram>)
    ensures
        diagrams_view(r@) == parse_gram(src@),
{
    let s = chars_of(src);
    if v_trim(&s).len() == 0 {
        let v = vec![placeholder()];
        proof {
            assert(diagrams_view(v@) =~= seq![placeholder_diagram()]);
        }
        return v;
    }
    let ls = lines_exec(&s);
    let mut st = GState {
        diagrams: Vec::new(),
        pending: None,
        in_mermaid: false,
        buf: Vec::new(),
        ctx: EdgeContexts::new(),
        in_ctx: false,
        cur: None,
    };
    proof {
        assert(st.view().diagrams =~= Seq::<DiagramV>::empty());
        assert(st.view().buf =~= Seq::<Seq<char>>::empty());
        assert(views(ls@).take(0) =~= Seq::<Seq<char>>::empty());
    }
    let mut i: usize = 0;
    while i < ls.len()
        invariant
            i <= ls.len(),
            views(ls@) == lines(s@),
            st.view() == gram_scan(views(ls@).take(i as int)),
        decreases ls.len() - i,
    {
        proof {
            assert(views(ls@).take(i + 1).drop_last() =~= views(ls@).take(i as int));
        }
        gram_step_exec(&mut st, &ls[i]);
        i = i + 1;
    }
    proof {
        assert(views(ls@).take(ls.len() as int) =~= views(ls@));
    }
    if st.diagrams.len() > 0 {
        return st.diagrams;
    }
    let one = parse_mermaid_diagram("Diagram", src);
    if one.participants.len() == 0 && one.events.len() == 0 {
        let v = vec![placeholder()];
        proof {
            assert(diagrams_view(v@) =~= seq![placeholder_diagram()]);
        }
        v
    } else {
        let v = vec![one];
        proof {
            assert(diagrams_view(v@) =~= seq![one@]);
        }
        v
    }
}

// ---------------------------------------------------------------------
// Editing.

/// `b` differs from `a` at most in its mode.
pub open spec fn seq_only_mode(a: SequenceEditorState, b: SequenceEditorState) -> bool {
    &&& b.form_field_index == a.form_field_index
    &&& b.diagrams == a.diagrams
    &&& b.diagram_cursor == a.diagram_cursor
    &&& b.event_cursor == a.event_cursor
    &&& b.participant_cursor == a.participant_cursor
}

/// The last index of a list of `n` items, 0 for an empty one.
pub open spec fn last_idx(n: nat) -> int {
    if n == 0 {
        0
    } else {
        n - 1
    }
}

/// The events that neither come from nor go to `name`.
pub open spec fn without_participant(es: Seq<EventV>, name: Seq<char>) -> Seq<EventV>
    decreases es.len(),
{
    if es.len() == 0 {
        es
    } else {
        let r = without_participant(es.drop_last(), name);
        let e = es.last();
        if e.from != name && e.to != name {
            r.push(e)
        } else {
            r
        }
    }
}

/// A message from the participant at `from` to the one at `to` with
/// `text` can be added to `d`.
pub open spec fn message_ok(d: DiagramV, from: int, to: int, text: Seq<char>) -> bool {
    &&& trim(text).len() > 0
    &&& 0 <= from < d.participants.len()
    &&& 0 <= to < d.participants.len()
    &&& d.participants[from].len() > 0
    &&& d.participants[to].len() > 0
}

/// A participant named `input` can be added to `d`.
pub open spec fn participant_ok(d: DiagramV, input: Seq<char>) -> bool {
    trim(input).len() > 0 && !d.participants.contains(trim(input))
}

/// The edge context set from `input`: none when it is blank.
pub open spec fn context_of_input(input: Seq<char>) -> Option<Seq<char>> {
    if trim(input).len() == 0 {
        None
    } else {
        Some(trim(input))
    }
}

/// The diagrams after confirming the prompt `m` with the cursors at
/// `(dc, ec)`.
pub open spec fn seq_confirmed(m: SequenceEditorMode, ds: Seq<DiagramV>, dc: int, ec: int) -> Seq<
    DiagramV,
> {
    match m {
        SequenceEditorMode::AddParticipant { input } => if 0 <= dc < ds.len() && participant_ok(
            ds[dc],
            input@,
        ) {
            ds.update(
                dc,
                DiagramV { participants: ds[dc].participants.push(trim(input@)), ..ds[dc] },
            )
        } else {
            ds
        },
        SequenceEditorMode::AddDiagram { input } => ds.push(
            DiagramV {
                name: if trim(input@).len() == 0 {
                    "Diagram"@
                } else {
                    trim(input@)
                },
                participants: Seq::empty(),
                events: Seq::empty(),
            },
        ),
        SequenceEditorMode::RenameDiagram { input } => if 0 <= dc < ds.len() && trim(input@).len()
            > 0 {
            ds.update(dc, DiagramV { name: trim(input@), ..ds[dc] })
        } else {
            ds
        },
        SequenceEditorMode::AddMessage { from, to, dashed, input } => if 0 <= dc < ds.len()
            && message_ok(ds[dc], from as int, to as int, input@) {
            let d = ds[dc];
            ds.update(
                dc,
                DiagramV {
                    events: d.events.push(
                        EventV {
                            from: d.participants[from as int],
                            to: d.participants[to as int],
                            dashed,
                            rel_id: next_rel_id(d.events),
                            text: trim(input@),
                            edge_context: None,
                        },
                    ),
                    ..d
                },
            )
        } else {
            ds
        },
        SequenceEditorMode::EditEdgeContext { input } => if 0 <= dc < ds.len() && 0 <= ec
            < ds[dc].events.len() {
            let d = ds[dc];
            ds.update(
                dc,
                DiagramV {
                    events: d.events.update(
                        ec,
                        EventV { edge_context: context_of_input(input@), ..d.events[ec] },
                    ),
                    ..d
                },
            )
        } else {
            ds
        },
        SequenceEditorMode::Browse => ds,
    }
}

/// The diagrams after deleting the one at `idx`: never empty.
pub open spec fn seq_after_delete(ds: Seq<DiagramV>, idx: int) -> Seq<DiagramV> {
    let rest = ds.remove(idx);
    if rest.len() == 0 {
        seq![DiagramV { name: "Diagram"@, participants: Seq::empty(), events: Seq::empty() }]
    } else {
        rest
    }
}

/// Whether `name` is one of the strings.
fn has_name(v: &Vec<String>, name: &Vec<char>) -> (r: bool)
    ensures
        r == strings_view(v@).contains(name@),
{
    let mut i: usize = 0;
    while i < v.len()
        invariant
            i <= v.len(),
            forall|k: int| 0 <= k < i ==> strings_view(v@)[k] != name@,
        decreases v.len() - i,
    {
        if eq(&chars_of(v[i].as_str()), name) {
            proof {
                assert(strings_view(v@)[i as int] == name@);
            }
            return true;
        }
        i = i + 1;
    }
    false
}

impl SequenceEditorState {
    /// The current diagram, if there is one.
    pub open spec fn diagram_at(&self) -> Option<SequenceDiagram> {
        if self.diagram_cursor < self.diagrams.len() {
            Some(self.diagrams@[self.diagram_cursor as int])
        } else {
            None
        }
    }

    /// Moves the event cursor within the current diagram while browsing.
    pub fn move_event(&mut self, d: isize)
        ensures
            seq_move_event_post(*old(self), *final(self), d),
    {
        if matches!(self.mode, SequenceEditorMode::Browse) && self.diagram_cursor
            < self.diagrams.len() {
            let n = self.diagrams[self.diagram_cursor].events.len();
            let cap = if n == 0 {
                0
            } else {
                n - 1
            };
            self.event_cursor = apply_delta(self.event_cursor, d, cap);
        }
    }

    /// Moves the participant cursor within the current diagram while
    /// browsing.
    pub fn move_participant(&mut self, d: isize)
        ensures
            seq_move_participant_post(*old(self), *final(self), d),
    {
        if matches!(self.mode, SequenceEditorMode::Browse) && self.diagram_cursor
            < self.diagrams.len() {
            let n = self.diagrams[self.diagram_cursor].participants.len();
            if n > 0 {
                self.participant_cursor = apply_delta(self.participant_cursor, d, n - 1);
            }
        }
    }

    /// Moves around the ring of diagrams while browsing, back to the
    /// first event and participant.
    pub fn move_diagram(&mut self, d: isize)
        ensures
            seq_move_diagram_post(*old(self), *final(self), d),
    {
        if matches!(self.mode, SequenceEditorMode::Browse) && self.diagrams.len() > 0 {
            self.diagram_cursor = cycle_wrap(self.diagrams.len(), self.diagram_cursor, d);
            self.event_cursor = 0;
            self.participant_cursor = 0;
        }
    }

    /// Opens the prompt for the name of a new participant.
    pub fn start_add_participant(&mut self)
        ensures
            seq_start_add_participant_post(*old(self), *final(self)),
    {
        self.mode = SequenceEditorMode::AddParticipant { input: String::new() };
    }

    /// Opens the prompt for the name of a new diagram.
    pub fn start_add_diagram(&mut self)
        ensures
            seq_start_add_diagram_post(*old(self), *final(self)),
    {
        self.mode = SequenceEditorMode::AddDiagram { input: String::new() };
    }

    /// Opens the prompt for a new name of the current diagram.
    pub fn start_rename_diagram(&mut self)
        ensures
            seq_start_rename_diagram_post(*old(self), *final(self)),
    {
        let current = if self.diagram_cursor < self.diagrams.len() {
            copy_string(&self.diagrams[self.diagram_cursor].name)
        } else {
            String::new()
        };
        self.mode = SequenceEditorMode::RenameDiagram { input: current };
    }

    /// Opens the prompt for a new message in the current diagram, from
    /// the first participant to the second (or the first, when alone).
    pub fn start_add_message(&mut self)
        ensures
            seq_start_add_message_post(*old(self), *final(self)),
    {
        if self.diagram_cursor >= self.diagrams.len() {
            return;
        }
        let to: usize = if self.diagrams[self.diagram_cursor].participants.len() > 1 {
            1
        } else {
            0
        };
        self.mode = SequenceEditorMode::AddMessage { from: 0, to, dashed: false, input: String::new() };
    }

    /// Opens the prompt for the edge context of the current message,
    /// holding its context, while browsing.
    pub fn start_edit_edge_context(&mut self)
        ensures
            seq_start_edit_edge_context_post(*old(self), *final(self)),
    {
        if !matches!(self.mode, SequenceEditorMode::Browse) || self.diagram_cursor
            >= self.diagrams.len() {
            return;
        }
        if self.event_cursor >= self.diagrams[self.diagram_cursor].events.len() {
            return;
        }
        let current = match &self.diagrams[self.diagram_cursor].events[self.event_cursor] {
            SequenceEvent::Message { edge_context, .. } => match edge_context {
                Some(t) => copy_string(t),
                None => String::new(),
            },
        };
        self.mode = SequenceEditorMode::EditEdgeContext { input: current };
    }

    /// Flips the new message between solid and dashed.
    pub fn toggle_dashed(&mut self)
        ensures
            seq_toggle_dashed_post(*old(self), *final(self)),
    {
        match &mut self.mode {
            SequenceEditorMode::AddMessage { dashed, .. } => {
                *dashed = !*dashed;
            },
            _ => {},
        }
    }

    /// Moves the sender (`to_side` false) or the receiver of the new
    /// message among the participants.
    pub fn cycle_end(&mut self, to_side: bool, d: isize)
        ensures
            seq_cycle_end_post(*old(self), *final(self), to_side, d),
    {
        if self.diagram_cursor >= self.diagrams.len() {
            return;
        }
        let n = self.diagrams[self.diagram_cursor].participants.len();
        if n == 0 {
            return;
        }
        match &mut self.mode {
            SequenceEditorMode::AddMessage { from, to, .. } => {
                if to_side {
                    *to = apply_delta(*to, d, n - 1);
                } else {
                    *from = apply_delta(*from, d, n - 1);
                }
            },
            _ => {},
        }
    }

    /// Types `c` into the open prompt.
    pub fn input_char(&mut self, c: char)
        ensures
            seq_input_char_post(*old(self), *final(self), c),
    {
        match &mut self.mode {
            SequenceEditorMode::AddParticipant { input } => push_char(input, c),
            SequenceEditorMode::AddDiagram { input } => push_char(input, c),
            SequenceEditorMode::RenameDiagram { input } => push_char(input, c),
            SequenceEditorMode::AddMessage { input, .. } => push_char(input, c),
            SequenceEditorMode::EditEdgeContext { input } => push_char(input, c),
            SequenceEditorMode::Browse => {},
        }
    }

    /// Deletes the last character of the open prompt.
    pub fn backspace(&mut self)
        ensures
            seq_backspace_post(*old(self), *final(self)),
    {
        match &mut self.mode {
            SequenceEditorMode::AddParticipant { input } => {
                pop_char(input);
            },
            SequenceEditorMode::AddDiagram { input } => {
                pop_char(input);
            },
            SequenceEditorMode::RenameDiagram { input } => {
                pop_char(input);
            },
            SequenceEditorMode::AddMessage { input, .. } => {
                pop_char(input);
            },
            SequenceEditorMode::EditEdgeContext { input } => {
                pop_char(input);
            },
            SequenceEditorMode::Browse => {},
        }
    }

    /// Applies the open prompt and returns to browsing.
    pub fn confirm(&mut self)
        ensures
            seq_confirm_post(*old(self), *final(self)),
    {
        let ghost ds = diagrams_view(self.diagrams@);
        let dc = self.diagram_cursor;
        let ec = self.event_cursor;
        let mut mode = SequenceEditorMode::Browse;
        std::mem::swap(&mut mode, &mut self.mode);
        match mode {
            SequenceEditorMode::AddParticipant { input } => {
                let t = v_trim(&chars_of(input.as_str()));
                if dc < self.diagrams.len() && t.len() > 0 && !has_name(
                    &self.diagrams[dc].participants,
                    &t,
                ) {
                    let mut d = self.diagrams.remove(dc);
                    let ghost pv = strings_view(d.participants@);
                    d.participants.push(string_of(&t));
                    proof {
                        assert(strings_view(d.participants@) =~= pv.push(t@));
                    }
                    self.participant_cursor = d.participants.len() - 1;
                    self.diagrams.insert(dc, d);
                    proof {
                        assert(diagrams_view(self.diagrams@) =~= seq_confirmed(mode, ds, dc as int, ec as int));
                    }
                }
            },
            SequenceEditorMode::AddDiagram { input } => {
                let t = v_trim(&chars_of(input.as_str()));
                let name = if t.len() == 0 {
                    proof {
                        reveal_strlit("Diagram");
                    }
                    "Diagram".to_string()
                } else {
                    string_of(&t)
                };
                let d = SequenceDiagram { name, participants: Vec::new(), events: Vec::new() };
                proof {
                    assert(strings_view(d.participants@) =~= Seq::<Seq<char>>::empty());
                    assert(events_view(d.events@) =~= Seq::<EventV>::empty());
                }
                self.diagrams.push(d);
                self.diagram_cursor = self.diagrams.len() - 1;
                self.event_cursor = 0;
                self.participant_cursor = 0;
                proof {
                    assert(diagrams_view(self.diagrams@) =~= seq_confirmed(mode, ds, dc as int, ec as int));
                }
            },
            SequenceEditorMode::RenameDiagram { input } => {
                let t = v_trim(&chars_of(input.as_str()));
                if dc < self.diagrams.len() && t.len() > 0 {
                    let mut d = self.diagrams.remove(dc);
                    d.name = string_of(&t);
                    self.diagrams.insert(dc, d);
                    proof {
                        assert(diagrams_view(self.diagrams@) =~= seq_confirmed(mode, ds, dc as int, ec as int));
                    }
                }
            },
            SequenceEditorMode::AddMessage { from, to, dashed, input } => {
                let t = v_trim(&chars_of(input.as_str()));
                if dc < self.diagrams.len() && t.len() > 0 && from
                    < self.diagrams[dc].participants.len() && to
                    < self.diagrams[dc].participants.len() {
                    let fc = chars_of(self.diagrams[dc].participants[from].as_str());
                    let tc = chars_of(self.diagrams[dc].participants[to].as_str());
                    if fc.len() > 0 && tc.len() > 0 {
                        let fname = string_of(&fc);
                        let tname = string_of(&tc);
                        let mut d = self.diagrams.remove(dc);
                        let rel_id = next_relation_id(&d);
                        let ghost ev = events_view(d.events@);
                        let e = SequenceEvent::Message {
                            from: fname,
                            to: tname,
                            dashed,
                            rel_id,
                            text: string_of(&t),
                            edge_context: None,
                        };
                        d.events.push(e);
                        proof {
                            assert(events_view(d.events@) =~= ev.push(e@));
                        }
                        self.event_cursor = d.events.len() - 1;
                        self.diagrams.insert(dc, d);
                        proof {
                            assert(diagrams_view(self.diagrams@) =~= seq_confirmed(mode, ds, dc as int, ec as int));
                        }
                    }
                }
            },
            SequenceEditorMode::EditEdgeContext { input } => {
                if dc < self.diagrams.len() && ec < self.diagrams[dc].events.len() {
                    let t = v_trim(&chars_of(input.as_str()));
                    let ctx = if t.len() == 0 {
                        None
                    } else {
                        Some(string_of(&t))
                    };
                    let mut d = self.diagrams.remove(dc);
                    let ghost ev = events_view(d.events@);
                    let old_e = d.events.remove(ec);
                    let e = match old_e {
                        SequenceEvent::Message { from, to, dashed, rel_id, text, .. } => {
                            SequenceEvent::Message { from, to, dashed, rel_id, text, edge_context: ctx }
                        },
                    };
                    d.events.insert(ec, e);
                    proof {
                        assert(events_view(d.events@) =~= ev.update(ec as int, EventV { edge_context: context_of_input(input@), ..ev[ec as int] }));
                    }
                    self.diagrams.insert(dc, d);
                    proof {
                        assert(diagrams_view(self.diagrams@) =~= seq_confirmed(mode, ds, dc as int, ec as int));
                    }
                }
            },
            SequenceEditorMode::Browse => {},
        }
    }

    /// Deletes the current message while browsing.
    pub fn delete_event(&mut self)
        ensures
            seq_delete_event_post(*old(self), *final(self)),
    {
        let dc = self.diagram_cursor;
        if !matches!(self.mode, SequenceEditorMode::Browse) || dc >= self.diagrams.len() {
            return;
        }
        if self.diagrams[dc].events.len() == 0 {
            return;
        }
        let ghost ds = diagrams_view(self.diagrams@);
        let mut d = self.diagrams.remove(dc);
        let ghost ev = events_view(d.events@);
        let idx = if self.event_cursor < d.events.len() {
            self.event_cursor
        } else {
            d.events.len() - 1
        };
        d.events.remove(idx);
        proof {
            assert(events_view(d.events@) =~= ev.remove(idx as int));
        }
        let cap = if d.events.len() == 0 {
            0
        } else {
            d.events.len() - 1
        };
        if self.event_cursor > cap {
            self.event_cursor = cap;
        }
        self.diagrams.insert(dc, d);
        proof {
            assert(diagrams_view(self.diagrams@) =~= ds.update(dc as int, DiagramV { events: ev.remove(idx as int), ..ds[dc as int] }));
        }
    }

    /// Deletes the current participant and every message from or to it,
    /// while browsing.
    pub fn delete_participant(&mut self)
        ensures
            seq_delete_participant_post(*old(self), *final(self)),
    {
        let dc = self.diagram_cursor;
        if !matches!(self.mode, SequenceEditorMode::Browse) || dc >= self.diagrams.len() {
            return;
        }
        if self.diagrams[dc].participants.len() == 0 {
            return;
        }
        let ghost ds = diagrams_view(self.diagrams@);
        let mut d = self.diagrams.remove(dc);
        let ghost pv = strings_view(d.participants@);
        let idx = if self.participant_cursor < d.participants.len() {
            self.participant_cursor
        } else {
            d.participants.len() - 1
        };
        let name = d.participants.remove(idx);
        proof {
            assert(strings_view(d.participants@) =~= pv.remove(idx as int));
        }
        let nm = chars_of(name.as_str());
        let mut kept: Vec<SequenceEvent> = Vec::new();
        let ghost ev = events_view(d.events@);
        let mut old_events: Vec<SequenceEvent> = Vec::new();
        std::mem::swap(&mut old_events, &mut d.events);
        let mut i: usize = 0;
        while i < old_events.len()
            invariant
                i <= old_events.len(),
                events_view(old_events@) == ev,
                events_view(kept@) == without_participant(ev.take(i as int), nm@),
            decreases old_events.len() - i,
        {
            let keep = match &old_events[i] {
                SequenceEvent::Message { from, to, .. } => !eq(&chars_of(from.as_str()), &nm)
                    && !eq(&chars_of(to.as_str()), &nm),
            };
            let ghost before = events_view(kept@);
            proof {
                assert(ev.take(i + 1).drop_last() =~= ev.take(i as int));
                assert(ev.take(i + 1).last() == ev[i as int]);
            }
            if keep {
                let e = clone_event(&old_events[i]);
                kept.push(e);
                proof {
                    assert(events_view(kept@) =~= before.push(ev[i as int]));
                }
            }
            i = i + 1;
        }
        proof {
            assert(ev.take(ev.len() as int) =~= ev);
        }
        d.events = kept;
        let pcap = if d.participants.len() == 0 {
            0
        } else {
            d.participants.len() - 1
        };
        if self.participant_cursor > pcap {
            self.participant_cursor = pcap;
        }
        let ecap = if d.events.len() == 0 {
            0
        } else {
            d.events.len() - 1
        };
        if self.event_cursor > ecap {
            self.event_cursor = ecap;
        }
        self.diagrams.insert(dc, d);
        proof {
            assert(diagrams_view(self.diagrams@) =~= ds.update(dc as int, DiagramV { participants: pv.remove(idx as int), events: without_participant(ev, nm@), ..ds[dc as int] }));
        }
    }

    /// Deletes the current diagram while browsing; an empty `Diagram`
    /// replaces the last one.
    pub fn delete_diagram(&mut self)
        ensures
            seq_delete_diagram_post(*old(self), *final(self)),
    {
        if !matches!(self.mode, SequenceEditorMode::Browse) || self.diagrams.len() == 0 {
            return;
        }
        let ghost ds = diagrams_view(self.diagrams@);
        let idx = if self.diagram_cursor < self.diagrams.len() {
            self.diagram_cursor
        } else {
            self.diagrams.len() - 1
        };
        self.diagrams.remove(idx);
        if self.diagrams.len() == 0 {
            proof {
                reveal_strlit("Diagram");
            }
            let d = SequenceDiagram {
                name: "Diagram".to_string(),
                participants: Vec::new(),
                events: Vec::new(),
            };
            proof {
                assert(strings_view(d.participants@) =~= Seq::<Seq<char>>::empty());
                assert(events_view(d.events@) =~= Seq::<EventV>::empty());
            }
            self.diagrams.push(d);
        }
        proof {
            assert(diagrams_view(self.diagrams@) =~= seq_after_delete(ds, idx as int));
        }
        if self.diagram_cursor >= self.diagrams.len() {
            self.diagram_cursor = self.diagrams.len() - 1;
        }
        self.event_cursor = 0;
        self.participant_cursor = 0;
    }
}

/// `b` is `a` after `move_event`.
pub open spec fn seq_move_event_post(a: SequenceEditorState, b: SequenceEditorState, d: isize) -> bool {
    &&& (if a.mode is Browse && a.diagram_at() is Some {
                b == (SequenceEditorState {
                    event_cursor: clamp_delta(
                        a.event_cursor as int,
                        d as int,
                        last_idx(a.diagram_at()->0.events.len() as nat),
                    ) as usize,
                    ..a
                })
            } else {
                b == a
            })
}

/// `b` is `a` after `move_participant`.
pub open spec fn seq_move_participant_post(a: SequenceEditorState, b: SequenceEditorState, d: isize) -> bool {
    &&& (if a.mode is Browse && a.diagram_at() is Some
                && a.diagram_at()->0.participants.len() > 0 {
                b == (SequenceEditorState {
                    participant_cursor: clamp_delta(
                        a.participant_cursor as int,
                        d as int,
                        a.diagram_at()->0.participants.len() - 1,
                    ) as usize,
                    ..a
                })
            } else {
                b == a
            })
}

/// `b` is `a` after `move_diagram`.
pub open spec fn seq_move_diagram_post(a: SequenceEditorState, b: SequenceEditorState, d: isize) -> bool {
    &&& (if a.mode is Browse && a.diagrams.len() > 0 {
                b == (SequenceEditorState {
                    diagram_cursor: wrap_index(
                        a.diagrams.len() as int,
                        a.diagram_cursor as int,
                        d as int,
                    ) as usize,
                    event_cursor: 0,
                    participant_cursor: 0,
                    ..a
                })
            } else {
                b == a
            })
}

/// `b` is `a` after `start_add_participant`.
pub open spec fn seq_start_add_participant_post(a: SequenceEditorState, b: SequenceEditorState) -> bool {
    &&& (seq_only_mode(a, b))
    &&& (b.mode matches SequenceEditorMode::AddParticipant { input } && input@.len()
                == 0)
}

/// `b` is `a` after `start_add_diagram`.
pub open spec fn seq_start_add_diagram_post(a: SequenceEditorState, b: SequenceEditorState) -> bool {
    &&& (seq_only_mode(a, b))
    &&& (b.mode matches SequenceEditorMode::AddDiagram { input } && input@.len() == 0)
}

/// `b` is `a` after `start_rename_diagram`.
pub open spec fn seq_start_rename_diagram_post(a: SequenceEditorState, b: SequenceEditorState) -> bool {
    &&& (seq_only_mode(a, b))
    &&& (b.mode matches SequenceEditorMode::RenameDiagram { input } && input@ == (
            match a.diagram_at() {
                Some(d) => d.name@,
                None => Seq::empty(),
            }))
}

/// `b` is `a` after `start_add_message`.
pub open spec fn seq_start_add_message_post(a: SequenceEditorState, b: SequenceEditorState) -> bool {
    &&& (match a.diagram_at() {
                None => b == a,
                Some(d) => {
                    &&& seq_only_mode(a, b)
                    &&& b.mode matches SequenceEditorMode::AddMessage {
                        from,
                        to,
                        dashed,
                        input,
                    } && from == 0 && to == (if d.participants.len() > 1 {
                        1usize
                    } else {
                        0usize
                    }) && !dashed && input@.len() == 0
                },
            })
}

/// `b` is `a` after `start_edit_edge_context`.
pub open spec fn seq_start_edit_edge_context_post(a: SequenceEditorState, b: SequenceEditorState) -> bool {
    &&& (({
                let ok = a.mode is Browse && a.diagram_at() is Some
                    && a.event_cursor < a.diagram_at()->0.events.len();
                if ok {
                    let ev = a.diagram_at()->0.events@[a.event_cursor as int]@;
                    &&& seq_only_mode(a, b)
                    &&& b.mode matches SequenceEditorMode::EditEdgeContext { input }
                        && input@ == (match ev.edge_context {
                        Some(t) => t,
                        None => Seq::empty(),
                    })
                } else {
                    b == a
                }
            }))
}

/// `b` is `a` after `toggle_dashed`.
pub open spec fn seq_toggle_dashed_post(a: SequenceEditorState, b: SequenceEditorState) -> bool {
    &&& (seq_only_mode(a, b))
    &&& (match (a.mode, b.mode) {
                (
                    SequenceEditorMode::AddMessage { from: f1, to: t1, dashed: d1, input: i1 },
                    SequenceEditorMode::AddMessage { from: f2, to: t2, dashed: d2, input: i2 },
                ) => f2 == f1 && t2 == t1 && d2 == !d1 && i2 == i1,
                (a, b) => !(a is AddMessage) && b == a,
            })
}

/// `b` is `a` after `cycle_end`.
pub open spec fn seq_cycle_end_post(a: SequenceEditorState, b: SequenceEditorState, to_side: bool, d: isize) -> bool {
    &&& (seq_only_mode(a, b))
    &&& (({
                let ok = a.mode is AddMessage && a.diagram_at() is Some
                    && a.diagram_at()->0.participants.len() > 0;
                if ok {
                    let cap = a.diagram_at()->0.participants.len() - 1;
                    match (a.mode, b.mode) {
                        (
                            SequenceEditorMode::AddMessage { from: f1, to: t1, dashed: d1, input: i1 },
                            SequenceEditorMode::AddMessage { from: f2, to: t2, dashed: d2, input: i2 },
                        ) => d2 == d1 && i2 == i1 && if to_side {
                            f2 == f1 && t2 == clamp_delta(t1 as int, d as int, cap)
                        } else {
                            t2 == t1 && f2 == clamp_delta(f1 as int, d as int, cap)
                        },
                        _ => false,
                    }
                } else {
                    b == a
                }
            }))
}

/// `b` is `a` after `input_char`.
pub open spec fn seq_input_char_post(a: SequenceEditorState, b: SequenceEditorState, c: char) -> bool {
    &&& (seq_only_mode(a, b))
    &&& (match (a.mode, b.mode) {
                (
                    SequenceEditorMode::AddParticipant { input: a },
                    SequenceEditorMode::AddParticipant { input: b },
                ) => b@ == a@.push(c),
                (
                    SequenceEditorMode::AddDiagram { input: a },
                    SequenceEditorMode::AddDiagram { input: b },
                ) => b@ == a@.push(c),
                (
                    SequenceEditorMode::RenameDiagram { input: a },
                    SequenceEditorMode::RenameDiagram { input: b },
                ) => b@ == a@.push(c),
                (
                    SequenceEditorMode::AddMessage { from: f1, to: t1, dashed: d1, input: a },
                    SequenceEditorMode::AddMessage { from: f2, to: t2, dashed: d2, input: b },
                ) => f2 == f1 && t2 == t1 && d2 == d1 && b@ == a@.push(c),
                (
                    SequenceEditorMode::EditEdgeContext { input: a },
                    SequenceEditorMode::EditEdgeContext { input: b },
                ) => b@ == a@.push(c),
                (SequenceEditorMode::Browse, SequenceEditorMode::Browse) => true,
                _ => false,
            })
}

/// `b` is `a` after `backspace`.
pub open spec fn seq_backspace_post(a: SequenceEditorState, b: SequenceEditorState) -> bool {
    &&& (seq_only_mode(a, b))
    &&& (match (a.mode, b.mode) {
                (
                    SequenceEditorMode::AddParticipant { input: a },
                    SequenceEditorMode::AddParticipant { input: b },
                ) => b@ == (if a@.len() > 0 { a@.drop_last() } else { a@ }),
                (
                    SequenceEditorMode::AddDiagram { input: a },
                    SequenceEditorMode::AddDiagram { input: b },
                ) => b@ == (if a@.len() > 0 { a@.drop_last() } else { a@ }),
                (
                    SequenceEditorMode::RenameDiagram { input: a },
                    SequenceEditorMode::RenameDiagram { input: b },
                ) => b@ == (if a@.len() > 0 { a@.drop_last() } else { a@ }),
                (
                    SequenceEditorMode::AddMessage { from: f1, to: t1, dashed: d1, input: a },
                    SequenceEditorMode::AddMessage { from: f2, to: t2, dashed: d2, input: b },
                ) => f2 == f1 && t2 == t1 && d2 == d1 && b@ == (if a@.len() > 0 {
                    a@.drop_last()
                } else {
                    a@
                }),
                (
                    SequenceEditorMode::EditEdgeContext { input: a },
                    SequenceEditorMode::EditEdgeContext { input: b },
                ) => b@ == (if a@.len() > 0 { a@.drop_last() } else { a@ }),
                (SequenceEditorMode::Browse, SequenceEditorMode::Browse) => true,
                _ => false,
            })
}

/// `b` is `a` after `confirm`.
pub open spec fn seq_confirm_post(a: SequenceEditorState, b: SequenceEditorState) -> bool {
    &&& (({
                let ds = diagrams_view(a.diagrams@);
                let dc = a.diagram_cursor as int;
                let m = a.mode;
                &&& b.mode is Browse
                &&& b.form_field_index == a.form_field_index
                &&& diagrams_view(b.diagrams@) == seq_confirmed(
                    m,
                    ds,
                    dc,
                    a.event_cursor as int,
                )
                &&& b.diagram_cursor == if m is AddDiagram {
                    ds.len() as int
                } else {
                    dc
                }
                &&& b.event_cursor == match m {
                    SequenceEditorMode::AddDiagram { .. } => 0,
                    SequenceEditorMode::AddMessage { from, to, input, .. } => if 0 <= dc < ds.len()
                        && message_ok(ds[dc], from as int, to as int, input@) {
                        ds[dc].events.len() as int
                    } else {
                        a.event_cursor as int
                    },
                    _ => a.event_cursor as int,
                }
                &&& b.participant_cursor == match m {
                    SequenceEditorMode::AddDiagram { .. } => 0,
                    SequenceEditorMode::AddParticipant { input } => if 0 <= dc < ds.len()
                        && participant_ok(ds[dc], input@) {
                        ds[dc].participants.len() as int
                    } else {
                        a.participant_cursor as int
                    },
                    _ => a.participant_cursor as int,
                }
            }))
}

/// `b` is `a` after `delete_event`.
pub open spec fn seq_delete_event_post(a: SequenceEditorState, b: SequenceEditorState) -> bool {
    &&& (({
                let ok = a.mode is Browse && a.diagram_at() is Some
                    && a.diagram_at()->0.events.len() > 0;
                if ok {
                    let ds = diagrams_view(a.diagrams@);
                    let dc = a.diagram_cursor as int;
                    let n = ds[dc].events.len();
                    let idx = if a.event_cursor < n {
                        a.event_cursor as int
                    } else {
                        n - 1
                    };
                    let es = ds[dc].events.remove(idx);
                    &&& diagrams_view(b.diagrams@) == ds.update(
                        dc,
                        DiagramV { events: es, ..ds[dc] },
                    )
                    &&& b.event_cursor == if a.event_cursor <= last_idx(es.len()) {
                        a.event_cursor as int
                    } else {
                        last_idx(es.len())
                    }
                    &&& b.mode == a.mode
                    &&& b.form_field_index == a.form_field_index
                    &&& b.diagram_cursor == a.diagram_cursor
                    &&& b.participant_cursor == a.participant_cursor
                } else {
                    b == a
                }
            }))
}

/// `b` is `a` after `delete_participant`.
pub open spec fn seq_delete_participant_post(a: SequenceEditorState, b: SequenceEditorState) -> bool {
    &&& (({
                let ok = a.mode is Browse && a.diagram_at() is Some
                    && a.diagram_at()->0.participants.len() > 0;
                if ok {
                    let ds = diagrams_view(a.diagrams@);
                    let dc = a.diagram_cursor as int;
                    let n = ds[dc].participants.len();
                    let idx = if a.participant_cursor < n {
                        a.participant_cursor as int
                    } else {
                        n - 1
                    };
                    let name = ds[dc].participants[idx];
                    let ps = ds[dc].participants.remove(idx);
                    let es = without_participant(ds[dc].events, name);
                    &&& diagrams_view(b.diagrams@) == ds.update(
                        dc,
                        DiagramV { participants: ps, events: es, ..ds[dc] },
                    )
                    &&& b.participant_cursor == if a.participant_cursor
                        <= last_idx(ps.len()) {
                        a.participant_cursor as int
                    } else {
                        last_idx(ps.len())
                    }
                    &&& b.event_cursor == if a.event_cursor <= last_idx(es.len()) {
                        a.event_cursor as int
                    } else {
                        last_idx(es.len())
                    }
                    &&& b.mode == a.mode
                    &&& b.form_field_index == a.form_field_index
                    &&& b.diagram_cursor == a.diagram_cursor
                } else {
                    b == a
                }
            }))
}

/// `b` is `a` after `delete_diagram`.
pub open spec fn seq_delete_diagram_post(a: SequenceEditorState, b: SequenceEditorState) -> bool {
    &&& (if a.mode is Browse && a.diagrams.len() > 0 {
                let n = a.diagrams.len() as int;
                let idx = if a.diagram_cursor < n {
                    a.diagram_cursor as int
                } else {
                    n - 1
                };
                &&& diagrams_view(b.diagrams@) == seq_after_delete(
                    diagrams_view(a.diagrams@),
                    idx,
                )
                &&& b.diagram_cursor == if a.diagram_cursor
                    < b.diagrams.len() {
                    a.diagram_cursor as int
                } else {
                    b.diagrams.len() - 1
                }
                &&& b.event_cursor == 0
                &&& b.participant_cursor == 0
                &&& b.mode == a.mode
                &&& b.form_field_index == a.form_field_index
            } else {
                b == a
            })
}

} // verus!

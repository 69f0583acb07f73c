//! The command palette: a fixed list of commands, matched against what
//! was typed by case-insensitive substring.

use vstd::prelude::*;
use crate::model::Msg;
use crate::text::{chars_of, contains, contains_exec};
use crate::ui::Screen;

verus! {

/// One palette command.
#[derive(Clone, Debug)]
pub struct Command {
    pub id: &'static str,
    pub label: &'static str,
    pub hint: &'static str,
    pub msg: Msg,
}

/// What each command does, by position.
pub open spec fn command_msg(i: int) -> Msg {
    if i == 0 {
        Msg::GoScreen(Screen::Templates)
    } else if i == 1 {
        Msg::GoScreen(Screen::Tasks)
    } else if i == 2 {
        Msg::GoScreen(Screen::Info)
    } else if i == 3 {
        Msg::ShowHelp
    } else if i == 4 {
        Msg::OpenCreateTemplate
    } else if i == 5 {
        Msg::OpenCreateTask
    } else {
        Msg::Quit
    }
}

/// The ids and labels of the commands, in order.
pub open spec fn command_names() -> Seq<(Seq<char>, Seq<char>)> {
    seq![
        ("go-templates"@, "Go: Templates"@),
        ("go-tasks"@, "Go: Tasks"@),
        ("go-info"@, "Go: Info"@),
        ("help"@, "Help"@),
        ("new-template"@, "New Template"@),
        ("new-task"@, "New Task"@),
        ("quit"@, "Quit"@),
    ]
}

/// The ASCII lower case of a character.
pub open spec fn lower(c: char) -> char {
    if 'A' <= c && c <= 'Z' {
        ((c as u32) + 32) as char
    } else {
        c
    }
}

/// `str::to_ascii_lowercase`.
pub open spec fn lowered(s: Seq<char>) -> Seq<char> {
    s.map_values(|c: char| lower(c))
}

/// A command matches `q` when `q` is empty, its lower-cased label holds
/// the lower-cased `q`, or its id does.
pub open spec fn matches_query(id: Seq<char>, label: Seq<char>, q: Seq<char>) -> bool {
    q.len() == 0 || contains(lowered(label), lowered(q)) || contains(id, lowered(q))
}

/// The positions of the commands matching `q` among the first `n`, in
/// order.
pub open spec fn matching(q: Seq<char>, n: int) -> Seq<int>
    decreases n,
{
    if n <= 0 {
        Seq::empty()
    } else {
        let prev = matching(q, n - 1);
        let c = command_names()[n - 1];
        if matches_query(c.0, c.1, q) {
            prev.push(n - 1)
        } else {
            prev
        }
    }
}

/// The positions of the commands matching `q`, in order.
pub open spec fn candidate_positions(q: Seq<char>) -> Seq<int> {
    matching(q, 7)
}

fn lower_exec(c: char) -> (r: char)
    ensures
        r == lower(c),
{
    if 'A' <= c && c <= 'Z' {
        let b: u8 = c as u8;
        let r = (b + 32) as char;
        proof {
            assert(r as u32 == (c as u32) + 32);
        }
        r
    } else {
        c
    }
}

fn lowered_exec(s: &str) -> (r: Vec<char>)
    ensures
        r@ == lowered(s@),
{
    let cs = chars_of(s);
    let mut out: Vec<char> = Vec::new();
    let mut i: usize = 0;
    while i < cs.len()
        invariant
            i <= cs.len(),
            cs@ == s@,
            out@ == lowered(cs@.take(i as int)),
        decreases cs.len() - i,
    {
        out.push(lower_exec(cs[i]));
        i = i + 1;
        proof {
            assert(out@ =~= lowered(cs@.take(i as int)));
        }
    }
    proof {
        assert(cs@.take(cs.len() as int) =~= cs@);
    }
    out
}

fn command_at(i: usize) -> (r: Command)
    requires
        i < 7,
    ensures
        r.id@ == command_names()[i as int].0,
        r.label@ == command_names()[i as int].1,
        r.msg == command_msg(i as int),
{
    proof {
        reveal_strlit("go-templates");
        reveal_strlit("Go: Templates");
        reveal_strlit("go-tasks");
        reveal_strlit("Go: Tasks");
        reveal_strlit("go-info");
        reveal_strlit("Go: Info");
        reveal_strlit("help");
        reveal_strlit("Help");
        reveal_strlit("new-template");
        reveal_strlit("New Template");
        reveal_strlit("new-task");
        reveal_strlit("New Task");
        reveal_strlit("quit");
        reveal_strlit("Quit");
    }
    if i == 0 {
        Command {
            id: "go-templates",
            label: "Go: Templates",
            hint: "open the Templates screen",
            msg: Msg::GoScreen(Screen::Templates),
        }
    } else if i == 1 {
        Command {
            id: "go-tasks",
            label: "Go: Tasks",
            hint: "open the Tasks screen",
            msg: Msg::GoScreen(Screen::Tasks),
        }
    } else if i == 2 {
        Command {
            id: "go-info",
            label: "Go: Info",
            hint: "app info",
            msg: Msg::GoScreen(Screen::Info),
        }
    } else if i == 3 {
        Command { id: "help", label: "Help", hint: "show keybindings", msg: Msg::ShowHelp }
    } else if i == 4 {
        Command {
            id: "new-template",
            label: "New Template",
            hint: "create a template",
            msg: Msg::OpenCreateTemplate,
        }
    } else if i == 5 {
        Command {
            id: "new-task",
            label: "New Task",
            hint: "create a task in the selected project",
            msg: Msg::OpenCreateTask,
        }
    } else {
        Command { id: "quit", label: "Quit", hint: "exit lattice", msg: Msg::Quit }
    }
}

/// Every command, in order.
pub fn commands() -> (r: Vec<Command>)
    ensures
        r@.len() == 7,
        forall|i: int|
            0 <= i < 7 ==> r@[i].id@ == command_names()[i].0 && r@[i].label@ == command_names()[i].1
                && r@[i].msg == command_msg(i),
{
    let mut out: Vec<Command> = Vec::new();
    let mut i: usize = 0;
    while i < 7
        invariant
            i <= 7,
            out@.len() == i,
            forall|k: int|
                0 <= k < i ==> out@[k].id@ == command_names()[k].0 && out@[k].label@
                    == command_names()[k].1 && out@[k].msg == command_msg(k),
        decreases 7 - i,
    {
        out.push(command_at(i));
        i = i + 1;
    }
    out
}

/// The commands matching `query` (case-insensitive substring of the
/// label, or substring of the id), in order; all of them for an empty
/// query.
pub fn candidates(query: &str) -> (r: Vec<Command>)
    ensures
        r@.len() == candidate_positions(query@).len(),
        forall|j: int|
            #![trigger r@[j]]
            0 <= j < r@.len() ==> {
                let i = candidate_positions(query@)[j];
                &&& r@[j].id@ == command_names()[i].0
                &&& r@[j].label@ == command_names()[i].1
                &&& r@[j].msg == command_msg(i)
            },
{
    let q = lowered_exec(query);
    let qs = chars_of(query);
    let mut out: Vec<Command> = Vec::new();
    let mut i: usize = 0;
    while i < 7
        invariant
            i <= 7,
            q@ == lowered(query@),
            qs@ == query@,
            out@.len() == matching(query@, i as int).len(),
            forall|j: int|
                #![trigger out@[j]]
                0 <= j < out@.len() ==> {
                    let k = matching(query@, i as int)[j];
                    &&& out@[j].id@ == command_names()[k].0
                    &&& out@[j].label@ == command_names()[k].1
                    &&& out@[j].msg == command_msg(k)
                },
        decreases 7 - i,
    {
        let c = command_at(i);
        let ok = qs.len() == 0 || contains_exec(&lowered_exec(c.label), &q) || contains_exec(
            &chars_of(c.id),
            &q,
        );
        if ok {
            out.push(c);
        }
        i = i + 1;
    }
    out
}

/// The message of the highlighted candidate: the one at `cursor`, or the
/// last when the cursor is past the end; none when nothing matches.
pub open spec fn resolved(query: Seq<char>, cursor: int) -> Option<Msg> {
    let ps = candidate_positions(query);
    if ps.len() == 0 {
        None
    } else {
        Some(
            command_msg(
                ps[if cursor < ps.len() {
                    cursor
                } else {
                    ps.len() - 1
                }],
            ),
        )
    }
}

/// The message of the highlighted candidate: the one at `cursor`, or the
/// last when the cursor is past the end; none when nothing matches.
pub fn resolve(query: &str, cursor: usize) -> (r: Option<Msg>)
    ensures
        r == resolved(query@, cursor as int),
{
    let mut list = candidates(query);
    if list.len() == 0 {
        return None;
    }
    let idx = if cursor < list.len() {
        cursor
    } else {
        list.len() - 1
    };
    let c = list.remove(idx);
    Some(c.msg)
}

} // verus!

//! The code-blocks field format: named, fenced code blocks.
//!
//! ````text
//! ## Name
//! ```lang
//! code
//! ```
//! ````

use vstd::prelude::*;
use crate::cursor::{cycle_wrap, wrap_index};
use crate::form::{CaretMove, FormField, erased, moved, typed};
use crate::num::{dec, fmt_u128};
use crate::utf8::byte_len;
use crate::text::{
    copy_string, pop_char, push_char, append, chars_of, concat, eq, join, join_exec, lines, lines_exec, strip_prefix,
    strip_prefix_exec, string_of, trim, trim_end, v_trim, v_trim_end, views, is_ws, lemma_end_trimmed,
    lemma_find_no_nl, lemma_join_lines, lemma_lines_append, lemma_lines_newline_end,
    lemma_lines_one, lemma_trimmed_ends, lemma_unpadded, has_prefix, lemma_trim_nonblank,
};

verus! {

/// One named code block.
#[derive(Clone, Debug, PartialEq, Eq)]
pub struct CodeBlock {
    pub name: String,
    pub language: String,
    pub code: String,
}

/// A code block as its three texts: name, language, code.
pub type BlockV = (Seq<char>, Seq<char>, Seq<char>);

impl View for CodeBlock {
    type V = BlockV;

    open spec fn view(&self) -> BlockV {
        (self.name@, self.language@, self.code@)
    }
}

/// The views of a sequence of blocks.
pub open spec fn blocks_view(bs: Seq<CodeBlock>) -> Seq<BlockV> {
    bs.map_values(|b: CodeBlock| b@)
}

/// The code-blocks editor.
#[derive(Clone, Debug, PartialEq, Eq)]
pub struct CodeEditorState {
    /// Index into the form's fields of the field being edited.
    pub form_field_index: usize,
    pub blocks: Vec<CodeBlock>,
    pub block_cursor: usize,
    pub mode: CodeEditorMode,
}

/// What the code-blocks editor is doing.
#[derive(Clone, Debug, PartialEq, Eq)]
pub enum CodeEditorMode {
    Browse,
    AddBlock { input: String },
    RenameBlock { input: String },
    EditLanguage { input: String },
    EditCode { editor: FormField },
}

/// The state of a line-by-line scan of the format.
pub struct BlockScan {
    pub out: Seq<BlockV>,
    pub pending: Option<Seq<char>>,
    pub in_fence: bool,
    pub lang: Seq<char>,
    pub buf: Seq<Seq<char>>,
}

/// A name that is not blank after trimming.
pub open spec fn nonblank(s: Seq<char>) -> bool {
    trim(s).len() > 0
}

/// `## ` or `### ` heading text.
pub open spec fn heading(t: Seq<char>) -> Option<Seq<char>> {
    match strip_prefix(t, "## "@) {
        Some(h) => Some(h),
        None => strip_prefix(t, "### "@),
    }
}

/// The name a closed block gets: the pending heading if it is not blank,
/// else `Block n` for the `n`-th block.
pub open spec fn block_name(pending: Option<Seq<char>>, n: nat) -> Seq<char> {
    match pending {
        Some(p) => if nonblank(p) {
            p
        } else {
            "Block "@ + dec(n)
        },
        None => "Block "@ + dec(n),
    }
}

/// A block's language: the fence's, or `text` when the fence names none.
pub open spec fn block_lang(lang: Seq<char>) -> Seq<char> {
    if trim(lang).len() == 0 {
        "text"@
    } else {
        trim(lang)
    }
}

/// One line of the scan.
pub open spec fn block_step(st: BlockScan, line: Seq<char>) -> BlockScan {
    let l = trim_end(line);
    let t = trim(l);
    if !st.in_fence {
        if let Some(h) = heading(t) {
            BlockScan { pending: Some(trim(h)), ..st }
        } else if let Some(rest) = strip_prefix(t, "```"@) {
            BlockScan { in_fence: true, lang: trim(rest), buf: Seq::empty(), ..st }
        } else {
            st
        }
    } else if t == "```"@ {
        BlockScan {
            out: st.out.push(
                (
                    block_name(st.pending, st.out.len() + 1),
                    block_lang(st.lang),
                    trim_end(join(st.buf, "\n"@)),
                ),
            ),
            pending: None,
            in_fence: false,
            lang: Seq::empty(),
            buf: Seq::empty(),
        }
    } else {
        BlockScan { buf: st.buf.push(l), ..st }
    }
}

/// The scan after the given lines.
pub open spec fn block_scan(ls: Seq<Seq<char>>) -> BlockScan
    decreases ls.len(),
{
    if ls.len() == 0 {
        BlockScan {
            out: Seq::empty(),
            pending: None,
            in_fence: false,
            lang: Seq::empty(),
            buf: Seq::empty(),
        }
    } else {
        block_step(block_scan(ls.drop_last()), ls.last())
    }
}

/// The blocks the format holds. Blank text gives one empty `rust` block;
/// text with no closed fence gives one `text` block holding all of it.
pub open spec fn parse_blocks(src: Seq<char>) -> Seq<BlockV> {
    if trim(src).len() == 0 {
        seq![("Block 1"@, "rust"@, Seq::empty())]
    } else {
        let st = block_scan(lines(src));
        if st.out.len() == 0 {
            seq![(block_name(st.pending, 1), "text"@, trim_end(src))]
        } else {
            st.out
        }
    }
}

/// The text of one block, the `i`-th.
pub open spec fn block_text(i: int, b: BlockV) -> Seq<char> {
    let name = trim(b.0);
    let lang = trim(b.1);
    (if i > 0 {
        seq!['\n']
    } else {
        Seq::empty()
    }) + "## "@ + (if name.len() == 0 {
        "Block"@
    } else {
        name
    }) + seq!['\n'] + "```"@ + lang + seq!['\n'] + (if b.2.len() > 0 {
        trim_end(b.2) + seq!['\n']
    } else {
        Seq::empty()
    }) + "```\n"@
}

/// The text of a list of blocks.
pub open spec fn render_blocks(bs: Seq<BlockV>) -> Seq<char>
    decreases bs.len(),
{
    if bs.len() == 0 {
        Seq::empty()
    } else {
        render_blocks(bs.drop_last()) + block_text(bs.len() - 1, bs.last())
    }
}

struct ScanState {
    out: Vec<CodeBlock>,
    pending: Option<Vec<char>>,
    in_fence: bool,
    lang: Vec<char>,
    buf: Vec<Vec<char>>,
}

impl ScanState {
    spec fn view(&self) -> BlockScan {
        BlockScan {
            out: blocks_view(self.out@),
            pending: match self.pending {
                Some(p) => Some(p@),
                None => None,
            },
            in_fence: self.in_fence,
            lang: self.lang@,
            buf: views(self.buf@),
        }
    }
}

fn heading_exec(t: &Vec<char>) -> (r: Option<Vec<char>>)
    ensures
        r is Some <==> heading(t@) is Some,
        r matches Some(h) ==> heading(t@) == Some(h@),
{
    match strip_prefix_exec(t, &chars_of("## ")) {
        Some(h) => Some(h),
        None => strip_prefix_exec(t, &chars_of("### ")),
    }
}

fn block_name_exec(pending: &Option<Vec<char>>, n: u128) -> (r: Vec<char>)
    ensures
        r@ == block_name(
            match pending {
                Some(p) => Some(p@),
                None => None,
            },
            n as nat,
        ),
{
    match pending {
        Some(p) => {
            if v_trim(p).len() > 0 {
                return p.clone();
            }
        },
        None => {},
    }
    concat(&chars_of("Block "), &fmt_u128(n))
}

fn step_exec(st: &mut ScanState, line: &Vec<char>)
    ensures
        final(st).view() == block_step(old(st).view(), line@),
{
    let l = v_trim_end(line);
    let t = v_trim(&l);
    if !st.in_fence {
        if let Some(h) = heading_exec(&t) {
            st.pending = Some(v_trim(&h));
            return;
        }
        if let Some(rest) = strip_prefix_exec(&t, &chars_of("```")) {
            st.in_fence = true;
            st.lang = v_trim(&rest);
            st.buf = Vec::new();
            proof {
                assert(views(st.buf@) =~= Seq::<Seq<char>>::empty());
            }
            return;
        }
    } else if eq(&t, &chars_of("```")) {
        let name = block_name_exec(&st.pending, st.out.len() as u128 + 1);
        let language = if v_trim(&st.lang).len() == 0 {
            chars_of("text")
        } else {
            v_trim(&st.lang)
        };
        let code = v_trim_end(&join_exec(&st.buf, &chars_of("\n")));
        let b = CodeBlock { name: string_of(&name), language: string_of(&language), code: string_of(&code) };
        let ghost old_out = st.out@;
        st.out.push(b);
        proof {
            assert(blocks_view(st.out@) =~= blocks_view(old_out).push(b@));
        }
        st.pending = None;
        st.in_fence = false;
        st.lang = Vec::new();
        st.buf = Vec::new();
        proof {
            assert(views(st.buf@) =~= Seq::<Seq<char>>::empty());
            assert(st.lang@ =~= Seq::<char>::empty());
        }
        return;
    } else {
        let ghost old_buf = st.buf@;
        st.buf.push(l);
        proof {
            assert(views(st.buf@) =~= views(old_buf).push(l@));
        }
    }
}

/// Reads the code-blocks format.
pub fn parse_code_blocks(src: &str) -> (r: Vec<CodeBlock>)
    ensures
        blocks_view(r@) == parse_blocks(src@),
{
    let s = chars_of(src);
    if v_trim(&s).len() == 0 {
        let b = CodeBlock {
            name: "Block 1".to_string(),
            language: "rust".to_string(),
            code: String::new(),
        };
        let out = vec![b];
        proof {
            assert(blocks_view(out@) =~= seq![("Block 1"@, "rust"@, Seq::<char>::empty())]);
        }
        return out;
    }
    let ls = lines_exec(&s);
    let mut st = ScanState {
        out: Vec::new(),
        pending: None,
        in_fence: false,
        lang: Vec::new(),
        buf: Vec::new(),
    };
    proof {
        assert(st.view().out =~= Seq::<BlockV>::empty());
        assert(st.view().buf =~= Seq::<Seq<char>>::empty());
        assert(st.view().lang =~= Seq::<char>::empty());
        assert(views(ls@).take(0) =~= Seq::<Seq<char>>::empty());
    }
    let mut i: usize = 0;
    while i < ls.len()
        invariant
            i <= ls.len(),
            views(ls@) == lines(s@),
            st.view() == block_scan(views(ls@).take(i as int)),
        decreases ls.len() - i,
    {
        proof {
            assert(views(ls@).take(i + 1).drop_last() =~= views(ls@).take(i as int));
        }
        step_exec(&mut st, &ls[i]);
        i = i + 1;
    }
    proof {
        assert(views(ls@).take(ls.len() as int) =~= views(ls@));
    }
    if st.out.len() == 0 {
        let name = block_name_exec(&st.pending, 1);
        let b = CodeBlock {
            name: string_of(&name),
            language: "text".to_string(),
            code: string_of(&v_trim_end(&s)),
        };
        let out = vec![b];
        proof {
            assert(blocks_view(out@) =~= seq![b@]);
        }
        return out;
    }
    st.out
}

/// Writes blocks in the code-blocks format.
pub fn render_code_blocks(blocks: &Vec<CodeBlock>) -> (r: String)
    ensures
        r@ == render_blocks(blocks_view(blocks@)),
{
    let mut out: Vec<char> = Vec::new();
    let mut i: usize = 0;
    while i < blocks.len()
        invariant
            i <= blocks.len(),
            out@ == render_blocks(blocks_view(blocks@).take(i as int)),
        decreases blocks.len() - i,
    {
        let b = &blocks[i];
        let ghost before = out@;
        if i > 0 {
            out.push('\n');
        }
        let name = v_trim(&chars_of(b.name.as_str()));
        append(&mut out, &chars_of("## "));
        if name.len() == 0 {
            append(&mut out, &chars_of("Block"));
        } else {
            append(&mut out, &name);
        }
        out.push('\n');
        append(&mut out, &chars_of("```"));
        let lang = v_trim(&chars_of(b.language.as_str()));
        append(&mut out, &lang);
        out.push('\n');
        let code = chars_of(b.code.as_str());
        if code.len() > 0 {
            append(&mut out, &v_trim_end(&code));
            out.push('\n');
        }
        append(&mut out, &chars_of("```\n"));
        proof {
            let bv = blocks_view(blocks@).take(i + 1);
            assert(bv.drop_last() =~= blocks_view(blocks@).take(i as int));
            assert(bv.last() == b@);
            assert(out@ =~= before + block_text(i as int, b@));
        }
        i = i + 1;
    }
    proof {
        assert(blocks_view(blocks@).take(blocks.len() as int) =~= blocks_view(blocks@));
    }
    string_of(&out)
}

// ---------------------------------------------------------------------
// Editing.

/// `b` differs from `a` at most in its mode.
pub open spec fn code_only_mode(a: CodeEditorState, b: CodeEditorState) -> bool {
    &&& b.form_field_index == a.form_field_index
    &&& b.blocks == a.blocks
    &&& b.block_cursor == a.block_cursor
}

/// The name a block added with `input` gets when there are `n` blocks.
pub open spec fn new_block_name(input: Seq<char>, n: nat) -> Seq<char> {
    if trim(input).len() == 0 {
        "Block "@ + dec(n + 1)
    } else {
        trim(input)
    }
}

/// The language set from `input`: `text` when it is blank.
pub open spec fn lang_of_input(input: Seq<char>) -> Seq<char> {
    if trim(input).len() == 0 {
        "text"@
    } else {
        trim(input)
    }
}

/// The blocks after confirming the prompt `m` over `bs` with the cursor
/// at `cur`.
pub open spec fn confirmed_blocks(m: CodeEditorMode, bs: Seq<BlockV>, cur: int) -> Seq<BlockV> {
    match m {
        CodeEditorMode::AddBlock { input } => bs.push(
            (new_block_name(input@, bs.len()), "rust"@, Seq::empty()),
        ),
        CodeEditorMode::RenameBlock { input } => if 0 <= cur < bs.len() && trim(input@).len()
            > 0 {
            bs.update(cur, (trim(input@), bs[cur].1, bs[cur].2))
        } else {
            bs
        },
        CodeEditorMode::EditLanguage { input } => if 0 <= cur < bs.len() {
            bs.update(cur, (bs[cur].0, lang_of_input(input@), bs[cur].2))
        } else {
            bs
        },
        CodeEditorMode::EditCode { editor } => if 0 <= cur < bs.len() {
            bs.update(cur, (bs[cur].0, bs[cur].1, trim_end(editor.value@)))
        } else {
            bs
        },
        CodeEditorMode::Browse => bs,
    }
}

/// The block list after deleting the block at `idx`: never empty, an
/// empty `Block 1` takes the place of the last one.
pub open spec fn blocks_after_delete(bs: Seq<BlockV>, idx: int) -> Seq<BlockV> {
    let rest = bs.remove(idx);
    if rest.len() == 0 {
        seq![("Block 1"@, "rust"@, Seq::empty())]
    } else {
        rest
    }
}

impl CodeEditorState {
    /// The code prompt's caret sits on a character boundary.
    pub open spec fn wf(&self) -> bool {
        match self.mode {
            CodeEditorMode::EditCode { editor } => editor.caret_ok(),
            _ => true,
        }
    }

    /// Moves the cursor around the ring of blocks, while browsing.
    pub fn move_block(&mut self, d: isize)
        ensures
            code_move_block_post(*old(self), *final(self), d),
    {
        if matches!(self.mode, CodeEditorMode::Browse) && self.blocks.len() > 0 {
            self.block_cursor = cycle_wrap(self.blocks.len(), self.block_cursor, d);
        }
    }

    /// Opens the prompt for the name of a new block.
    pub fn start_add_block(&mut self)
        ensures
            code_start_add_block_post(*old(self), *final(self)),
    {
        self.mode = CodeEditorMode::AddBlock { input: String::new() };
    }

    /// Opens the prompt for a new name of the current block, holding its
    /// name.
    pub fn start_rename_block(&mut self)
        ensures
            code_start_rename_block_post(*old(self), *final(self)),
    {
        let current = if self.block_cursor < self.blocks.len() {
            copy_string(&self.blocks[self.block_cursor].name)
        } else {
            String::new()
        };
        self.mode = CodeEditorMode::RenameBlock { input: current };
    }

    /// Opens the prompt for the language of the current block, holding
    /// its language.
    pub fn start_edit_language(&mut self)
        ensures
            code_start_edit_language_post(*old(self), *final(self)),
    {
        let current = if self.block_cursor < self.blocks.len() {
            copy_string(&self.blocks[self.block_cursor].language)
        } else {
            String::new()
        };
        self.mode = CodeEditorMode::EditLanguage { input: current };
    }

    /// Opens the multi-line editor on the code of the current block,
    /// with the caret at its end.
    pub fn start_edit_code(&mut self)
        ensures
            code_start_edit_code_post(*old(self), *final(self)),
    {
        let current = if self.block_cursor < self.blocks.len() {
            copy_string(&self.blocks[self.block_cursor].code)
        } else {
            String::new()
        };
        let editor = FormField::plain("Code", current.as_str(), false, true);
        proof {
            reveal_strlit("Code");
        }
        self.mode = CodeEditorMode::EditCode { editor };
    }

    /// Types `c` into the open prompt or code editor.
    pub fn input_char(&mut self, c: char)
        requires
            old(self).wf(),
        ensures
            code_input_char_post(*old(self), *final(self), c),
    {
        match &mut self.mode {
            CodeEditorMode::AddBlock { input } => push_char(input, c),
            CodeEditorMode::RenameBlock { input } => push_char(input, c),
            CodeEditorMode::EditLanguage { input } => push_char(input, c),
            CodeEditorMode::EditCode { editor } => editor.insert_char(c),
            CodeEditorMode::Browse => {},
        }
    }

    /// Deletes the last character of the open prompt, or the character
    /// before the code editor's caret.
    pub fn backspace(&mut self)
        requires
            old(self).wf(),
        ensures
            code_backspace_post(*old(self), *final(self)),
    {
        match &mut self.mode {
            CodeEditorMode::AddBlock { input } => {
                pop_char(input);
            },
            CodeEditorMode::RenameBlock { input } => {
                pop_char(input);
            },
            CodeEditorMode::EditLanguage { input } => {
                pop_char(input);
            },
            CodeEditorMode::EditCode { editor } => editor.backspace(),
            CodeEditorMode::Browse => {},
        }
    }

    /// Moves the code editor's caret; nothing in the other modes.
    pub fn move_caret(&mut self, m: CaretMove)
        requires
            old(self).wf(),
        ensures
            code_move_caret_post(*old(self), *final(self), m),
    {
        match &mut self.mode {
            CodeEditorMode::EditCode { editor } => editor.move_caret(m),
            _ => {},
        }
    }

    /// Applies the open prompt and returns to browsing: a new block
    /// after the last, a new name (unless blank), a new language
    /// (`text` when blank) or new code (without trailing white space)
    /// for the current block.
    pub fn confirm(&mut self)
        ensures
            code_confirm_post(*old(self), *final(self)),
    {
        let mut mode = CodeEditorMode::Browse;
        std::mem::swap(&mut mode, &mut self.mode);
        let ghost bs = blocks_view(self.blocks@);
        let cur = self.block_cursor;
        match mode {
            CodeEditorMode::AddBlock { input } => {
                let t = v_trim(&chars_of(input.as_str()));
                let name = if t.len() == 0 {
                    string_of(&concat(&chars_of("Block "), &fmt_u128(self.blocks.len() as u128 + 1)))
                } else {
                    string_of(&t)
                };
                proof {
                    reveal_strlit("Block ");
                    reveal_strlit("rust");
                }
                self.blocks.push(CodeBlock { name, language: "rust".to_string(), code: String::new() });
                self.block_cursor = self.blocks.len() - 1;
                proof {
                    assert(blocks_view(self.blocks@) =~= confirmed_blocks(mode, bs, cur as int));
                }
            },
            CodeEditorMode::RenameBlock { input } => {
                let t = v_trim(&chars_of(input.as_str()));
                if cur < self.blocks.len() && t.len() > 0 {
                    let mut b = self.blocks.remove(cur);
                    b.name = string_of(&t);
                    self.blocks.insert(cur, b);
                    proof {
                        assert(blocks_view(self.blocks@) =~= confirmed_blocks(mode, bs, cur as int));
                    }
                }
            },
            CodeEditorMode::EditLanguage { input } => {
                if cur < self.blocks.len() {
                    let t = v_trim(&chars_of(input.as_str()));
                    let lang = if t.len() == 0 {
                        proof {
                            reveal_strlit("text");
                        }
                        "text".to_string()
                    } else {
                        string_of(&t)
                    };
                    let mut b = self.blocks.remove(cur);
                    b.language = lang;
                    self.blocks.insert(cur, b);
                    proof {
                        assert(blocks_view(self.blocks@) =~= confirmed_blocks(mode, bs, cur as int));
                    }
                }
            },
            CodeEditorMode::EditCode { editor } => {
                if cur < self.blocks.len() {
                    let code = string_of(&v_trim_end(&chars_of(editor.value.as_str())));
                    let mut b = self.blocks.remove(cur);
                    b.code = code;
                    self.blocks.insert(cur, b);
                    proof {
                        assert(blocks_view(self.blocks@) =~= confirmed_blocks(mode, bs, cur as int));
                    }
                }
            },
            CodeEditorMode::Browse => {},
        }
    }

    /// Deletes the current block while browsing; an empty `Block 1`
    /// replaces the last one.
    pub fn delete_block(&mut self)
        ensures
            code_delete_block_post(*old(self), *final(self)),
    {
        if !matches!(self.mode, CodeEditorMode::Browse) || self.blocks.len() == 0 {
            return;
        }
        let ghost bs = blocks_view(self.blocks@);
        let idx = if self.block_cursor < self.blocks.len() {
            self.block_cursor
        } else {
            self.blocks.len() - 1
        };
        self.blocks.remove(idx);
        if self.blocks.len() == 0 {
            proof {
                reveal_strlit("Block 1");
                reveal_strlit("rust");
            }
            self.blocks.push(
                CodeBlock {
                    name: "Block 1".to_string(),
                    language: "rust".to_string(),
                    code: String::new(),
                },
            );
        }
        proof {
            assert(blocks_view(self.blocks@) =~= blocks_after_delete(bs, idx as int));
        }
        if self.block_cursor >= self.blocks.len() {
            self.block_cursor = self.blocks.len() - 1;
        }
    }
}

/// `b` is `a` after `move_block`.
pub open spec fn code_move_block_post(a: CodeEditorState, b: CodeEditorState, d: isize) -> bool {
    &&& (if a.mode is Browse && a.blocks.len() > 0 {
                b == (CodeEditorState {
                    block_cursor: wrap_index(
                        a.blocks.len() as int,
                        a.block_cursor as int,
                        d as int,
                    ) as usize,
                    ..a
                })
            } else {
                b == a
            })
}

/// `b` is `a` after `start_add_block`.
pub open spec fn code_start_add_block_post(a: CodeEditorState, b: CodeEditorState) -> bool {
    &&& (code_only_mode(a, b))
    &&& (b.mode matches CodeEditorMode::AddBlock { input } && input@.len() == 0)
}

/// `b` is `a` after `start_rename_block`.
pub open spec fn code_start_rename_block_post(a: CodeEditorState, b: CodeEditorState) -> bool {
    &&& (code_only_mode(a, b))
    &&& (b.mode matches CodeEditorMode::RenameBlock { input } && input@ == (
            if a.block_cursor < a.blocks.len() {
                a.blocks@[a.block_cursor as int].name@
            } else {
                Seq::empty()
            }))
}

/// `b` is `a` after `start_edit_language`.
pub open spec fn code_start_edit_language_post(a: CodeEditorState, b: CodeEditorState) -> bool {
    &&& (code_only_mode(a, b))
    &&& (b.mode matches CodeEditorMode::EditLanguage { input } && input@ == (
            if a.block_cursor < a.blocks.len() {
                a.blocks@[a.block_cursor as int].language@
            } else {
                Seq::empty()
            }))
}

/// `b` is `a` after `start_edit_code`.
pub open spec fn code_start_edit_code_post(a: CodeEditorState, b: CodeEditorState) -> bool {
    &&& (code_only_mode(a, b))
    &&& (b.mode matches CodeEditorMode::EditCode { editor } && {
                &&& editor.value@ == (if a.block_cursor < a.blocks.len() {
                    a.blocks@[a.block_cursor as int].code@
                } else {
                    Seq::empty()
                })
                &&& editor.label@ == "Code"@
                &&& !editor.required
                &&& editor.multiline
                &&& editor.caret == byte_len(editor.value@)
                &&& editor.field_id is None
                &&& editor.kind is None
                &&& editor.options@.len() == 0
            })
    &&& (b.wf())
}

/// `b` is `a` after `input_char`.
pub open spec fn code_input_char_post(a: CodeEditorState, b: CodeEditorState, c: char) -> bool {
    &&& (code_only_mode(a, b))
    &&& (b.wf())
    &&& (match (a.mode, b.mode) {
                (CodeEditorMode::AddBlock { input: a }, CodeEditorMode::AddBlock { input: b }) => b@
                    == a@.push(c),
                (
                    CodeEditorMode::RenameBlock { input: a },
                    CodeEditorMode::RenameBlock { input: b },
                ) => b@ == a@.push(c),
                (
                    CodeEditorMode::EditLanguage { input: a },
                    CodeEditorMode::EditLanguage { input: b },
                ) => b@ == a@.push(c),
                (CodeEditorMode::EditCode { editor: a }, CodeEditorMode::EditCode { editor: b }) => typed(
                    a,
                    c,
                    b,
                ),
                (CodeEditorMode::Browse, CodeEditorMode::Browse) => true,
                _ => false,
            })
}

/// `b` is `a` after `backspace`.
pub open spec fn code_backspace_post(a: CodeEditorState, b: CodeEditorState) -> bool {
    &&& (code_only_mode(a, b))
    &&& (b.wf())
    &&& (match (a.mode, b.mode) {
                (CodeEditorMode::AddBlock { input: a }, CodeEditorMode::AddBlock { input: b }) => b@
                    == (if a@.len() > 0 { a@.drop_last() } else { a@ }),
                (
                    CodeEditorMode::RenameBlock { input: a },
                    CodeEditorMode::RenameBlock { input: b },
                ) => b@ == (if a@.len() > 0 { a@.drop_last() } else { a@ }),
                (
                    CodeEditorMode::EditLanguage { input: a },
                    CodeEditorMode::EditLanguage { input: b },
                ) => b@ == (if a@.len() > 0 { a@.drop_last() } else { a@ }),
                (CodeEditorMode::EditCode { editor: a }, CodeEditorMode::EditCode { editor: b }) => erased(
                    a,
                    b,
                ),
                (CodeEditorMode::Browse, CodeEditorMode::Browse) => true,
                _ => false,
            })
}

/// `b` is `a` after `move_caret`.
pub open spec fn code_move_caret_post(a: CodeEditorState, b: CodeEditorState, m: CaretMove) -> bool {
    &&& (code_only_mode(a, b))
    &&& (b.wf())
    &&& (match (a.mode, b.mode) {
                (CodeEditorMode::EditCode { editor: a }, CodeEditorMode::EditCode { editor: b }) => moved(
                    a,
                    m,
                    b,
                ),
                (a, b) => !(a is EditCode) && b == a,
            })
}

/// `b` is `a` after `confirm`.
pub open spec fn code_confirm_post(a: CodeEditorState, b: CodeEditorState) -> bool {
    &&& (b.form_field_index == a.form_field_index)
    &&& (b.mode is Browse)
    &&& (blocks_view(b.blocks@) == confirmed_blocks(
                a.mode,
                blocks_view(a.blocks@),
                a.block_cursor as int,
            ))
    &&& (b.block_cursor == if a.mode is AddBlock {
                a.blocks.len() as int
            } else {
                a.block_cursor as int
            })
}

/// `b` is `a` after `delete_block`.
pub open spec fn code_delete_block_post(a: CodeEditorState, b: CodeEditorState) -> bool {
    &&& (if a.mode is Browse && a.blocks.len() > 0 {
                let idx = if a.block_cursor < a.blocks.len() {
                    a.block_cursor as int
                } else {
                    a.blocks.len() - 1
                };
                &&& blocks_view(b.blocks@) == blocks_after_delete(
                    blocks_view(a.blocks@),
                    idx,
                )
                &&& b.block_cursor == if a.block_cursor < b.blocks.len() {
                    a.block_cursor as int
                } else {
                    b.blocks.len() - 1
                }
                &&& b.mode == a.mode
                &&& b.form_field_index == a.form_field_index
            } else {
                b == a
            })
}


// ---------------------------------------------------------------------
// Reading back what was written.

/// `s` holds no newline.
pub open spec fn one_line(s: Seq<char>) -> bool {
    forall|k: int| 0 <= k < s.len() ==> s[k] != '\n'
}

/// A block that the format writes and reads back as it is: a name and a
/// language that are single trimmed non-empty lines, and code with no
/// carriage return and no trailing whitespace, none of whose lines has
/// trailing whitespace or is a bare fence.
pub open spec fn block_ok(b: BlockV) -> bool {
    &&& b.0.len() > 0 && trim(b.0) == b.0 && one_line(b.0)
    &&& b.1.len() > 0 && trim(b.1) == b.1 && one_line(b.1)
    &&& trim_end(b.2) == b.2
    &&& forall|k: int| 0 <= k < b.2.len() ==> b.2[k] != '\r'
    &&& forall|k: int|
        0 <= k < lines(b.2).len() ==> trim_end(#[trigger] lines(b.2)[k]) == lines(b.2)[k] && trim(
            lines(b.2)[k],
        ) != "```"@
}

/// The scan with every block closed and nothing pending.
pub open spec fn closed(out: Seq<BlockV>) -> BlockScan {
    BlockScan { out, pending: None, in_fence: false, lang: Seq::empty(), buf: Seq::empty() }
}

/// The scan from `st` over the lines `ls`.
pub open spec fn scan_from(st: BlockScan, ls: Seq<Seq<char>>) -> BlockScan
    decreases ls.len(),
{
    if ls.len() == 0 {
        st
    } else {
        block_step(scan_from(st, ls.drop_last()), ls.last())
    }
}

proof fn lemma_scan_concat(st: BlockScan, a: Seq<Seq<char>>, b: Seq<Seq<char>>)
    ensures
        scan_from(st, a + b) == scan_from(scan_from(st, a), b),
    decreases b.len(),
{
    if b.len() == 0 {
        assert(a + b =~= a);
    } else {
        assert((a + b).drop_last() =~= a + b.drop_last());
        assert((a + b).last() == b.last());
        lemma_scan_concat(st, a, b.drop_last());
    }
}

proof fn lemma_block_scan_from(ls: Seq<Seq<char>>)
    ensures
        block_scan(ls) == scan_from(closed(Seq::empty()), ls),
    decreases ls.len(),
{
    if ls.len() > 0 {
        lemma_block_scan_from(ls.drop_last());
    }
}

/// The lines the format writes for the `i`-th block.
pub open spec fn block_lines(i: int, b: BlockV) -> Seq<Seq<char>> {
    (if i > 0 {
        seq![Seq::<char>::empty()]
    } else {
        Seq::empty()
    }) + seq!["## "@ + b.0, "```"@ + b.1] + lines(b.2) + seq!["```"@]
}

proof fn lemma_block_text_lines(i: int, b: BlockV)
    requires
        block_ok(b),
    ensures
        lines(block_text(i, b)) == block_lines(i, b),
{
    reveal_strlit("## ");
    reveal_strlit("```");
    reveal_strlit("```\n");
    let nl = seq!['\n'];
    let p0: Seq<char> = if i > 0 {
        nl
    } else {
        Seq::empty()
    };
    let h = "## "@ + b.0;
    let f = "```"@ + b.1;
    let p1 = h + nl;
    let p2 = f + nl;
    let p3: Seq<char> = if b.2.len() > 0 {
        trim_end(b.2) + nl
    } else {
        Seq::empty()
    };
    let p4 = "```"@ + nl;
    lemma_trimmed_ends(b.0);
    lemma_trimmed_ends(b.1);
    assert(trim(b.0) == b.0);
    assert(block_text(i, b) =~= p0 + (p1 + (p2 + (p3 + p4))));
    assert forall|k: int| 0 <= k < h.len() implies h[k] != '\n' by {
        if k >= 3 {
            assert(h[k] == b.0[k - 3]);
        }
    }
    assert forall|k: int| 0 <= k < f.len() implies f[k] != '\n' by {
        if k >= 3 {
            assert(f[k] == b.1[k - 3]);
        }
    }
    assert(h.last() == b.0.last());
    assert(f.last() == b.1.last());
    lemma_find_no_nl(h);
    lemma_find_no_nl(f);
    lemma_find_no_nl("```"@);
    lemma_lines_one(h);
    lemma_lines_one(f);
    lemma_lines_one("```"@);
    assert(p4.last() == '\n');
    assert(p2.last() == '\n');
    assert(p1.last() == '\n');
    let l3: Seq<Seq<char>> = if b.2.len() > 0 {
        lines(b.2)
    } else {
        Seq::empty()
    };
    if b.2.len() > 0 {
        lemma_end_trimmed(b.2);
        lemma_lines_newline_end(b.2);
        assert(p3.last() == '\n');
        lemma_lines_append(p3, p4);
        assert(lines(p3 + p4) == l3 + seq!["```"@]);
    } else {
        assert(p3 + p4 =~= p4);
        assert(lines(b.2) =~= Seq::<Seq<char>>::empty());
    }
    lemma_lines_append(p2, p3 + p4);
    lemma_lines_append(p1, p2 + (p3 + p4));
    if i > 0 {
        lemma_find_no_nl(Seq::<char>::empty());
        lemma_lines_one(Seq::<char>::empty());
        assert(Seq::<char>::empty() + nl =~= nl);
        lemma_lines_append(p0, p1 + (p2 + (p3 + p4)));
    } else {
        assert(p0 + (p1 + (p2 + (p3 + p4))) =~= p1 + (p2 + (p3 + p4)));
    }
    assert(lines(block_text(i, b)) =~= block_lines(i, b));
}

proof fn lemma_code_lines(st: BlockScan, ls: Seq<Seq<char>>)
    requires
        st.in_fence,
        forall|k: int|
            0 <= k < ls.len() ==> trim_end(#[trigger] ls[k]) == ls[k] && trim(ls[k]) != "```"@,
    ensures
        scan_from(st, ls) == (BlockScan { buf: st.buf + ls, ..st }),
    decreases ls.len(),
{
    if ls.len() == 0 {
        assert(st.buf + ls =~= st.buf);
    } else {
        let d = ls.drop_last();
        assert forall|k: int| 0 <= k < d.len() implies trim_end(#[trigger] d[k]) == d[k] && trim(
            d[k],
        ) != "```"@ by {
            assert(d[k] == ls[k]);
        }
        lemma_code_lines(st, d);
        let k = ls.len() - 1;
        assert(ls[k] == ls.last());
        assert(trim_end(ls[k]) == ls[k]);
        assert(trim(ls[k]) != "```"@);
        let mid = BlockScan { buf: st.buf + d, ..st };
        assert(block_step(mid, ls.last()) == BlockScan { buf: (st.buf + d).push(ls.last()), ..st });
        assert((st.buf + d).push(ls.last()) =~= st.buf + ls);
    }
}

proof fn lemma_block_scan_step(out: Seq<BlockV>, i: int, b: BlockV)
    requires
        block_ok(b),
    ensures
        scan_from(closed(out), block_lines(i, b)) == closed(out.push(b)),
{
    reveal_strlit("## ");
    reveal_strlit("### ");
    reveal_strlit("```");
    let e = Seq::<char>::empty();
    let h = "## "@ + b.0;
    let f = "```"@ + b.1;
    let pre: Seq<Seq<char>> = if i > 0 {
        seq![e]
    } else {
        Seq::empty()
    };
    let st0 = closed(out);
    lemma_trimmed_ends(b.0);
    lemma_trimmed_ends(b.1);
    // The blank separator changes nothing.
    if i > 0 {
        assert(trim_end(e) =~= e);
        assert(trim(e) =~= e);
        assert(heading(e) is None);
        assert(strip_prefix(e, "```"@) is None);
        assert(pre.drop_last() =~= Seq::<Seq<char>>::empty());
        assert(pre.last() == e);
        assert(scan_from(st0, pre) == block_step(scan_from(st0, pre.drop_last()), e));
    }
    assert(scan_from(st0, pre) == st0);
    // The heading.
    assert(h[0] == '#');
    assert(h.last() == b.0.last());
    lemma_unpadded(h);
    assert(has_prefix(h, "## "@)) by {
        assert(h.take(3) =~= "## "@);
    }
    assert(h.skip(3) =~= b.0);
    let st1 = BlockScan { pending: Some(b.0), ..st0 };
    assert(block_step(st0, h) == st1);
    // The opening fence.
    assert(f[0] == '`');
    assert(f.last() == b.1.last());
    lemma_unpadded(f);
    assert(!has_prefix(f, "## "@)) by {
        assert(f.take(3)[0] == '`');
    }
    assert(!has_prefix(f, "### "@)) by {
        if f.len() >= 4 {
            assert(f.take(4)[0] == '`');
        }
    }
    assert(has_prefix(f, "```"@)) by {
        assert(f.take(3) =~= "```"@);
    }
    assert(f.skip(3) =~= b.1);
    let st2 = BlockScan { in_fence: true, lang: b.1, buf: Seq::empty(), ..st1 };
    assert(block_step(st1, f) == st2);
    // The code.
    lemma_code_lines(st2, lines(b.2));
    let st3 = BlockScan { buf: lines(b.2), ..st2 };
    assert(Seq::<Seq<char>>::empty() + lines(b.2) =~= lines(b.2));
    assert(scan_from(st2, lines(b.2)) == st3);
    // The closing fence.
    reveal_strlit("\n");
    assert("\n"@ =~= seq!['\n']);
    if b.2.len() > 0 {
        lemma_end_trimmed(b.2);
    }
    lemma_join_lines(b.2);
    assert(trim_end("```"@) =~= "```"@) by {
        lemma_unpadded("```"@);
    }
    assert(trim("```"@) =~= "```"@) by {
        lemma_unpadded("```"@);
    }
    assert(block_name(Some(b.0), out.len() + 1) == b.0);
    assert(block_lang(b.1) == b.1);
    assert(block_step(st3, "```"@) == closed(out.push(b)));
    // All together.
    let ls = block_lines(i, b);
    assert(ls =~= pre + seq![h] + seq![f] + lines(b.2) + seq!["```"@]);
    lemma_scan_concat(st0, pre, seq![h]);
    lemma_scan_one(st0, h);
    lemma_scan_concat(st0, pre + seq![h], seq![f]);
    lemma_scan_one(st1, f);
    lemma_scan_concat(st0, pre + seq![h] + seq![f], lines(b.2));
    lemma_scan_concat(st0, pre + seq![h] + seq![f] + lines(b.2), seq!["```"@]);
    lemma_scan_one(st3, "```"@);
}

proof fn lemma_scan_one(st: BlockScan, l: Seq<char>)
    ensures
        scan_from(st, seq![l]) == block_step(st, l),
{
    assert(seq![l].drop_last() =~= Seq::<Seq<char>>::empty());
    assert(seq![l].last() == l);
    assert(scan_from(st, Seq::<Seq<char>>::empty()) == st);
}

proof fn lemma_render_scan(bs: Seq<BlockV>)
    requires
        forall|k: int| 0 <= k < bs.len() ==> block_ok(#[trigger] bs[k]),
    ensures
        block_scan(lines(render_blocks(bs))) == closed(bs),
        bs.len() > 0 ==> render_blocks(bs).len() >= 2 && render_blocks(bs).last() == '\n'
            && render_blocks(bs)[render_blocks(bs).len() - 2] == '`',
    decreases bs.len(),
{
    reveal_strlit("```\n");
    if bs.len() == 0 {
        assert(bs =~= Seq::<BlockV>::empty());
        assert(render_blocks(bs) =~= Seq::<char>::empty());
        assert(lines(Seq::<char>::empty()) =~= Seq::<Seq<char>>::empty());
        assert(block_scan(Seq::<Seq<char>>::empty()) == closed(Seq::empty()));
    } else {
        let n = bs.len() - 1;
        let prev = bs.drop_last();
        assert forall|k: int| 0 <= k < prev.len() implies block_ok(#[trigger] prev[k]) by {
            assert(prev[k] == bs[k]);
        }
        lemma_render_scan(prev);
        let b = bs.last();
        assert(block_ok(bs[n]));
        lemma_block_text_lines(n, b);
        let rp = render_blocks(prev);
        let t = block_text(n, b);
        if prev.len() > 0 {
            lemma_lines_append(rp, t);
        } else {
            assert(rp =~= Seq::<char>::empty());
            assert(rp + t =~= t);
            assert(lines(rp) =~= Seq::<Seq<char>>::empty());
        }
        assert(lines(rp + t) =~= lines(rp) + block_lines(n, b));
        lemma_block_scan_from(lines(rp));
        lemma_block_scan_from(lines(rp) + block_lines(n, b));
        lemma_scan_concat(closed(Seq::empty()), lines(rp), block_lines(n, b));
        lemma_block_scan_step(prev, n, b);
        assert(prev.push(b) =~= bs);
        assert(block_scan(lines(rp)) == closed(prev));
        assert(block_scan(lines(rp) + block_lines(n, b)) == closed(bs));
        let suffix = "```\n"@;
        assert(t =~= (t.take(t.len() - 4) + suffix));
        assert(render_blocks(bs) == rp + t);
        assert((rp + t).last() == t.last());
        assert((rp + t)[(rp + t).len() - 2] == t[t.len() - 2]);
    }
}

/// What the format writes of well-formed blocks reads back as the same
/// blocks.
pub proof fn lemma_code_blocks_roundtrip(bs: Seq<BlockV>)
    requires
        bs.len() > 0,
        forall|k: int| 0 <= k < bs.len() ==> block_ok(#[trigger] bs[k]),
    ensures
        parse_blocks(render_blocks(bs)) == bs,
{
    lemma_render_scan(bs);
    let src = render_blocks(bs);
    let k = src.len() - 2;
    assert(!is_ws(src[k]));
    lemma_trim_nonblank(src, k);
}

} // verus!

//! The code-block extractor.
//!
//! Assistant markdown is read line by line.  A blockquote line reading
//! `execute` (case-insensitive) or `save:` followed by a back-quoted file
//! name arms the extractor; the next fenced code block is then taken, with
//! its info string mapped to a language.  Unannotated code blocks are
//! ignored, and other lines leave the armed state untouched.

use vstd::prelude::*;

use crate::strutil::{
    chars_eq_str, chars_starts_with_str, chars_suffix, chars_to_string, lower_chars, lower_seq,
    spec_trim, str_to_chars, trim_chars,
};

verus! {

/// The language of a fenced code block, from its info string.
#[derive(Debug, Clone, Copy, PartialEq, Eq, Structural)]
pub enum Language {
    /// No info string.
    Unknown,
    Shell,
    Markdown,
    Python,
    Other,
}

/// What an annotation asks for.
#[derive(Debug, Clone, Copy, PartialEq, Eq, Structural)]
pub enum CodeBlockAction {
    DoNothing,
    Execute,
    Save,
}

/// One extracted code block.
#[derive(Debug, Clone)]
pub struct CodeBlock {
    pub code: String,
    pub language: Language,
    pub filename: Option<String>,
    pub action: CodeBlockAction,
}

/// The view of an extracted code block.
pub ghost struct CodeBlockView {
    pub code: Seq<char>,
    pub language: Language,
    pub filename: Option<Seq<char>>,
    pub action: CodeBlockAction,
}

impl View for CodeBlock {
    type V = CodeBlockView;

    open spec fn view(&self) -> CodeBlockView {
        CodeBlockView {
            code: self.code@,
            language: self.language,
            filename: match self.filename {
                Some(ref f) => Some(f@),
                None => None,
            },
            action: self.action,
        }
    }
}

/// The views of a sequence of code blocks.
pub open spec fn code_block_views(s: Seq<CodeBlock>) -> Seq<CodeBlockView> {
    s.map_values(|b: CodeBlock| b@)
}

/// The language an info string names, after ASCII lower-casing.
pub open spec fn spec_language(s: Seq<char>) -> Language {
    let l = lower_seq(s);
    if l == "sh"@ || l == "shell"@ {
        Language::Shell
    } else if l == "markdown"@ || l == "md"@ {
        Language::Markdown
    } else if l == "python"@ {
        Language::Python
    } else if l.len() == 0 {
        Language::Unknown
    } else {
        Language::Other
    }
}

/// The language an info string names.
pub fn language_from(v: &Vec<char>) -> (r: Language)
    ensures
        r == spec_language(v@),
{
    let l = lower_chars(v);
    if chars_eq_str(&l, "sh") || chars_eq_str(&l, "shell") {
        Language::Shell
    } else if chars_eq_str(&l, "markdown") || chars_eq_str(&l, "md") {
        Language::Markdown
    } else if chars_eq_str(&l, "python") {
        Language::Python
    } else if l.len() == 0 {
        Language::Unknown
    } else {
        Language::Other
    }
}

/// The text split at newlines, `acc` being the line under way; every text
/// has one more line than it has newlines.
pub open spec fn split_acc(s: Seq<char>, acc: Seq<char>) -> Seq<Seq<char>>
    decreases s.len(),
{
    if s.len() == 0 {
        seq![acc]
    } else if s[0] == '\n' {
        seq![acc] + split_acc(s.subrange(1, s.len() as int), Seq::empty())
    } else {
        split_acc(s.subrange(1, s.len() as int), acc.push(s[0]))
    }
}

/// The lines of a text.
pub open spec fn spec_lines(s: Seq<char>) -> Seq<Seq<char>> {
    split_acc(s, Seq::empty())
}

/// The extractor's state between lines.
pub ghost struct PState {
    /// What the last matching annotation asked for.
    pub pending: CodeBlockAction,
    /// The file name of a pending save annotation.
    pub filename: Option<Seq<char>>,
    /// Whether a fenced block is open.
    pub in_code: bool,
    /// The open block's language.
    pub language: Language,
    /// The open block's code so far.
    pub code: Seq<char>,
    /// Whether the open block holds at least one line.
    pub code_started: bool,
}

/// The state the extractor starts in.
pub open spec fn init_pstate() -> PState {
    PState {
        pending: CodeBlockAction::DoNothing,
        filename: None,
        in_code: false,
        language: Language::Unknown,
        code: Seq::empty(),
        code_started: false,
    }
}

/// The block an armed, open state closes into.
pub open spec fn block_of(st: PState) -> CodeBlockView {
    CodeBlockView {
        code: st.code,
        language: st.language,
        filename: st.filename,
        action: st.pending,
    }
}

/// One step of the extractor, and what it emits.
pub ghost struct StepResult {
    pub st: PState,
    pub out: Seq<CodeBlockView>,
}

/// How one line moves the extractor.
pub open spec fn step_line(st: PState, l: Seq<char>) -> StepResult {
    let t = spec_trim(l);
    if st.in_code {
        if t == "```"@ {
            StepResult {
                st: PState {
                    pending: CodeBlockAction::DoNothing,
                    filename: None,
                    in_code: false,
                    language: Language::Unknown,
                    code: Seq::empty(),
                    code_started: false,
                },
                out: if st.pending != CodeBlockAction::DoNothing {
                    seq![block_of(st)]
                } else {
                    Seq::empty()
                },
            }
        } else {
            StepResult {
                st: PState {
                    code: if st.code_started {
                        st.code + seq!['\n'] + l
                    } else {
                        l
                    },
                    code_started: true,
                    ..st
                },
                out: Seq::empty(),
            }
        }
    } else if t.len() >= 3 && t.subrange(0, 3) == "```"@ {
        StepResult {
            st: PState {
                in_code: true,
                language: spec_language(spec_trim(t.subrange(3, t.len() as int))),
                code: Seq::empty(),
                code_started: false,
                ..st
            },
            out: Seq::empty(),
        }
    } else if t.len() >= 1 && t[0] == '>' {
        let rest = spec_trim(t.subrange(1, t.len() as int));
        if lower_seq(rest) == "execute"@ {
            StepResult {
                st: PState { pending: CodeBlockAction::Execute, filename: None, ..st },
                out: Seq::empty(),
            }
        } else if rest.len() >= 5 && lower_seq(rest.subrange(0, 5)) == "save:"@ {
            let f = spec_trim(rest.subrange(5, rest.len() as int));
            if f.len() >= 2 && f[0] == '`' && f[f.len() - 1] == '`' {
                StepResult {
                    st: PState {
                        pending: CodeBlockAction::Save,
                        filename: Some(f.subrange(1, f.len() - 1)),
                        ..st
                    },
                    out: Seq::empty(),
                }
            } else {
                StepResult { st, out: Seq::empty() }
            }
        } else {
            StepResult { st, out: Seq::empty() }
        }
    } else {
        StepResult { st, out: Seq::empty() }
    }
}

/// Runs the extractor over a list of lines.
pub open spec fn run_lines(lines: Seq<Seq<char>>, st: PState) -> StepResult
    decreases lines.len(),
{
    if lines.len() == 0 {
        StepResult { st, out: Seq::empty() }
    } else {
        let first = step_line(st, lines.first());
        let rest = run_lines(lines.drop_first(), first.st);
        StepResult { st: rest.st, out: first.out + rest.out }
    }
}

/// What closes at the end of the text: an unclosed, armed fence still
/// yields its block.
pub open spec fn eof_emit(st: PState) -> Seq<CodeBlockView> {
    if st.in_code && st.pending != CodeBlockAction::DoNothing {
        seq![block_of(st)]
    } else {
        Seq::empty()
    }
}

/// The info-string token a language renders back to.
pub open spec fn spec_language_token(l: Language) -> Seq<char> {
    match l {
        Language::Unknown => Seq::<char>::empty(),
        Language::Shell => "sh"@,
        Language::Markdown => "markdown"@,
        Language::Python => "python"@,
        Language::Other => "text"@,
    }
}

/// The info-string token a language renders back to.
pub fn language_token(l: Language) -> (r: &'static str)
    ensures
        r@ == spec_language_token(l),
{
    proof {
        reveal_strlit("");
        assert(""@ =~= Seq::<char>::empty());
    }
    match l {
        Language::Unknown => "",
        Language::Shell => "sh",
        Language::Markdown => "markdown",
        Language::Python => "python",
        Language::Other => "text",
    }
}

/// The annotation line of a block: `> execute`, or `> save:` with the
/// back-quoted file name; an unannotated block renders no annotation.
pub open spec fn spec_annotation(b: CodeBlockView) -> Seq<char> {
    match b.action {
        CodeBlockAction::Execute => "> execute"@,
        CodeBlockAction::Save => "> save: `"@ + (match b.filename {
            Some(f) => f,
            None => Seq::<char>::empty(),
        }) + "`"@,
        CodeBlockAction::DoNothing => Seq::<char>::empty(),
    }
}

/// The canonical rendering of one block: the annotation line, then the
/// fenced code with its language token, then a blank line.
pub open spec fn spec_render_block(b: CodeBlockView) -> Seq<char> {
    spec_annotation(b) + "\n```"@ + spec_language_token(b.language) + "\n"@ + b.code + "\n```\n\n"@
}

/// The canonical rendering of a block list.
pub open spec fn spec_render_blocks(bs: Seq<CodeBlockView>) -> Seq<char>
    decreases bs.len(),
{
    if bs.len() == 0 {
        Seq::<char>::empty()
    } else {
        spec_render_blocks(bs.drop_last()) + spec_render_block(bs.last())
    }
}

/// Renders blocks in the canonical form the extractor reads back.
pub fn render_blocks(blocks: &Vec<CodeBlock>) -> (r: String)
    ensures
        r@ == spec_render_blocks(code_block_views(blocks@)),
{
    let mut out = String::new();
    let mut i: usize = 0;
    proof {
        assert(code_block_views(blocks@).subrange(0, 0) =~= Seq::<CodeBlockView>::empty());
    }
    while i < blocks.len()
        invariant
            0 <= i <= blocks@.len(),
            out@ == spec_render_blocks(code_block_views(blocks@).subrange(0, i as int)),
        decreases blocks@.len() - i,
    {
        let ghost pre = code_block_views(blocks@).subrange(0, i as int);
        let b = &blocks[i];
        match b.action {
            CodeBlockAction::Execute => {
                out.append("> execute");
            },
            CodeBlockAction::Save => {
                out.append("> save: `");
                match b.filename {
                    Some(ref f) => {
                        out.append(f.as_str());
                    },
                    None => {},
                }
                out.append("`");
            },
            CodeBlockAction::DoNothing => {},
        }
        out.append("\n```");
        out.append(language_token(b.language));
        out.append("\n");
        out.append(b.code.as_str());
        out.append("\n```\n\n");
        i = i + 1;
        proof {
            let cur = code_block_views(blocks@).subrange(0, i as int);
            assert(cur.drop_last() =~= pre);
            assert(cur.last() == blocks@[i - 1]@);
            assert(out@ =~= spec_render_blocks(cur));
        }
    }
    proof {
        assert(code_block_views(blocks@).subrange(0, blocks@.len() as int) =~= code_block_views(
            blocks@,
        ));
    }
    out
}

/// The blocks the extractor takes from a text.
pub open spec fn spec_parse_code_blocks(s: Seq<char>) -> Seq<CodeBlockView> {
    let r = run_lines(spec_lines(s), init_pstate());
    r.out + eof_emit(r.st)
}

/// Splitting a concatenation: the lines of `x + y` are the complete lines
/// of `x`, with `x`'s partial last line continuing into `y`.
pub proof fn lemma_split_acc_append(x: Seq<char>, y: Seq<char>, acc: Seq<char>)
    ensures
        split_acc(x + y, acc) == split_acc(x, acc).drop_last() + split_acc(
            y,
            split_acc(x, acc).last(),
        ),
    decreases x.len(),
{
    if x.len() == 0 {
        assert(x + y =~= y);
        assert(split_acc(x, acc) == seq![acc]);
        assert(split_acc(x, acc).drop_last() =~= Seq::<Seq<char>>::empty());
        assert(split_acc(x, acc).drop_last() + split_acc(y, acc) =~= split_acc(y, acc));
    } else {
        let xr = x.subrange(1, x.len() as int);
        assert((x + y)[0] == x[0]);
        assert((x + y).subrange(1, (x + y).len() as int) =~= xr + y);
        if x[0] == '\n' {
            lemma_split_acc_append(xr, y, Seq::empty());
            assert(split_acc(x, acc) == seq![acc] + split_acc(xr, Seq::empty()));
            assert(split_acc(xr, Seq::empty()).len() > 0) by {
                lemma_split_acc_nonempty(xr, Seq::empty());
            }
            assert(split_acc(x, acc).drop_last() =~= seq![acc] + split_acc(
                xr,
                Seq::empty(),
            ).drop_last());
            assert(split_acc(x, acc).last() == split_acc(xr, Seq::empty()).last());
            assert(split_acc(x + y, acc) == seq![acc] + split_acc(xr + y, Seq::empty()));
            assert(split_acc(x + y, acc) =~= split_acc(x, acc).drop_last() + split_acc(
                y,
                split_acc(x, acc).last(),
            ));
        } else {
            lemma_split_acc_append(xr, y, acc.push(x[0]));
        }
    }
}

/// A split always yields at least one line.
pub proof fn lemma_split_acc_nonempty(s: Seq<char>, acc: Seq<char>)
    ensures
        split_acc(s, acc).len() >= 1,
    decreases s.len(),
{
    if s.len() > 0 && s[0] != '\n' {
        lemma_split_acc_nonempty(s.subrange(1, s.len() as int), acc.push(s[0]));
    }
}

/// Running the extractor over concatenated line lists runs it in stages.
pub proof fn lemma_run_append(l1: Seq<Seq<char>>, l2: Seq<Seq<char>>, st: PState)
    ensures
        run_lines(l1 + l2, st) == (StepResult {
            st: run_lines(l2, run_lines(l1, st).st).st,
            out: run_lines(l1, st).out + run_lines(l2, run_lines(l1, st).st).out,
        }),
    decreases l1.len(),
{
    if l1.len() == 0 {
        assert(l1 + l2 =~= l2);
        assert(run_lines(l1, st).out + run_lines(l2, st).out =~= run_lines(l2, st).out);
    } else {
        assert((l1 + l2).first() == l1.first());
        assert((l1 + l2).drop_first() =~= l1.drop_first() + l2);
        let first = step_line(st, l1.first());
        lemma_run_append(l1.drop_first(), l2, first.st);
        assert(run_lines(l1 + l2, st).out =~= run_lines(l1, st).out + run_lines(
            l2,
            run_lines(l1, st).st,
        ).out);
    }
}

/// A text whose ends are not whitespace trims to itself.
proof fn lemma_trim_id(s: Seq<char>)
    requires
        s.len() > 0,
        !crate::strutil::is_ws(s[0]),
        !crate::strutil::is_ws(s[s.len() - 1]),
    ensures
        spec_trim(s) == s,
{
    assert(crate::strutil::trim_front(s) == s);
    assert(crate::strutil::trim_back(s) == s);
}

/// The code an open block holds after reading one more stretch of text.
pub open spec fn joined_code(st: PState, t: Seq<char>) -> Seq<char> {
    if st.code_started {
        st.code + seq!['\n'] + t
    } else {
        t
    }
}

/// Feeding the lines of a text into an open fence accumulates exactly that
/// text (with the partial line `acc` in front), emits nothing, and leaves
/// everything else untouched — provided no line of it closes the fence.
pub proof fn lemma_run_code(s: Seq<char>, acc: Seq<char>, st: PState)
    requires
        st.in_code,
        forall|i: int|
            0 <= i < split_acc(s, acc).len() ==> spec_trim(#[trigger] split_acc(s, acc)[i])
                != "```"@,
    ensures
        run_lines(split_acc(s, acc), st) == (StepResult {
            st: PState { code: joined_code(st, acc + s), code_started: true, ..st },
            out: Seq::<CodeBlockView>::empty(),
        }),
    decreases s.len(),
{
    if s.len() == 0 {
        assert(split_acc(s, acc) == seq![acc]);
        assert(split_acc(s, acc)[0] == acc);
        assert(spec_trim(acc) != "```"@);
        let lines = split_acc(s, acc);
        assert(lines.first() == acc);
        assert(lines.drop_first() =~= Seq::<Seq<char>>::empty());
        let first = step_line(st, acc);
        assert(first.st == PState { code: joined_code(st, acc), code_started: true, ..st });
        assert(acc + s =~= acc);
        assert(run_lines(Seq::<Seq<char>>::empty(), first.st) == (StepResult {
            st: first.st,
            out: Seq::<CodeBlockView>::empty(),
        }));
        assert(run_lines(lines, st).out =~= Seq::<CodeBlockView>::empty());
    } else {
        let sr = s.subrange(1, s.len() as int);
        if s[0] == '\n' {
            let lines = split_acc(s, acc);
            assert(lines == seq![acc] + split_acc(sr, Seq::empty()));
            assert(lines.first() == acc);
            assert(lines.drop_first() =~= split_acc(sr, Seq::empty()));
            assert(lines[0] == acc);
            assert(spec_trim(acc) != "```"@);
            let first = step_line(st, acc);
            assert(first.st == PState { code: joined_code(st, acc), code_started: true, ..st });
            let st1 = first.st;
            assert(forall|i: int|
                0 <= i < split_acc(sr, Seq::empty()).len() ==> spec_trim(
                    #[trigger] split_acc(sr, Seq::empty())[i],
                ) != "```"@) by {
                assert(forall|i: int|
                    0 <= i < split_acc(sr, Seq::empty()).len() ==> split_acc(sr, Seq::empty())[i]
                        == #[trigger] lines[i + 1]);
            }
            lemma_run_code(sr, Seq::empty(), st1);
            assert(joined_code(st1, Seq::empty() + sr) =~= joined_code(st, acc) + seq!['\n'] + sr);
            assert(joined_code(st, acc) + seq!['\n'] + sr =~= joined_code(st, acc + s));
            assert(run_lines(lines, st).out =~= Seq::<CodeBlockView>::empty());
        } else {
            let lines = split_acc(s, acc);
            assert(lines == split_acc(sr, acc.push(s[0])));
            lemma_run_code(sr, acc.push(s[0]), st);
            assert(acc.push(s[0]) + sr =~= acc + s);
        }
    }
}

/// A block the canonical rendering reads back exactly: it is annotated, an
/// executed block carries no file name, a saved block's file name holds no
/// newline, and no line of the code trims to a closing fence.
pub open spec fn wf_block(b: CodeBlockView) -> bool {
    &&& b.action != CodeBlockAction::DoNothing
    &&& (b.action == CodeBlockAction::Execute ==> b.filename is None)
    &&& (b.action == CodeBlockAction::Save ==> (b.filename matches Some(f) && (forall|i: int|
        0 <= i < f.len() ==> f[i] != '\n')))
    &&& (forall|i: int|
        0 <= i < spec_lines(b.code).len() ==> spec_trim(#[trigger] spec_lines(b.code)[i])
            != "```"@)
}

proof fn lemma_lower_execute()
    ensures
        lower_seq("execute"@) == "execute"@,
{
    reveal_strlit("execute");
    assert(lower_seq("execute"@) =~= "execute"@) by {
        assert(forall|i: int|
            0 <= i < "execute"@.len() ==> crate::strutil::lower_char(#[trigger] "execute"@[i])
                == "execute"@[i]);
    }
}

proof fn lemma_lower_save()
    ensures
        lower_seq("save:"@) == "save:"@,
{
    reveal_strlit("save:");
    assert(lower_seq("save:"@) =~= "save:"@) by {
        assert(forall|i: int|
            0 <= i < "save:"@.len() ==> crate::strutil::lower_char(#[trigger] "save:"@[i])
                == "save:"@[i]);
    }
}

/// How one line of a scan state reacts to the `> execute` annotation.
proof fn lemma_step_execute_ann(st: PState)
    requires
        !st.in_code,
    ensures
        step_line(st, "> execute"@) == (StepResult {
            st: PState { pending: CodeBlockAction::Execute, filename: None, ..st },
            out: Seq::<CodeBlockView>::empty(),
        }),
{
    reveal_strlit("> execute");
    reveal_strlit(" execute");
    reveal_strlit("execute");
    reveal_strlit("```");
    let l = "> execute"@;
    assert(!crate::strutil::is_ws(l[0]) && !crate::strutil::is_ws(l[l.len() - 1]));
    lemma_trim_id(l);
    let t = spec_trim(l);
    assert(t.subrange(0, 3) != "```"@) by {
        assert(t.subrange(0, 3)[0] == '>');
        assert("```"@[0] == '`');
    }
    assert(t[0] == '>');
    assert(t.subrange(1, t.len() as int) =~= " execute"@);
    let rest = spec_trim(" execute"@);
    assert(rest =~= "execute"@) by {
        assert(crate::strutil::trim_front(" execute"@) == crate::strutil::trim_front(
            " execute"@.subrange(1, 8),
        ));
        assert(" execute"@.subrange(1, 8) =~= "execute"@);
        assert(crate::strutil::trim_front("execute"@) == "execute"@);
        assert(crate::strutil::trim_back("execute"@) == "execute"@);
    }
    lemma_lower_execute();
    assert(lower_seq(rest) == "execute"@);
}

/// How one line of a scan state reacts to the `> save:` annotation.
proof fn lemma_step_save_ann(f: Seq<char>, st: PState)
    requires
        !st.in_code,
    ensures
        step_line(st, "> save: `"@ + f + "`"@) == (StepResult {
            st: PState { pending: CodeBlockAction::Save, filename: Some(f), ..st },
            out: Seq::<CodeBlockView>::empty(),
        }),
{
    reveal_strlit("> save: `");
    reveal_strlit("`");
    reveal_strlit("save: `");
    reveal_strlit("save:");
    reveal_strlit("execute");
    reveal_strlit("```");
    let l = "> save: `"@ + f + "`"@;
    assert(l[0] == '>');
    assert(l[l.len() - 1] == '`');
    lemma_trim_id(l);
    let t = spec_trim(l);
    assert(t == l);
    assert(t.subrange(0, 3) != "```"@) by {
        assert(t.subrange(0, 3)[0] == '>');
        assert("```"@[0] == '`');
    }
    let rest_raw = t.subrange(1, t.len() as int);
    let inner = "save: `"@ + f + "`"@;
    assert(rest_raw =~= seq![' '] + inner);
    let rest = spec_trim(rest_raw);
    assert(rest == inner) by {
        assert(crate::strutil::trim_front(rest_raw) == crate::strutil::trim_front(
            rest_raw.subrange(1, rest_raw.len() as int),
        ));
        assert(rest_raw.subrange(1, rest_raw.len() as int) =~= inner);
        assert(!crate::strutil::is_ws(inner[0]));
        assert(crate::strutil::trim_front(inner) == inner);
        assert(inner[inner.len() - 1] == '`');
        assert(crate::strutil::trim_back(inner) == inner);
    }
    assert(lower_seq(rest) != "execute"@) by {
        assert(lower_seq(rest).len() == rest.len());
        assert(rest.len() == 8 + f.len());
        assert("execute"@.len() == 7);
    }
    assert(rest.len() >= 5);
    assert(rest.subrange(0, 5) =~= "save:"@);
    lemma_lower_save();
    assert(lower_seq(rest.subrange(0, 5)) == "save:"@);
    let fpart_raw = rest.subrange(5, rest.len() as int);
    let backed = "`"@ + f + "`"@;
    assert(fpart_raw =~= seq![' '] + backed);
    let fpart = spec_trim(fpart_raw);
    assert(fpart == backed) by {
        assert(crate::strutil::trim_front(fpart_raw) == crate::strutil::trim_front(
            fpart_raw.subrange(1, fpart_raw.len() as int),
        ));
        assert(fpart_raw.subrange(1, fpart_raw.len() as int) =~= backed);
        assert(backed[0] == '`');
        assert(crate::strutil::trim_front(backed) == backed);
        assert(backed[backed.len() - 1] == '`');
        assert(crate::strutil::trim_back(backed) == backed);
    }
    assert(fpart.len() >= 2 && fpart[0] == '`' && fpart[fpart.len() - 1] == '`');
    assert(fpart.subrange(1, fpart.len() - 1) =~= f);
}

proof fn lemma_token_facts(lang: Language)
    ensures
        forall|i: int|
            0 <= i < spec_language_token(lang).len() ==> #[trigger] spec_language_token(lang)[i]
                != '\n',
        spec_language_token(lang).len() > 0 ==> !crate::strutil::is_ws(spec_language_token(lang)[0])
            && !crate::strutil::is_ws(
            spec_language_token(lang)[spec_language_token(lang).len() - 1],
        ),
        spec_language(spec_language_token(lang)) == lang,
        spec_trim(spec_language_token(lang)) == spec_language_token(lang),
{
    reveal_strlit("");
    reveal_strlit("sh");
    reveal_strlit("shell");
    reveal_strlit("markdown");
    reveal_strlit("md");
    reveal_strlit("python");
    reveal_strlit("text");
    let tok = spec_language_token(lang);
    match lang {
        Language::Unknown => {
            assert(tok.len() == 0);
            assert(spec_trim(tok) == tok);
            assert(lower_seq(tok) =~= tok);
            assert(lower_seq(tok) != "sh"@ && lower_seq(tok) != "shell"@ && lower_seq(tok)
                != "markdown"@ && lower_seq(tok) != "md"@ && lower_seq(tok) != "python"@) by {
                assert(lower_seq(tok).len() == 0);
            }
        },
        Language::Shell => {
            lemma_trim_id(tok);
            assert(lower_seq(tok) =~= tok) by {
                assert(forall|i: int|
                    0 <= i < tok.len() ==> crate::strutil::lower_char(#[trigger] tok[i])
                        == tok[i]);
            }
        },
        Language::Markdown => {
            lemma_trim_id(tok);
            assert(lower_seq(tok) =~= tok) by {
                assert(forall|i: int|
                    0 <= i < tok.len() ==> crate::strutil::lower_char(#[trigger] tok[i])
                        == tok[i]);
            }
            assert(lower_seq(tok) != "sh"@ && lower_seq(tok) != "shell"@) by {
                assert(lower_seq(tok).len() == 8);
            }
        },
        Language::Python => {
            lemma_trim_id(tok);
            assert(lower_seq(tok) =~= tok) by {
                assert(forall|i: int|
                    0 <= i < tok.len() ==> crate::strutil::lower_char(#[trigger] tok[i])
                        == tok[i]);
            }
            assert(lower_seq(tok) != "sh"@ && lower_seq(tok) != "shell"@ && lower_seq(tok)
                != "markdown"@ && lower_seq(tok) != "md"@) by {
                assert(lower_seq(tok).len() == 6);
            }
        },
        Language::Other => {
            lemma_trim_id(tok);
            assert(lower_seq(tok) =~= tok) by {
                assert(forall|i: int|
                    0 <= i < tok.len() ==> crate::strutil::lower_char(#[trigger] tok[i])
                        == tok[i]);
            }
            assert(lower_seq(tok) != "sh"@ && lower_seq(tok) != "shell"@ && lower_seq(tok)
                != "markdown"@ && lower_seq(tok) != "md"@ && lower_seq(tok) != "python"@) by {
                assert(lower_seq(tok).len() == 4);
            }
            assert(lower_seq(tok).len() != 0);
        },
    }
}

/// How one line of a scan state reacts to an opening fence with a language
/// token.
proof fn lemma_step_fence(lang: Language, st: PState)
    requires
        !st.in_code,
    ensures
        step_line(st, "```"@ + spec_language_token(lang)) == (StepResult {
            st: PState {
                in_code: true,
                language: lang,
                code: Seq::empty(),
                code_started: false,
                ..st
            },
            out: Seq::<CodeBlockView>::empty(),
        }),
{
    reveal_strlit("```");
    lemma_token_facts(lang);
    let tok = spec_language_token(lang);
    let l = "```"@ + tok;
    assert(l[0] == '`');
    assert(l[l.len() - 1] != '\n' && !crate::strutil::is_ws(l[l.len() - 1])) by {
        if tok.len() == 0 {
            assert(l[l.len() - 1] == '`');
        } else {
            assert(l[l.len() - 1] == tok[tok.len() - 1]);
        }
    }
    lemma_trim_id(l);
    let t = spec_trim(l);
    assert(t.len() >= 3);
    assert(t.subrange(0, 3) =~= "```"@);
    assert(t.subrange(3, t.len() as int) =~= tok);
    assert(spec_trim(t.subrange(3, t.len() as int)) == tok);
    assert(spec_language(spec_trim(t.subrange(3, t.len() as int))) == lang);
}

/// How one line of an open fence reacts to the closing fence.
proof fn lemma_step_close(st: PState)
    requires
        st.in_code,
    ensures
        step_line(st, "```"@) == (StepResult {
            st: init_pstate(),
            out: if st.pending != CodeBlockAction::DoNothing {
                seq![block_of(st)]
            } else {
                Seq::<CodeBlockView>::empty()
            },
        }),
{
    reveal_strlit("```");
    let l = "```"@;
    assert(!crate::strutil::is_ws(l[0]) && !crate::strutil::is_ws(l[l.len() - 1]));
    lemma_trim_id(l);
}

/// An empty line leaves a scan state untouched.
proof fn lemma_step_blank(st: PState)
    requires
        !st.in_code,
    ensures
        step_line(st, Seq::<char>::empty()) == (StepResult {
            st,
            out: Seq::<CodeBlockView>::empty(),
        }),
{
    reveal_strlit("```");
    let l = Seq::<char>::empty();
    assert(crate::strutil::trim_front(l) == l);
    assert(crate::strutil::trim_back(l) == l);
    assert(spec_trim(l).len() == 0);
}

/// Newline-free text at the head of a split is absorbed into the partial
/// line.
proof fn lemma_split_skip(t: Seq<char>, u: Seq<char>, acc: Seq<char>)
    requires
        forall|i: int| 0 <= i < t.len() ==> #[trigger] t[i] != '\n',
    ensures
        split_acc(t + u, acc) == split_acc(u, acc + t),
    decreases t.len(),
{
    if t.len() == 0 {
        assert(t + u =~= u);
        assert(acc + t =~= acc);
    } else {
        let tr = t.subrange(1, t.len() as int);
        assert((t + u)[0] == t[0]);
        assert((t + u).subrange(1, (t + u).len() as int) =~= tr + u);
        assert(forall|i: int| 0 <= i < tr.len() ==> #[trigger] tr[i] != '\n');
        lemma_split_skip(tr, u, acc.push(t[0]));
        assert(acc.push(t[0]) + tr =~= acc + t);
    }
}

/// The annotation line of a well-formed block holds no newline and no
/// whitespace at its ends.
proof fn lemma_annotation_shape(b: CodeBlockView)
    requires
        wf_block(b),
    ensures
        spec_annotation(b).len() > 0,
        forall|i: int| 0 <= i < spec_annotation(b).len() ==> #[trigger] spec_annotation(b)[i] != '\n',
{
    reveal_strlit("> execute");
    reveal_strlit("> save: `");
    reveal_strlit("`");
    let ann = spec_annotation(b);
    match b.action {
        CodeBlockAction::Execute => {
            assert(forall|i: int| 0 <= i < ann.len() ==> #[trigger] ann[i] != '\n');
        },
        CodeBlockAction::Save => {
            let f = b.filename->0;
            assert(ann =~= "> save: `"@ + f + "`"@);
            assert forall|i: int| 0 <= i < ann.len() implies #[trigger] ann[i] != '\n' by {
                if i < 9 {
                    assert(ann[i] == "> save: `"@[i]);
                } else if i < 9 + f.len() {
                    assert(ann[i] == f[i - 9]);
                } else {
                    assert(ann[i] == '`');
                }
            }
        },
        CodeBlockAction::DoNothing => {},
    }
}

/// The lines a rendered block splits into: the annotation, the opening
/// fence, the code's lines, the closing fence, a blank line, and the empty
/// partial line after the final newline.
pub open spec fn block_lines(b: CodeBlockView) -> Seq<Seq<char>> {
    seq![spec_annotation(b), "```"@ + spec_language_token(b.language)] + spec_lines(b.code)
        + seq!["```"@, Seq::<char>::empty()]
}

/// A rendered block splits into its block lines plus the empty partial
/// line.
proof fn lemma_render_block_lines(b: CodeBlockView)
    requires
        wf_block(b),
    ensures
        spec_lines(spec_render_block(b)) == block_lines(b).push(Seq::<char>::empty()),
{
    reveal_strlit("\n```");
    reveal_strlit("\n");
    reveal_strlit("\n```\n\n");
    reveal_strlit("```");
    lemma_token_facts(b.language);
    lemma_annotation_shape(b);
    let ann = spec_annotation(b);
    let tok = spec_language_token(b.language);
    let fence = "```"@ + tok;
    let code = b.code;
    let r = spec_render_block(b);
    let tail = seq!['\n'] + "```"@ + seq!['\n'] + seq!['\n'];
    assert("\n```\n\n"@ =~= tail);
    let rest2 = fence + (seq!['\n'] + (code + tail));
    assert(r =~= ann + (seq!['\n'] + rest2));
    // absorb the annotation into the first line
    lemma_split_skip(ann, seq!['\n'] + rest2, Seq::empty());
    assert(Seq::<char>::empty() + ann =~= ann);
    let s1 = seq!['\n'] + rest2;
    assert(s1[0] == '\n');
    assert(s1.subrange(1, s1.len() as int) =~= rest2);
    assert(split_acc(s1, ann) == seq![ann] + split_acc(rest2, Seq::empty()));
    // absorb the fence into the next line
    assert(forall|i: int| 0 <= i < fence.len() ==> #[trigger] fence[i] != '\n') by {
        assert(forall|i: int| 0 <= i < 3 ==> #[trigger] fence[i] == "```"@[i]);
        assert(forall|i: int| 3 <= i < fence.len() ==> #[trigger] fence[i] == tok[i - 3]);
    }
    lemma_split_skip(fence, seq!['\n'] + (code + tail), Seq::empty());
    assert(Seq::<char>::empty() + fence =~= fence);
    let s2 = seq!['\n'] + (code + tail);
    assert(s2[0] == '\n');
    assert(s2.subrange(1, s2.len() as int) =~= code + tail);
    assert(split_acc(s2, fence) == seq![fence] + split_acc(code + tail, Seq::empty()));
    // the code lines, with the tail continuing after the last one
    lemma_split_acc_append(code, tail, Seq::empty());
    let code_lines = spec_lines(code);
    lemma_split_acc_nonempty(code, Seq::empty());
    let last_line = code_lines.last();
    assert(tail[0] == '\n');
    assert(tail.subrange(1, tail.len() as int) =~= "```"@ + (seq!['\n'] + seq!['\n']));
    assert(split_acc(tail, last_line) == seq![last_line] + split_acc(
        "```"@ + (seq!['\n'] + seq!['\n']),
        Seq::empty(),
    ));
    assert(forall|i: int| 0 <= i < "```"@.len() ==> #[trigger] "```"@[i] != '\n');
    lemma_split_skip("```"@, seq!['\n'] + seq!['\n'], Seq::empty());
    assert(Seq::<char>::empty() + "```"@ =~= "```"@);
    let s3 = seq!['\n'] + seq!['\n'];
    assert(s3[0] == '\n');
    assert(s3.subrange(1, s3.len() as int) =~= seq!['\n']);
    assert(split_acc(s3, "```"@) == seq!["```"@] + split_acc(seq!['\n'], Seq::empty()));
    let s4 = seq!['\n'];
    assert(s4[0] == '\n');
    assert(s4.subrange(1, s4.len() as int) =~= Seq::<char>::empty());
    assert(split_acc(s4, Seq::empty()) == seq![Seq::<char>::empty()] + split_acc(
        Seq::<char>::empty(),
        Seq::empty(),
    ));
    assert(split_acc(Seq::<char>::empty(), Seq::<char>::empty()) == seq![Seq::<char>::empty()]);
    assert(code_lines.drop_last().push(last_line) =~= code_lines);
    assert(spec_lines(r) =~= block_lines(b).push(Seq::<char>::empty()));
}

/// Running the extractor over a well-formed block's lines from any scan
/// state emits exactly that block and returns to the initial state.
proof fn lemma_run_block(b: CodeBlockView, st0: PState)
    requires
        wf_block(b),
        !st0.in_code,
    ensures
        run_lines(block_lines(b), st0) == (StepResult {
            st: init_pstate(),
            out: seq![b],
        }),
{
    let lines = block_lines(b);
    let ann = spec_annotation(b);
    let fence = "```"@ + spec_language_token(b.language);
    // the annotation arms the extractor
    let sr1 = match b.action {
        CodeBlockAction::Execute => {
            lemma_step_execute_ann(st0);
            reveal_strlit("> execute");
            step_line(st0, ann)
        },
        CodeBlockAction::Save => {
            lemma_step_save_ann(b.filename->0, st0);
            assert(ann =~= "> save: `"@ + b.filename->0 + "`"@);
            step_line(st0, ann)
        },
        CodeBlockAction::DoNothing => step_line(st0, ann),
    };
    assert(sr1 == (StepResult {
        st: PState { pending: b.action, filename: b.filename, ..st0 },
        out: Seq::<CodeBlockView>::empty(),
    })) by {
        if b.action == CodeBlockAction::Execute {
            assert(b.filename is None);
        }
    }
    let st1 = sr1.st;
    // the fence opens the block
    lemma_step_fence(b.language, st1);
    let st2 = PState {
        in_code: true,
        language: b.language,
        code: Seq::empty(),
        code_started: false,
        ..st1
    };
    // the code lines accumulate the code
    assert(forall|i: int|
        0 <= i < spec_lines(b.code).len() ==> spec_trim(#[trigger] spec_lines(b.code)[i])
            != "```"@);
    lemma_run_code(b.code, Seq::empty(), st2);
    let st3 = PState { code: joined_code(st2, Seq::empty() + b.code), code_started: true, ..st2 };
    assert(st3.code =~= b.code);
    // the closing fence emits the block
    lemma_step_close(st3);
    assert(block_of(st3) == b);
    // the blank line changes nothing
    lemma_step_blank(init_pstate());
    // stitch the runs together
    let code_lines = spec_lines(b.code);
    let tail_lines = seq!["```"@, Seq::<char>::empty()];
    assert(lines =~= seq![ann] + (seq![fence] + (code_lines + tail_lines)));
    lemma_run_append(seq![ann], seq![fence] + (code_lines + tail_lines), st0);
    assert(run_lines(seq![ann], st0) == (StepResult {
        st: st1,
        out: Seq::<CodeBlockView>::empty(),
    })) by {
        assert(seq![ann].first() == ann);
        assert(seq![ann].drop_first() =~= Seq::<Seq<char>>::empty());
        assert(run_lines(Seq::<Seq<char>>::empty(), st1) == (StepResult {
            st: st1,
            out: Seq::<CodeBlockView>::empty(),
        }));
    }
    lemma_run_append(seq![fence], code_lines + tail_lines, st1);
    assert(run_lines(seq![fence], st1) == (StepResult {
        st: st2,
        out: Seq::<CodeBlockView>::empty(),
    })) by {
        assert(seq![fence].first() == fence);
        assert(seq![fence].drop_first() =~= Seq::<Seq<char>>::empty());
        assert(run_lines(Seq::<Seq<char>>::empty(), st2) == (StepResult {
            st: st2,
            out: Seq::<CodeBlockView>::empty(),
        }));
    }
    lemma_run_append(code_lines, tail_lines, st2);
    assert(run_lines(code_lines, st2) == (StepResult {
        st: st3,
        out: Seq::<CodeBlockView>::empty(),
    }));
    assert(run_lines(tail_lines, st3) == (StepResult { st: init_pstate(), out: seq![b] })) by {
        assert(tail_lines.first() == "```"@);
        assert(tail_lines.drop_first() =~= seq![Seq::<char>::empty()]);
        assert(seq![Seq::<char>::empty()].first() == Seq::<char>::empty());
        assert(seq![Seq::<char>::empty()].drop_first() =~= Seq::<Seq<char>>::empty());
        assert(run_lines(Seq::<Seq<char>>::empty(), init_pstate()) == (StepResult {
            st: init_pstate(),
            out: Seq::<CodeBlockView>::empty(),
        }));
        assert(run_lines(seq![Seq::<char>::empty()], init_pstate()) == (StepResult {
            st: init_pstate(),
            out: Seq::<CodeBlockView>::empty(),
        }));
        assert(run_lines(tail_lines, st3).out =~= seq![b]);
    }
    assert(run_lines(lines, st0).out =~= seq![b]);
    assert(run_lines(lines, st0).st == init_pstate());
}

/// Rendering can be peeled from the front as well as from the back.
proof fn lemma_render_front(bs: Seq<CodeBlockView>)
    requires
        bs.len() > 0,
    ensures
        spec_render_blocks(bs) == spec_render_block(bs.first()) + spec_render_blocks(
            bs.drop_first(),
        ),
    decreases bs.len(),
{
    if bs.len() == 1 {
        assert(bs.drop_last() =~= Seq::<CodeBlockView>::empty());
        assert(bs.drop_first() =~= Seq::<CodeBlockView>::empty());
        assert(bs.last() == bs.first());
        assert(Seq::<char>::empty() + spec_render_block(bs.first()) =~= spec_render_block(
            bs.first(),
        ));
        assert(spec_render_block(bs.first()) + Seq::<char>::empty() =~= spec_render_block(
            bs.first(),
        ));
    } else {
        let front = bs.drop_last();
        lemma_render_front(front);
        assert(front.first() == bs.first());
        assert(front.drop_first() =~= bs.drop_first().drop_last());
        assert(bs.drop_first().last() == bs.last());
        assert(spec_render_blocks(bs) == spec_render_blocks(front) + spec_render_block(bs.last()));
        assert(spec_render_blocks(bs.drop_first()) == spec_render_blocks(bs.drop_first().drop_last())
            + spec_render_block(bs.drop_first().last()));
        assert(spec_render_blocks(bs) =~= spec_render_block(bs.first()) + spec_render_blocks(
            bs.drop_first(),
        ));
    }
}

/// The extractor reads back exactly the blocks it was given, from their
/// canonical rendering: for well-formed annotated blocks, extraction after
/// rendering is the identity.
pub proof fn lemma_parse_render_round_trip(bs: Seq<CodeBlockView>)
    requires
        forall|i: int| 0 <= i < bs.len() ==> wf_block(#[trigger] bs[i]),
    ensures
        spec_parse_code_blocks(spec_render_blocks(bs)) == bs,
{
    lemma_parse_render_from(bs, init_pstate());
    let r = run_lines(spec_lines(spec_render_blocks(bs)), init_pstate());
    assert(!r.st.in_code);
    assert(eof_emit(r.st) =~= Seq::<CodeBlockView>::empty());
    assert(r.out + eof_emit(r.st) =~= bs);
}

/// The inductive core of the round trip: from any scan state, the lines of
/// a rendering run to exactly the rendered blocks, ending in the initial
/// state.
proof fn lemma_parse_render_from(bs: Seq<CodeBlockView>, st0: PState)
    requires
        forall|i: int| 0 <= i < bs.len() ==> wf_block(#[trigger] bs[i]),
        !st0.in_code,
    ensures
        run_lines(spec_lines(spec_render_blocks(bs)), st0) == (StepResult {
            st: if bs.len() == 0 {
                PState { ..st0 }
            } else {
                init_pstate()
            },
            out: bs,
        }),
        !run_lines(spec_lines(spec_render_blocks(bs)), st0).st.in_code,
    decreases bs.len(),
{
    if bs.len() == 0 {
        let r = spec_render_blocks(bs);
        assert(r == Seq::<char>::empty());
        assert(spec_lines(r) == seq![Seq::<char>::empty()]);
        lemma_step_blank(st0);
        assert(seq![Seq::<char>::empty()].first() == Seq::<char>::empty());
        assert(seq![Seq::<char>::empty()].drop_first() =~= Seq::<Seq<char>>::empty());
        assert(run_lines(Seq::<Seq<char>>::empty(), st0) == (StepResult {
            st: st0,
            out: Seq::<CodeBlockView>::empty(),
        }));
        assert(run_lines(spec_lines(r), st0).out =~= bs);
        assert(run_lines(spec_lines(r), st0).st == st0);
    } else {
        let b0 = bs.first();
        let rest = bs.drop_first();
        assert(wf_block(b0));
        assert(forall|i: int| 0 <= i < rest.len() ==> wf_block(#[trigger] rest[i]));
        lemma_render_front(bs);
        let r0 = spec_render_block(b0);
        let rr = spec_render_blocks(rest);
        lemma_render_block_lines(b0);
        // the whole rendering splits into the first block's lines followed
        // by the rest's lines
        lemma_split_acc_append(r0, rr, Seq::empty());
        assert(spec_lines(r0).last() == Seq::<char>::empty()) by {
            assert(spec_lines(r0) == block_lines(b0).push(Seq::<char>::empty()));
        }
        assert(spec_lines(r0).drop_last() =~= block_lines(b0));
        assert(spec_lines(r0 + rr) == block_lines(b0) + spec_lines(rr)) by {
            assert(split_acc(rr, Seq::<char>::empty()) == spec_lines(rr));
        }
        // run the first block, then the rest
        lemma_run_append(block_lines(b0), spec_lines(rr), st0);
        lemma_run_block(b0, st0);
        lemma_parse_render_from(rest, init_pstate());
        assert(spec_render_blocks(bs) == r0 + rr);
        assert(run_lines(spec_lines(spec_render_blocks(bs)), st0).out =~= bs) by {
            assert(run_lines(spec_lines(rr), init_pstate()).out == rest);
            assert(seq![b0] + rest =~= bs);
        }
        let final_st = run_lines(spec_lines(spec_render_blocks(bs)), st0).st;
        assert(final_st == run_lines(spec_lines(rr), init_pstate()).st);
        assert(final_st == init_pstate());
        assert(!final_st.in_code);
    }
}

/// The blocks still to come from the given lines and state, final emission
/// included.
pub open spec fn finish_from(lines: Seq<Seq<char>>, st: PState) -> Seq<CodeBlockView> {
    let r = run_lines(lines, st);
    r.out + eof_emit(r.st)
}

proof fn lemma_finish_from_step(lines: Seq<Seq<char>>, st: PState)
    requires
        lines.len() > 0,
    ensures
        finish_from(lines, st) == step_line(st, lines.first()).out + finish_from(
            lines.drop_first(),
            step_line(st, lines.first()).st,
        ),
{
    let first = step_line(st, lines.first());
    let rest = run_lines(lines.drop_first(), first.st);
    assert(run_lines(lines, st).out == first.out + rest.out);
    assert(finish_from(lines, st) =~= first.out + (rest.out + eof_emit(rest.st)));
}

/// The views of a list of line vectors.
pub open spec fn line_views(s: Seq<Vec<char>>) -> Seq<Seq<char>> {
    s.map_values(|v: Vec<char>| v@)
}

/// Splits a character vector at newlines.
fn split_lines(chars: &Vec<char>) -> (r: Vec<Vec<char>>)
    ensures
        line_views(r@) == spec_lines(chars@),
{
    let ghost s = chars@;
    let mut lines: Vec<Vec<char>> = Vec::new();
    let mut cur: Vec<char> = Vec::new();
    let mut pos: usize = 0;
    proof {
        assert(s.subrange(0, s.len() as int) =~= s);
        assert(line_views(lines@) + split_acc(s, Seq::empty()) =~= split_acc(s, Seq::empty()));
    }
    while pos < chars.len()
        invariant
            0 <= pos <= chars@.len(),
            chars@ == s,
            spec_lines(s) == line_views(lines@) + split_acc(
                s.subrange(pos as int, s.len() as int),
                cur@,
            ),
        decreases chars@.len() - pos,
    {
        let ghost rest = s.subrange(pos as int, s.len() as int);
        proof {
            assert(rest[0] == s[pos as int]);
            assert(rest.subrange(1, rest.len() as int) =~= s.subrange(pos + 1, s.len() as int));
        }
        let c = chars[pos];
        if c == '\n' {
            let mut done_line: Vec<char> = Vec::new();
            core::mem::swap(&mut cur, &mut done_line);
            lines.push(done_line);
        } else {
            cur.push(c);
        }
        pos = pos + 1;
        proof {
            assert(spec_lines(s) =~= line_views(lines@) + split_acc(
                s.subrange(pos as int, s.len() as int),
                cur@,
            ));
        }
    }
    lines.push(cur);
    proof {
        assert(s.subrange(s.len() as int, s.len() as int) =~= Seq::<char>::empty());
        assert(line_views(lines@) =~= spec_lines(s));
    }
    lines
}

/// Extracts the annotated code blocks of an assistant markdown text.
#[verifier::loop_isolation(false)]
pub fn parse_code_blocks(text: &str) -> (r: Vec<CodeBlock>)
    ensures
        code_block_views(r@) == spec_parse_code_blocks(text@),
{
    let chars = str_to_chars(text);
    let lines = split_lines(&chars);
    let ghost lv = line_views(lines@);
    let mut blocks: Vec<CodeBlock> = Vec::new();
    let mut pending: CodeBlockAction = CodeBlockAction::DoNothing;
    let mut filename: Option<String> = None;
    let mut in_code: bool = false;
    let mut language: Language = Language::Unknown;
    let mut code_acc: Vec<char> = Vec::new();
    let mut code_started: bool = false;
    let mut i: usize = 0;
    proof {
        assert(lv.subrange(0, lv.len() as int) =~= lv);
        assert(code_block_views(blocks@) =~= Seq::<CodeBlockView>::empty());
        assert(Seq::<CodeBlockView>::empty() + finish_from(lv, init_pstate()) =~= finish_from(
            lv,
            init_pstate(),
        ));
    }
    while i < lines.len()
        invariant
            0 <= i <= lines@.len(),
            !code_started ==> code_acc@.len() == 0,
            spec_parse_code_blocks(text@) == code_block_views(blocks@) + finish_from(
                lv.subrange(i as int, lv.len() as int),
                PState {
                    pending: pending,
                    filename: match filename {
                        Some(ref f) => Some(f@),
                        None => None,
                    },
                    in_code: in_code,
                    language: language,
                    code: code_acc@,
                    code_started: code_started,
                },
            ),
        decreases lines@.len() - i,
    {
        let ghost st = PState {
            pending: pending,
            filename: match filename {
                Some(ref f) => Some(f@),
                None => None,
            },
            in_code: in_code,
            language: language,
            code: code_acc@,
            code_started: code_started,
        };
        let ghost ls = lv.subrange(i as int, lv.len() as int);
        proof {
            assert(ls.first() == lv[i as int]);
            assert(lv[i as int] == lines@[i as int]@);
            assert(ls.drop_first() =~= lv.subrange(i + 1, lv.len() as int));
            lemma_finish_from_step(ls, st);
        }
        let ghost sr = step_line(st, lines@[i as int]@);
        proof {
            reveal_strlit("```");
            reveal_strlit("save:");
        }
        let l = &lines[i];
        let t = trim_chars(l);
        if in_code {
            if chars_eq_str(&t, "```") {
                if pending != CodeBlockAction::DoNothing {
                    let fname = filename;
                    filename = None;
                    let block = CodeBlock {
                        code: chars_to_string(&code_acc),
                        language,
                        filename: fname,
                        action: pending,
                    };
                    proof {
                        assert(block@ == block_of(st));
                    }
                    blocks.push(block);
                }
                pending = CodeBlockAction::DoNothing;
                filename = None;
                in_code = false;
                language = Language::Unknown;
                code_acc = Vec::new();
                code_started = false;
            } else {
                if code_started {
                    code_acc.push('\n');
                }
                code_acc.extend_from_slice(l.as_slice());
                code_started = true;
                proof {
                    if st.code_started {
                        assert(code_acc@ =~= st.code + seq!['\n'] + lines@[i as int]@);
                    } else {
                        assert(code_acc@ =~= lines@[i as int]@);
                    }
                }
            }
        } else if chars_starts_with_str(&t, "```") {
            proof {
                reveal_strlit("```");
            }
            let info = chars_suffix(&t, 3);
            let info_t = trim_chars(&info);
            language = language_from(&info_t);
            in_code = true;
            code_acc = Vec::new();
            code_started = false;
        } else if t.len() >= 1 && t[0] == '>' {
            let rest_raw = chars_suffix(&t, 1);
            let rest = trim_chars(&rest_raw);
            let rest_l = lower_chars(&rest);
            proof {
                if rest@.len() >= 5 {
                    assert(lower_seq(rest@).subrange(0, 5) =~= lower_seq(rest@.subrange(0, 5)));
                }
            }
            if chars_eq_str(&rest_l, "execute") {
                pending = CodeBlockAction::Execute;
                filename = None;
            } else if chars_starts_with_str(&rest_l, "save:") {
                proof {
                    reveal_strlit("save:");
                    assert(lower_seq(rest@).subrange(0, 5) =~= lower_seq(rest@.subrange(0, 5)));
                }
                let fpart_raw = chars_suffix(&rest, 5);
                let f = trim_chars(&fpart_raw);
                if f.len() >= 2 && f[0] == '`' && f[f.len() - 1] == '`' {
                    let mut mid = chars_suffix(&f, 1);
                    mid.truncate(f.len() - 2);
                    proof {
                        assert(mid@ =~= f@.subrange(1, f@.len() - 1));
                    }
                    filename = Some(chars_to_string(&mid));
                    pending = CodeBlockAction::Save;
                }
            }
        }
        i = i + 1;
        proof {
            let st2 = PState {
                pending: pending,
                filename: match filename {
                    Some(ref fx) => Some(fx@),
                    None => None,
                },
                in_code: in_code,
                language: language,
                code: code_acc@,
                code_started: code_started,
            };
            assert(st2 == sr.st);
            assert(spec_parse_code_blocks(text@) =~= code_block_views(blocks@) + finish_from(
                lv.subrange(i as int, lv.len() as int),
                st2,
            ));
        }
    }
    if in_code && pending != CodeBlockAction::DoNothing {
        let ghost st = PState {
            pending: pending,
            filename: match filename {
                Some(ref f) => Some(f@),
                None => None,
            },
            in_code: in_code,
            language: language,
            code: code_acc@,
            code_started: code_started,
        };
        let block = CodeBlock {
            code: chars_to_string(&code_acc),
            language,
            filename,
            action: pending,
        };
        proof {
            assert(block@ == block_of(st));
        }
        blocks.push(block);
    }
    proof {
        assert(lv.subrange(lv.len() as int, lv.len() as int) =~= Seq::<Seq<char>>::empty());
        assert(code_block_views(blocks@) =~= spec_parse_code_blocks(text@));
    }
    blocks
}

} // verus!

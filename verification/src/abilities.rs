//! Abilities: named callables an agent may invoke, the preprocessing of
//! their code, and their translation to LLM tool descriptors.

use vstd::prelude::*;

use crate::openai::{Function, Tool};
use crate::strutil::{chars_to_string, str_to_chars, spec_trim, trim_back, trim_chars, trim_end_chars};

verus! {

/// A named callable: its code and its function schema.
#[derive(Debug)]
pub struct Ability {
    pub id: u64,
    pub company_id: u64,
    pub name: String,
    pub description: String,
    pub code: String,
    /// The function schema the LLM is offered for this ability.
    pub function: Function,
    pub created_at: u64,
    pub updated_at: u64,
}

impl Ability {
    /// A virtual ability for a built-in function: only the description and
    /// the function schema are set.
    pub fn for_fn(description: &str, function: Function) -> (r: Ability)
        ensures
            r.description@ == description@,
            r.function == function,
            r.name@.len() == 0,
            r.code@.len() == 0,
            r.id == 0,
            r.company_id == 0,
    {
        Ability {
            id: 0,
            company_id: 0,
            name: String::new(),
            description: description.to_owned(),
            code: String::new(),
            function,
            created_at: 0,
            updated_at: 0,
        }
    }

    /// The ability's function schema.
    pub fn function(&self) -> (r: &Function)
        ensures
            r == &self.function,
    {
        &self.function
    }
}

/// The preprocessed text before final trimming: each newline-terminated
/// line is stripped of trailing whitespace and closed with a newline, and a
/// last unterminated line is treated the same; `acc` is the line being
/// read.
pub open spec fn pp_machine(s: Seq<char>, acc: Seq<char>) -> Seq<char>
    decreases s.len(),
{
    if s.len() == 0 {
        if acc.len() == 0 {
            Seq::<char>::empty()
        } else {
            trim_back(acc) + seq!['\n']
        }
    } else if s[0] == '\n' {
        trim_back(acc) + seq!['\n'] + pp_machine(s.subrange(1, s.len() as int), Seq::empty())
    } else {
        pp_machine(s.subrange(1, s.len() as int), acc.push(s[0]))
    }
}

/// The preprocessed form of a code text: trailing whitespace removed from
/// every line, and the whole trimmed.
pub open spec fn spec_preprocess(s: Seq<char>) -> Seq<char> {
    spec_trim(pp_machine(s, Seq::empty()))
}

/// Preprocesses code: removes trailing whitespace from each line and trims
/// leading and trailing whitespace around the whole.
pub fn preprocess_code(code: &str) -> (r: String)
    ensures
        r@ == spec_preprocess(code@),
{
    let chars = str_to_chars(code);
    let mut out: Vec<char> = Vec::new();
    let mut line: Vec<char> = Vec::new();
    let mut pos: usize = 0;
    let ghost s = code@;
    proof {
        assert(s.subrange(0, s.len() as int) =~= s);
        assert(out@ + pp_machine(s, Seq::empty()) =~= pp_machine(s, Seq::empty()));
    }
    while pos < chars.len()
        invariant
            0 <= pos <= chars@.len(),
            chars@ == s,
            pp_machine(s, Seq::empty()) == out@ + pp_machine(
                s.subrange(pos as int, s.len() as int),
                line@,
            ),
        decreases chars@.len() - pos,
    {
        let ghost rest = s.subrange(pos as int, s.len() as int);
        proof {
            assert(rest[0] == s[pos as int]);
            assert(rest.subrange(1, rest.len() as int) =~= s.subrange(
                pos + 1,
                s.len() as int,
            ));
        }
        let c = chars[pos];
        if c == '\n' {
            let trimmed = trim_end_chars(&line);
            let ghost out0 = out@;
            let mut k: usize = 0;
            while k < trimmed.len()
                invariant
                    0 <= k <= trimmed@.len(),
                    out@ == out0 + trimmed@.subrange(0, k as int),
                decreases trimmed@.len() - k,
            {
                out.push(trimmed[k]);
                k = k + 1;
                proof {
                    assert(out@ =~= out0 + trimmed@.subrange(0, k as int));
                }
            }
            proof {
                assert(trimmed@.subrange(0, trimmed@.len() as int) =~= trimmed@);
            }
            out.push('\n');
            line.clear();
        } else {
            line.push(c);
        }
        pos = pos + 1;
        proof {
            assert(pp_machine(s, Seq::empty()) =~= out@ + pp_machine(
                s.subrange(pos as int, s.len() as int),
                line@,
            ));
        }
    }
    if line.len() > 0 {
        let trimmed = trim_end_chars(&line);
        let ghost out0 = out@;
        let mut k: usize = 0;
        while k < trimmed.len()
            invariant
                0 <= k <= trimmed@.len(),
                out@ == out0 + trimmed@.subrange(0, k as int),
            decreases trimmed@.len() - k,
        {
            out.push(trimmed[k]);
            k = k + 1;
            proof {
                assert(out@ =~= out0 + trimmed@.subrange(0, k as int));
            }
        }
        proof {
            assert(trimmed@.subrange(0, trimmed@.len() as int) =~= trimmed@);
        }
        out.push('\n');
    }
    proof {
        assert(s.subrange(s.len() as int, s.len() as int) =~= Seq::<char>::empty());
        assert(out@ =~= pp_machine(s, Seq::empty()));
    }
    let trimmed_out = trim_chars(&out);
    chars_to_string(&trimmed_out)
}

/// The ability codes joined for the driver script: a blank line between
/// entries.
pub open spec fn spec_joined_codes(cs: Seq<Seq<char>>) -> Seq<char>
    decreases cs.len(),
{
    if cs.len() == 0 {
        Seq::<char>::empty()
    } else if cs.len() == 1 {
        cs[0]
    } else {
        spec_joined_codes(cs.drop_last()) + "\n\n"@ + cs.last()
    }
}

/// Joins ability code bodies with a blank line between them, as the tool
/// dispatcher concatenates an agent's abilities.
pub fn join_ability_codes(codes: &Vec<String>) -> (r: String)
    ensures
        r@ == spec_joined_codes(codes@.map_values(|c: String| c@)),
{
    let ghost views = codes@.map_values(|c: String| c@);
    let mut out = String::new();
    let mut i: usize = 0;
    proof {
        assert(views.subrange(0, 0) =~= Seq::<Seq<char>>::empty());
    }
    while i < codes.len()
        invariant
            0 <= i <= codes@.len(),
            views == codes@.map_values(|c: String| c@),
            out@ == spec_joined_codes(views.subrange(0, i as int)),
        decreases codes@.len() - i,
    {
        let ghost pre = views.subrange(0, i as int);
        if i > 0 {
            out.append("\n\n");
        }
        out.append(codes[i].as_str());
        i = i + 1;
        proof {
            let cur = views.subrange(0, i as int);
            assert(cur.drop_last() =~= pre);
            assert(cur.last() == views[i - 1]);
            assert(views[i - 1] == codes@[i - 1]@);
            assert(out@ =~= spec_joined_codes(cur));
        }
    }
    proof {
        assert(views.subrange(0, views.len() as int) =~= views);
    }
    out
}

/// One character's form inside a double-quoted Python string literal:
/// backslash, quote, newline and carriage return are escaped, every other
/// character stands as itself.
pub open spec fn py_escape_char(c: char) -> Seq<char> {
    if c == '\\' {
        seq!['\\', '\\']
    } else if c == '"' {
        seq!['\\', '"']
    } else if c == '\n' {
        seq!['\\', 'n']
    } else if c == '\r' {
        seq!['\\', 'r']
    } else {
        seq![c]
    }
}

/// The body of a double-quoted Python string literal holding `s`.
pub open spec fn py_escape(s: Seq<char>) -> Seq<char>
    decreases s.len(),
{
    if s.len() == 0 {
        Seq::<char>::empty()
    } else {
        py_escape_char(s[0]) + py_escape(s.subrange(1, s.len() as int))
    }
}

/// A double-quoted Python string literal holding `s`.
pub open spec fn spec_py_literal(s: Seq<char>) -> Seq<char> {
    seq!['"'] + py_escape(s) + seq!['"']
}

/// Renders a text as a double-quoted Python string literal.
pub fn python_string_literal(s: &str) -> (r: String)
    ensures
        r@ == spec_py_literal(s@),
{
    let chars = str_to_chars(s);
    let mut out: Vec<char> = Vec::new();
    out.push('"');
    let ghost sv = s@;
    let mut i: usize = 0;
    proof {
        assert(sv.subrange(0, sv.len() as int) =~= sv);
        assert(out@ =~= seq!['"'] + Seq::<char>::empty());
    }
    while i < chars.len()
        invariant
            0 <= i <= chars@.len(),
            chars@ == sv,
            seq!['"'] + py_escape(sv) == out@ + py_escape(sv.subrange(i as int, sv.len() as int)),
        decreases chars@.len() - i,
    {
        let ghost rest = sv.subrange(i as int, sv.len() as int);
        proof {
            assert(rest[0] == sv[i as int]);
            assert(rest.subrange(1, rest.len() as int) =~= sv.subrange(i + 1, sv.len() as int));
        }
        let c = chars[i];
        if c == '\\' {
            out.push('\\');
            out.push('\\');
        } else if c == '"' {
            out.push('\\');
            out.push('"');
        } else if c == '\n' {
            out.push('\\');
            out.push('n');
        } else if c == '\r' {
            out.push('\\');
            out.push('r');
        } else {
            out.push(c);
        }
        i = i + 1;
        proof {
            assert(seq!['"'] + py_escape(sv) =~= out@ + py_escape(
                sv.subrange(i as int, sv.len() as int),
            ));
        }
    }
    out.push('"');
    proof {
        assert(sv.subrange(sv.len() as int, sv.len() as int) =~= Seq::<char>::empty());
        assert(out@ =~= spec_py_literal(sv));
    }
    chars_to_string(&out)
}

/// Templates the driver the tool dispatcher runs for a delegated ability
/// call: the joined ability codes, then a stanza that decodes the JSON
/// arguments and prints the named function's result.
pub fn ability_driver_script(code: &str, function_name: &str, arguments_json: &str) -> (r: String)
    ensures
        r@ == code@ + "\n\nimport json\n_call_args = json.loads("@ + spec_py_literal(
            arguments_json@,
        ) + ")\nprint("@ + function_name@ + "(**_call_args))\n"@,
{
    let mut out = code.to_owned();
    out.append("\n\nimport json\n_call_args = json.loads(");
    let lit = python_string_literal(arguments_json);
    out.append(lit.as_str());
    out.append(")\nprint(");
    out.append(function_name);
    out.append("(**_call_args))\n");
    out
}

/// Whether a tool descriptor carries an ability: the `function` type tag,
/// the ability's schema, and its description.
pub open spec fn tool_matches_ability(t: Tool, a: Ability) -> bool {
    &&& t.type_@ == "function"@
    &&& t.function.name == a.function.name
    &&& t.function.parameters == a.function.parameters
    &&& match t.function.description {
        Some(d) => d == a.description,
        None => false,
    }
}

/// Translates abilities to LLM tool descriptors: none when there are no
/// abilities, else one `function` tool per ability carrying its schema and
/// description.
pub fn construct_tools(abilities: Vec<Ability>) -> (r: Option<Vec<Tool>>)
    ensures
        match r {
            None => abilities@.len() == 0,
            Some(ts) => abilities@.len() > 0 && ts@.len() == abilities@.len() && forall|i: int|
                0 <= i < ts@.len() ==> tool_matches_ability(#[trigger] ts@[i], abilities@[i]),
        },
{
    if abilities.len() == 0 {
        return None;
    }
    let ghost orig = abilities@;
    let mut rest = abilities;
    let mut tools: Vec<Tool> = Vec::new();
    while rest.len() > 0
        invariant
            tools@.len() + rest@.len() == orig.len(),
            rest@ == orig.subrange(tools@.len() as int, orig.len() as int),
            forall|i: int|
                0 <= i < tools@.len() ==> tool_matches_ability(#[trigger] tools@[i], orig[i]),
        decreases rest@.len(),
    {
        let ghost done = tools@.len() as int;
        let a = rest.remove(0);
        proof {
            assert(a == orig[done]);
            assert(rest@ =~= orig.subrange(done + 1, orig.len() as int));
        }
        let Ability { description, function, .. } = a;
        let Function { name, parameters, .. } = function;
        let tool = Tool {
            type_: "function".to_owned(),
            function: Function { name, description: Some(description), parameters },
        };
        proof {
            assert(tool_matches_ability(tool, orig[done]));
        }
        tools.push(tool);
    }
    proof {
        assert(orig.subrange(orig.len() as int, orig.len() as int) =~= Seq::<Ability>::empty());
    }
    Some(tools)
}

} // verus!

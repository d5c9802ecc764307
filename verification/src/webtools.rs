//! The web-browsing tool's decision rules.
//!
//! A browsing session alternates LLM turns and browser commands.  The
//! browser itself is driven outside; this module resolves the LLM's tool
//! calls to commands, keeps the session notebook, and reads the
//! self-reflection verdict that ends the session.

use vstd::prelude::*;

use crate::strutil::str_eq;

verus! {

/// What a finished browsing session reports.
#[derive(Debug, Clone)]
pub enum WebBrowsingResult {
    Failure(String),
    Text(String),
}

/// Arguments of the `goto` tool.
#[derive(Debug, Clone)]
pub struct GotoArgs {
    pub url: String,
}

/// Arguments of the `send_keys` tool.
#[derive(Debug, Clone)]
pub struct SendKeysArgs {
    pub id: i64,
    pub text: String,
}

/// Arguments of the `click` tool.
#[derive(Debug, Clone)]
pub struct ClickArgs {
    pub id: i64,
}

/// Arguments of the `append_notebook` tool.
#[derive(Debug, Clone)]
pub struct AppendNotebookArgs {
    pub text: String,
}

/// Arguments of the `replace_notebook` tool.
#[derive(Debug, Clone)]
pub struct ReplaceNotebookArgs {
    pub text: String,
}

/// Arguments of the `fail` tool.
#[derive(Debug, Clone)]
pub struct FailArgs {
    pub reason: String,
}

/// The browser command a browsing tool call names.
#[derive(Debug, Clone, Copy, PartialEq, Eq, Structural)]
pub enum BrowsingVerb {
    ScrollDown,
    Goto,
    SendKeys,
    Click,
    AppendNotebook,
    ClearNotebook,
    /// Not a browsing tool: the session fails on it.
    Unknown,
}

/// The command a browsing tool-call name resolves to.
pub open spec fn spec_browsing_verb_of(name: Seq<char>) -> BrowsingVerb {
    if name == "scroll_down"@ {
        BrowsingVerb::ScrollDown
    } else if name == "goto"@ {
        BrowsingVerb::Goto
    } else if name == "send_keys"@ {
        BrowsingVerb::SendKeys
    } else if name == "click"@ {
        BrowsingVerb::Click
    } else if name == "append_notebook"@ {
        BrowsingVerb::AppendNotebook
    } else if name == "clear_notebook"@ {
        BrowsingVerb::ClearNotebook
    } else {
        BrowsingVerb::Unknown
    }
}

/// Resolves a browsing tool-call name.
pub fn browsing_verb_of(name: &str) -> (r: BrowsingVerb)
    ensures
        r == spec_browsing_verb_of(name@),
{
    if str_eq(name, "scroll_down") {
        BrowsingVerb::ScrollDown
    } else if str_eq(name, "goto") {
        BrowsingVerb::Goto
    } else if str_eq(name, "send_keys") {
        BrowsingVerb::SendKeys
    } else if str_eq(name, "click") {
        BrowsingVerb::Click
    } else if str_eq(name, "append_notebook") {
        BrowsingVerb::AppendNotebook
    } else if str_eq(name, "clear_notebook") {
        BrowsingVerb::ClearNotebook
    } else {
        BrowsingVerb::Unknown
    }
}

/// The verdict a self-reflection tool call names.
#[derive(Debug, Clone, Copy, PartialEq, Eq, Structural)]
pub enum ReflectionVerb {
    /// The objective is complete: the session ends.
    Done,
    /// The objective failed: the session ends.
    Fail,
    /// Not a verdict tool: the session fails on it.
    Unknown,
}

/// The verdict a self-reflection tool-call name resolves to.
pub open spec fn spec_reflection_verb_of(name: Seq<char>) -> ReflectionVerb {
    if name == "done"@ {
        ReflectionVerb::Done
    } else if name == "fail"@ {
        ReflectionVerb::Fail
    } else {
        ReflectionVerb::Unknown
    }
}

/// Resolves a self-reflection tool-call name.
pub fn reflection_verb_of(name: &str) -> (r: ReflectionVerb)
    ensures
        r == spec_reflection_verb_of(name@),
{
    if str_eq(name, "done") {
        ReflectionVerb::Done
    } else if str_eq(name, "fail") {
        ReflectionVerb::Fail
    } else {
        ReflectionVerb::Unknown
    }
}

/// Whether the browsing loop continues after a reflection verb: `done` and
/// `fail` both end it.
pub fn still_active_after(v: ReflectionVerb) -> (r: bool)
    ensures
        r == (v == ReflectionVerb::Unknown),
{
    match v {
        ReflectionVerb::Done => false,
        ReflectionVerb::Fail => false,
        ReflectionVerb::Unknown => true,
    }
}

/// The browsing tools offered to the LLM: scroll, navigate, type, click,
/// and the notebook operations.
pub fn browsing_abilities() -> (r: Vec<crate::abilities::Ability>)
    ensures
        r@.len() == 6,
        r@[0].function.name@ == "scroll_down"@,
        r@[0].function.parameters is None,
        r@[1].function.name@ == "goto"@,
        (r@[1].function.parameters matches Some(p) && p.properties@.len() == 1
            && p.properties@[0].0@ == "url"@ && p.properties@[0].1.type_@ == "string"@),
        r@[2].function.name@ == "send_keys"@,
        (r@[2].function.parameters matches Some(p) && p.properties@.len() == 2
            && p.properties@[0].0@ == "id"@ && p.properties@[0].1.type_@ == "integer"@
            && p.properties@[1].0@ == "text"@ && p.properties@[1].1.type_@ == "string"@),
        r@[3].function.name@ == "click"@,
        (r@[3].function.parameters matches Some(p) && p.properties@.len() == 1
            && p.properties@[0].0@ == "id"@ && p.properties@[0].1.type_@ == "integer"@),
        r@[4].function.name@ == "append_notebook"@,
        (r@[4].function.parameters matches Some(p) && p.properties@.len() == 1
            && p.properties@[0].0@ == "text"@ && p.properties@[0].1.type_@ == "string"@),
        r@[5].function.name@ == "clear_notebook"@,
        r@[5].function.parameters is None,
{
    let mut r: Vec<crate::abilities::Ability> = Vec::new();
    r.push(simple_ability("Scroll one page down", "scroll_down", None));
    r.push(
        simple_ability(
            "Go to URL",
            "goto",
            Some(("url", "string", "URL to navigate to")),
        ),
    );
    r.push(
        two_param_ability(
            "Type text into an element",
            "send_keys",
            ("id", "integer", "Element ID to type into"),
            ("text", "string", "Text to type"),
        ),
    );
    r.push(
        simple_ability(
            "Click an element",
            "click",
            Some(("id", "integer", "Element ID to click")),
        ),
    );
    r.push(
        simple_ability(
            "Append text to notebook",
            "append_notebook",
            Some(("text", "string", "Text to append to notebook")),
        ),
    );
    r.push(simple_ability("Clear notebook", "clear_notebook", None));
    r
}

/// The verdict tools offered on a browsing self-reflection turn.
pub fn browsing_reflection_abilities() -> (r: Vec<crate::abilities::Ability>)
    ensures
        r@.len() == 2,
        r@[0].function.name@ == "done"@,
        r@[0].function.parameters is None,
        r@[1].function.name@ == "fail"@,
        (r@[1].function.parameters matches Some(p) && p.properties@.len() == 1
            && p.properties@[0].0@ == "reason"@ && p.properties@[0].1.type_@ == "string"@),
{
    let mut r: Vec<crate::abilities::Ability> = Vec::new();
    r.push(simple_ability("Mark current objective as complete", "done", None));
    r.push(
        simple_ability(
            "Mark current objective as failed",
            "fail",
            Some(("reason", "string", "Reason for failure")),
        ),
    );
    r
}

/// An ability with two parameters.
fn two_param_ability(
    description: &str,
    name: &str,
    p1: (&str, &str, &str),
    p2: (&str, &str, &str),
) -> (r: crate::abilities::Ability)
    ensures
        r.function.name@ == name@,
        r.description@ == description@,
        (r.function.parameters matches Some(fp) && fp.type_@ == "object"@ && fp.properties@.len()
            == 2 && fp.properties@[0].0@ == p1.0@ && fp.properties@[0].1.type_@ == p1.1@
            && fp.properties@[0].1.description@ == p1.2@ && fp.properties@[1].0@ == p2.0@
            && fp.properties@[1].1.type_@ == p2.1@ && fp.properties@[1].1.description@ == p2.2@),
{
    let mut props: Vec<(String, crate::openai::FunctionPropertyValue)> = Vec::new();
    props.push(
        (
            p1.0.to_owned(),
            crate::openai::FunctionPropertyValue {
                type_: p1.1.to_owned(),
                description: p1.2.to_owned(),
                items: None,
            },
        ),
    );
    props.push(
        (
            p2.0.to_owned(),
            crate::openai::FunctionPropertyValue {
                type_: p2.1.to_owned(),
                description: p2.2.to_owned(),
                items: None,
            },
        ),
    );
    crate::abilities::Ability::for_fn(
        description,
        crate::openai::Function {
            name: name.to_owned(),
            description: None,
            parameters: Some(
                crate::openai::FunctionParameters {
                    type_: "object".to_owned(),
                    properties: props,
                },
            ),
        },
    )
}

/// An ability with at most one string or integer parameter.
fn simple_ability(description: &str, name: &str, param: Option<(&str, &str, &str)>) -> (r:
    crate::abilities::Ability)
    ensures
        r.function.name@ == name@,
        r.description@ == description@,
        match param {
            None => r.function.parameters is None,
            Some(p) => (r.function.parameters matches Some(fp) && fp.type_@ == "object"@
                && fp.properties@.len() == 1 && fp.properties@[0].0@ == p.0@
                && fp.properties@[0].1.type_@ == p.1@ && fp.properties@[0].1.description@ == p.2@),
        },
{
    let parameters = match param {
        Some((pname, ptype, pdesc)) => {
            let mut props: Vec<(String, crate::openai::FunctionPropertyValue)> = Vec::new();
            props.push(
                (
                    pname.to_owned(),
                    crate::openai::FunctionPropertyValue {
                        type_: ptype.to_owned(),
                        description: pdesc.to_owned(),
                        items: None,
                    },
                ),
            );
            Some(crate::openai::FunctionParameters { type_: "object".to_owned(), properties: props })
        },
        None => None,
    };
    crate::abilities::Ability::for_fn(
        description,
        crate::openai::Function { name: name.to_owned(), description: None, parameters },
    )
}

/// Appends a note to the session notebook: a separator, the page it was
/// taken from, and the text.
pub fn notebook_append(notebook: &mut String, current_url: &str, text: &str)
    ensures
        final(notebook)@ == old(notebook)@ + "\n\n---\n\n"@ + current_url@ + "\n\n"@ + text@,
{
    notebook.append("\n\n---\n\n");
    notebook.append(current_url);
    notebook.append("\n\n");
    notebook.append(text);
}

} // verus!

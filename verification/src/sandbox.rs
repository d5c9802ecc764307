//! Naming rules of the sandbox layer: container mount binds, per-chat and
//! per-task working directories, and tool-call script files.  The container
//! runtime itself stays outside; it consumes the strings built here.

use vstd::prelude::*;

use crate::strutil::{dec_str, u64_to_string};

verus! {

/// The directory a workdir is mounted at inside a container.
pub fn container_workdir() -> (r: &'static str)
    ensures
        r@ == "/bridge"@,
{
    "/bridge"
}

/// The image short-lived script containers run.
pub fn default_python_image() -> (r: &'static str)
    ensures
        r@ == "python:slim"@,
{
    "python:slim"
}

/// The image headless-browser containers run.
pub fn default_chromedriver_image() -> (r: &'static str)
    ensures
        r@ == "zenika/alpine-chrome:with-chromedriver"@,
{
    "zenika/alpine-chrome:with-chromedriver"
}

/// The mount binds for an optional workdir: the workdir bound onto the
/// container workdir, or none.
pub fn binds_for(maybe_workdir: Option<&str>) -> (r: Option<Vec<String>>)
    ensures
        match maybe_workdir {
            None => r is None,
            Some(w) => match r {
                Some(v) => v@.len() == 1 && v@[0]@ == w@ + ":/bridge"@,
                None => false,
            },
        },
{
    match maybe_workdir {
        Some(workdir) => {
            let mut bind = workdir.to_owned();
            bind.append(":/bridge");
            let mut v: Vec<String> = Vec::new();
            v.push(bind);
            Some(v)
        },
        None => None,
    }
}

/// The chat-scoped working directory name: `wd-{chat_id}`.
pub fn chat_workdir_name(chat_id: u64) -> (r: String)
    ensures
        r@ == "wd-"@ + dec_str(chat_id as nat),
{
    let mut out = "wd-".to_owned();
    let digits = u64_to_string(chat_id);
    out.append(digits.as_str());
    out
}

/// The script file name for one tool call of one message:
/// `tc-{message_id}-{tool_call_id}.py`.
pub fn tool_call_script_name(message_id: u64, tool_call_id: &str) -> (r: String)
    ensures
        r@ == "tc-"@ + dec_str(message_id as nat) + "-"@ + tool_call_id@ + ".py"@,
{
    let mut out = "tc-".to_owned();
    let digits = u64_to_string(message_id);
    out.append(digits.as_str());
    out.append("-");
    out.append(tool_call_id);
    out.append(".py");
    out
}

} // verus!

//! The headless-browser handle's plain data: the builder that carries the
//! screenshot workdir, and the viewport elements a page reports.  Driving
//! the browser itself is WebDriver I/O and stays outside.

use vstd::prelude::*;

verus! {

/// Builds browser instances; holds the directory screenshots and downloads
/// go to.
#[derive(Debug, Clone)]
pub struct BrowserBuilder {
    pub workdir: String,
}

impl BrowserBuilder {
    /// A builder for browsers whose files land in `workdir`.
    pub fn new(workdir: &str) -> (r: BrowserBuilder)
        ensures
            r.workdir@ == workdir@,
    {
        BrowserBuilder { workdir: workdir.to_owned() }
    }
}

/// What kind of element the viewport listing reports.
#[derive(Debug, Clone, Copy, PartialEq, Eq, Structural)]
pub enum ElementType {
    Text,
    Link,
    Button,
    Input,
}

/// One interactable element of the current viewport.
#[derive(Debug, Clone)]
pub struct Element {
    pub id: i64,
    pub type_: ElementType,
    pub content: Option<String>,
}

} // verus!

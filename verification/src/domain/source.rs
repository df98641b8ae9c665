//! Receiver sources as the source catalog reports them.
use crate::domain::{check_token, token_error, token_ok};
use crate::text::{chars_of, string_of};
use vstd::prelude::*;

verus! {

/// A receiver source identifier such as `CD` or `GAME`.
#[derive(Debug, Clone, PartialEq, Eq)]
pub struct SourceId(String);

impl SourceId {
    pub closed spec fn text(&self) -> Seq<char> {
        self.0@
    }

    pub fn new(value: &str) -> (r: Result<Self, &'static str>)
        ensures
            r is Ok <==> token_ok(value@),
            r matches Ok(i) ==> i.text() == value@,
            r matches Err(m) ==> m@ == token_error(value@, "source id must not be empty"@, "source id must not contain control characters"@),
    {
        let v = chars_of(value);
        if v.len() == 0 {
            return Err("source id must not be empty");
        }
        if !check_token(&v) {
            return Err("source id must not contain control characters");
        }
        Ok(SourceId(string_of(&v)))
    }

    /// A source identifier already known to be a valid token.
    pub fn valid(value: &str) -> (r: Self)
        requires
            token_ok(value@),
        ensures
            r.text() == value@,
    {
        SourceId(crate::text::owned(value))
    }

    pub fn as_str(&self) -> (r: &str)
        ensures
            r@ == self.text(),
    {
        self.0.as_str()
    }
}

/// Whether the receiver shows a source in its input list.
#[derive(Debug, Clone, Copy, PartialEq, Eq, Structural)]
pub enum SourceVisibility {
    Unknown,
    Shown,
    Hidden,
}

#[derive(Debug, Clone, PartialEq, Eq)]
pub struct SourceEntry {
    pub id: SourceId,
    pub display_name: Option<String>,
    pub visibility: SourceVisibility,
}

/// Which of the catalog's two sections a response held.
#[derive(Debug, Clone, Copy, PartialEq, Eq, Structural)]
pub enum CatalogResponseEvidence {
    Complete,
    Partial,
    Unsupported,
}

} // verus!

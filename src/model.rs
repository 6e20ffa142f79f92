use vstd::prelude::*;

verus! {

/// The two spellings of one CSS property name.
#[derive(Clone, Debug)]
pub struct CssPropertyName {
    /// The name as the upstream source spells it (`background-color`).
    pub original: String,
    /// The capitalised concatenation of its words (`BackgroundColor`).
    pub pascal_case: String,
}

/// One record of the published collection.
#[derive(Clone, Debug)]
pub struct CssProperty {
    pub name: CssPropertyName,
}

impl CssProperty {
    /// The key the collection is ordered by.
    pub open spec fn key(self) -> Seq<char> {
        self.name.original@
    }
}

} // verus!

verus! {

/// Why a run stopped. Every error ends the run.
#[derive(Clone, Debug)]
pub enum SyncError {
    /// A host could not be reached or did not answer.
    Network(String),
    /// An answer did not have the expected JSON shape.
    Parse(String),
    /// The bearer token for the write is not configured.
    MissingToken,
    /// The hosting service refused the write (a stale revision among other
    /// causes); status and body as it sent them.
    Rejected { status: u16, body: String },
}

} // verus!

//! What actually differs between one mobile platform and another: how a UI
//! hierarchy is spelled, and which system gestures exist.
use crate::act::Operation;
use crate::snapshot::TooManyElements;
use vstd::prelude::*;

pub mod android;
pub mod ios;
pub mod xml;

pub use android::Android;
pub use ios::Ios;

verus! {

/// A UI hierarchy could not be read.
#[derive(Debug, Clone, PartialEq, Eq)]
pub enum HierarchyError {
    /// The hierarchy was not well-formed.
    Malformed {
        /// What the reader objected to.
        detail: String,
    },
    /// The screen held more actionable elements than can be addressed.
    TooMany(TooManyElements),
}

impl HierarchyError {
    /// The error a screen with too many rows becomes.
    pub fn from_too_many(inner: TooManyElements) -> (e: HierarchyError)
        ensures
            e == HierarchyError::TooMany(inner),
    {
        HierarchyError::TooMany(inner)
    }
}

/// A mobile platform the worker can drive.
pub trait Platform {
    /// The operations this platform supports, in the order a catalog offers
    /// them.
    spec fn offered(&self) -> Seq<Operation>;

    /// The name this platform goes by.
    spec fn title(&self) -> Seq<char>;

    /// How this platform is named in logs and prompts.
    fn name(&self) -> (r: &'static str)
        ensures
            r@ == self.title(),
    ;

    /// The operations this platform supports. A catalog offers exactly
    /// these, so a platform that lacks an operation never presents it.
    fn operations(&self) -> (ops: Vec<Operation>)
        ensures
            ops@ == self.offered(),
    ;
}

} // verus!

use vstd::prelude::*;

verus! {

/// The reportable conditions of the study tool.
///
/// `InvalidCategory` comes from parsing a category name that matches no
/// known category; `EmptySelection` from asking for a study session over a
/// filtered vocabulary set that turned out empty; `UnknownCategoryProgress`
/// from loading a progress store that misses a category; and
/// `InvalidProgressLevel` from loading a progress entry whose level lies
/// outside `1..=max_level`.
#[derive(Debug, Clone, Copy, PartialEq, Eq, Structural)]
pub enum StudyError {
    InvalidCategory,
    EmptySelection,
    UnknownCategoryProgress,
    InvalidProgressLevel,
}

} // verus!

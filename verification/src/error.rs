//! The inputs that the library refuses, one variant per reason.
use vstd::prelude::*;

verus! {

/// Why an input was refused before it could reach the routing engine.
#[derive(Debug, Clone, Copy, PartialEq, Eq, Structural)]
pub enum InputError {
    /// A tail or head entry names a node outside `0..node_count`.
    NodeIdOutOfRange,
    /// The tail and head lists differ in length.
    ArcLengthMismatch,
    /// The latitude or longitude list does not hold one entry per node.
    CoordinateLengthMismatch,
    /// The node order is not a permutation of `0..node_count`.
    NotAPermutation,
    /// The weight vector does not hold one weight per arc.
    WeightCountMismatch,
    /// An update names an arc outside the weight vector.
    ArcIdOutOfRange,
    /// A pinned or added target set is empty.
    NoTargets,
    /// A pinned or added source set is empty.
    NoSources,
    /// A target names a node outside the hierarchy.
    TargetOutOfRange,
    /// A source names a node outside the hierarchy.
    SourceOutOfRange,
    /// A point-to-point query was run without a source or without a target.
    QueryNotReady,
}

/// The text that goes with each refusal.
pub open spec fn error_message(e: InputError) -> Seq<char> {
    match e {
        InputError::NodeIdOutOfRange => "tail/head contain node ids outside valid range"@,
        InputError::ArcLengthMismatch => "tail and head arrays must have the same length"@,
        InputError::CoordinateLengthMismatch => "latitude/longitude length must equal node count"@,
        InputError::NotAPermutation => "order array is not a valid permutation"@,
        InputError::WeightCountMismatch => "weights length must equal arc count"@,
        InputError::ArcIdOutOfRange => "updated arc id out of range"@,
        InputError::NoTargets => "must provide at least one target"@,
        InputError::NoSources => "must provide at least one source"@,
        InputError::TargetOutOfRange => "target node id out of range"@,
        InputError::SourceOutOfRange => "source node id out of range"@,
        InputError::QueryNotReady => "must add at least one source and one target before running the query"@,
    }
}

impl InputError {
    /// The message that describes this refusal.
    pub fn message(&self) -> (r: &'static str)
        ensures
            r@ == error_message(*self),
    {
        match self {
            InputError::NodeIdOutOfRange => "tail/head contain node ids outside valid range",
            InputError::ArcLengthMismatch => "tail and head arrays must have the same length",
            InputError::CoordinateLengthMismatch => "latitude/longitude length must equal node count",
            InputError::NotAPermutation => "order array is not a valid permutation",
            InputError::WeightCountMismatch => "weights length must equal arc count",
            InputError::ArcIdOutOfRange => "updated arc id out of range",
            InputError::NoTargets => "must provide at least one target",
            InputError::NoSources => "must provide at least one source",
            InputError::TargetOutOfRange => "target node id out of range",
            InputError::SourceOutOfRange => "source node id out of range",
            InputError::QueryNotReady => "must add at least one source and one target before running the query",
        }
    }
}

} // verus!

//! The strategy for concatenations.

use crate::bin_builder::BinBuilder;
use crate::error::GraphError;
use crate::source::Source;
use vstd::prelude::*;

verus! {

/// Builds the graph for two sources, one after the other. How the two are
/// joined is the implementation's business; it reads the boundary ports of
/// the graphs it joins and leaves their nodes alone.
pub trait ConcatInterpreter {
    /// Whether `result` is a result this strategy may give for `first`
    /// followed by `second` at `now`. A strategy that says nothing admits
    /// any.
    open spec fn may_interpret(
        &self,
        first: Source,
        second: Source,
        now: u64,
        result: Result<BinBuilder, GraphError>,
    ) -> bool {
        true
    }

    /// Builds the graph for `first` followed by `second`.
    fn interpret(&self, first: &Box<Source>, second: &Box<Source>, now: u64) -> (result: Result<
        BinBuilder,
        GraphError,
    >)
        ensures
            self.may_interpret(**first, **second, now, result),
            result matches Ok(graph) ==> graph@.wf(),
    ;
}

} // verus!

//! The strategy for sources that are built again when their graph fails.

use crate::bin_builder::BinBuilder;
use crate::error::GraphError;
use crate::source::Source;
use vstd::prelude::*;

verus! {

/// Builds the graph for a source that is to be built afresh when it fails.
/// What counts as failure, and how the fresh graph takes the place of the
/// old, is the implementation's business.
pub trait RestartOnErrorInterpreter {
    /// Whether `result` is a result this strategy may give for `source` at
    /// `now`. A strategy that says nothing admits any.
    open spec fn may_interpret(
        &self,
        source: Source,
        now: u64,
        result: Result<BinBuilder, GraphError>,
    ) -> bool {
        true
    }

    /// Builds the graph for `source`.
    fn interpret(&self, source: &Box<Source>, now: u64) -> (result: Result<BinBuilder, GraphError>)
        ensures
            self.may_interpret(**source, now, result),
            result matches Ok(graph) ==> graph@.wf(),
    ;
}

} // verus!

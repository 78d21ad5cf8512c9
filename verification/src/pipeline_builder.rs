//! The builder that owns a top-level graph.

use crate::bin_builder::{outcome, BinBuilder};
use crate::catalog::Registry;
use crate::error::GraphError;
use crate::graph::{command_models, Command, Reaction, Renewal};
use crate::model::{fire_time, GraphModel};
use vstd::prelude::*;

verus! {

/// A builder that owns a top-level graph: a graph that stands on its own
/// and publishes no boundary ports.
#[derive(Debug)]
pub struct PipelineBuilder {
    pipeline: BinBuilder,
}

impl View for PipelineBuilder {
    type V = GraphModel;

    closed spec fn view(&self) -> GraphModel {
        self.pipeline@
    }
}

impl PipelineBuilder {
    /// An empty graph called `name` whose nodes are of the kinds in
    /// `registry`.
    pub fn new(name: &str, registry: Registry) -> (builder: Self)
        ensures
            builder@ == GraphModel::empty(name@, registry@),
            builder@.wf(),
    {
        PipelineBuilder { pipeline: BinBuilder::new(name, registry) }
    }

    /// The graph, to read it.
    pub fn graph(&self) -> (graph: &BinBuilder)
        ensures
            graph@ == self@,
    {
        &self.pipeline
    }

    /// Tears the graph down: it is halted, every node is removed, nothing
    /// stays pending, and from now on it arms no timer.
    pub fn failure(&mut self, error: GraphError)
        requires
            old(self)@.wf(),
        ensures
            final(self)@ == old(self)@.teardown(),
            final(self)@.wf(),
    {
        self.pipeline.failure(error);
    }

    /// Constructs a node of kind `factory_name` and inserts it under `name`.
    /// Fails with `Construction`, and changes nothing, where the kind is
    /// unknown or the name is taken.
    pub fn add_element(&mut self, factory_name: &str, name: &str) -> (result: Result<
        (),
        GraphError,
    >)
        requires
            old(self)@.wf(),
        ensures
            result == outcome(old(self)@.add_check(factory_name@, name@)),
            result is Ok ==> final(self)@ == old(self)@.add_node(factory_name@, name@),
            result is Err ==> final(self)@ == old(self)@,
            final(self)@.wf(),
    {
        self.pipeline.add_element(factory_name, name)
    }

    /// Sets property `property_name` of node `element_name` to `value`. Fails
    /// with `NotFound`, and changes nothing, where the node does not exist.
    pub fn set_element_property(
        &mut self,
        element_name: &str,
        property_name: &str,
        value: &str,
    ) -> (result: Result<(), GraphError>)
        requires
            old(self)@.wf(),
        ensures
            result is Ok <==> old(self)@.has_node(element_name@),
            result is Err ==> result == Err::<(), GraphError>(GraphError::NotFound) && final(self)@
                == old(self)@,
            result is Ok ==> final(self)@ == old(self)@.configure(
                element_name@,
                property_name@,
                value@,
            ),
            final(self)@.wf(),
    {
        self.pipeline.set_element_property(element_name, property_name, value)
    }

    /// Registers `reaction` for every output port that node
    /// `src_element_name` gains from now on. Nothing happens where the node
    /// does not exist.
    pub fn on_pad_connected(&mut self, src_element_name: &str, reaction: Reaction)
        requires
            old(self)@.wf(),
        ensures
            final(self)@ == old(self)@.watch(src_element_name@, reaction@),
            final(self)@.wf(),
    {
        self.pipeline.on_pad_connected(src_element_name, reaction);
    }

    /// Connects the output port called `src_pad_name`, on the first node
    /// that owns one of that name, to the fixed input port of node
    /// `element_name`. Fails with `NotFound` where an endpoint is missing and
    /// with `Link` where one of the two ports has a peer already; a failure
    /// changes nothing.
    pub fn connect_src_pad_to_static_sink_pad(&mut self, src_pad_name: &str, element_name: &str) -> (result:
        Result<(), GraphError>)
        requires
            old(self)@.wf(),
        ensures
            result == outcome(old(self)@.connect_check(src_pad_name@, element_name@)),
            result is Ok ==> final(self)@ == old(self)@.connect(src_pad_name@, element_name@),
            result is Err ==> final(self)@ == old(self)@,
            final(self)@.wf(),
    {
        self.pipeline.connect_src_pad_to_static_sink_pad(src_pad_name, element_name)
    }

    /// Undoes every link of node `element_name` and removes the node at the
    /// other end of each, one link after the other. Fails with `NotFound`,
    /// and changes nothing, where the node does not exist.
    pub fn unlink_and_remove_src_elements(&mut self, element_name: &str) -> (result: Result<
        (),
        GraphError,
    >)
        requires
            old(self)@.wf(),
        ensures
            result is Ok <==> old(self)@.has_node(element_name@),
            result is Err ==> result == Err::<(), GraphError>(GraphError::NotFound) && final(self)@
                == old(self)@,
            result is Ok ==> final(self)@ == old(self)@.detach(element_name@),
            final(self)@.wf(),
    {
        self.pipeline.unlink_and_remove_src_elements(element_name)
    }

    /// Arms a timer for `renewal` that fires at `timestamp`, or at once where
    /// that is not after `now`, and returns how long the graph waits for it.
    /// An inert graph arms nothing and returns `None`.
    pub fn add_scheduled_callback(&mut self, timestamp: u64, now: u64, renewal: Renewal) -> (delay:
        Option<u64>)
        requires
            old(self)@.wf(),
        ensures
            delay is Some <==> !old(self)@.inert,
            delay matches Some(d) ==> d == fire_time(timestamp, now) - now,
            final(self)@ == old(self)@.schedule(timestamp, now, renewal@),
            final(self)@.wf(),
    {
        self.pipeline.add_scheduled_callback(timestamp, now, renewal)
    }

    /// Takes note that the runtime saw node `node` gain port `port` from its
    /// template `template`, and lets the node's listeners react. The first
    /// reaction that fails tears the graph down, and its error is returned.
    pub fn port_attached(&mut self, node: &str, template: &str, port: &str) -> (result: Result<
        (),
        GraphError,
    >)
        requires
            old(self)@.wf(),
        ensures
            final(self)@ == old(self)@.attach(node@, template@, port@).0,
            result == outcome(old(self)@.attach(node@, template@, port@).1),
            final(self)@.wf(),
    {
        self.pipeline.port_attached(node, template, port)
    }

    /// Fires the first timer that is due at `now` and returns the renewal it
    /// stands for; `None` where no timer is due.
    pub fn take_due_timer(&mut self, now: u64) -> (fired: Option<Renewal>)
        requires
            old(self)@.wf(),
        ensures
            final(self)@ == old(self)@.fire(now),
            match fired {
                Some(renewal) => old(self)@.due_timer(now) is Some && renewal@ == old(
                    self,
                )@.timers[old(self)@.due_timer(now).unwrap()].renewal,
                None => old(self)@.due_timer(now) is None,
            },
            final(self)@.wf(),
    {
        self.pipeline.take_due_timer(now)
    }

    /// Hands over the instructions that the runtime has not yet been given,
    /// in the order in which they arose.
    pub fn take_commands(&mut self) -> (commands: Vec<Command>)
        ensures
            command_models(commands@) == old(self)@.commands,
            final(self)@ == old(self)@.drained(),
            old(self)@.wf() ==> final(self)@.wf(),
    {
        self.pipeline.take_commands()
    }
}

} // verus!

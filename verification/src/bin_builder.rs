//! The builder that owns one media-processing graph.

use crate::catalog::{
    clone_templates, find_kind, kind_names, template_models, template_names, PortDirection,
    PortPresence, PortTemplate, Registry,
};
use crate::error::GraphError;
use crate::graph::{
    boundary_models, boundary_off, carries, clone_listeners, clone_ports, command_models,
    find_template, has_port, link_models, links_clear_of, listener_models, listeners_off,
    make_static_ports, node_models, port_models, property_models, set_property, sink_in_use,
    src_in_use, text_of, timer_models, BoundaryPort, Command, Link, Listener, Node, Port,
    Reaction, Renewal, Timer,
};
use crate::model::{
    clear_of, due, fire_time, holds, instantiate, joins, lemma_filter_exclusive,
    lemma_found_holds, lemma_grounded_extends, lemma_grounded_without, lemma_instantiate_wf,
    node_names, owns, property_keys, removals, survives, touching, CommandModel, GraphModel,
    PropertyModel,
};
use crate::search::{
    least, lemma_least_absent, lemma_least_found, lemma_position, lemma_position_absent,
    lemma_position_found, Text,
};
use vstd::prelude::*;

verus! {

/// The result that a check stands for.
pub open spec fn outcome(check: Option<GraphError>) -> Result<(), GraphError> {
    match check {
        Some(e) => Err(e),
        None => Ok(()),
    }
}

/// A builder that owns one media-processing graph: its nodes, the links
/// between them, its boundary ports, listeners and timers, and the
/// instructions it owes the media runtime.
#[derive(Debug)]
pub struct BinBuilder {
    name: String,
    registry: Registry,
    nodes: Vec<Node>,
    links: Vec<Link>,
    boundary: Vec<BoundaryPort>,
    listeners: Vec<Listener>,
    timers: Vec<Timer>,
    link_to: Option<String>,
    inert: bool,
    commands: Vec<Command>,
}

impl View for BinBuilder {
    type V = GraphModel;

    closed spec fn view(&self) -> GraphModel {
        GraphModel {
            name: self.name@,
            kinds: self.registry@,
            nodes: node_models(self.nodes@),
            links: link_models(self.links@),
            boundary: boundary_models(self.boundary@),
            listeners: listener_models(self.listeners@),
            timers: timer_models(self.timers@),
            link_to: text_of(self.link_to),
            inert: self.inert,
            commands: command_models(self.commands@),
        }
    }
}

impl BinBuilder {
    /// An empty graph called `name` whose nodes are of the kinds in
    /// `registry`.
    pub fn new(name: &str, registry: Registry) -> (builder: Self)
        ensures
            builder@ == GraphModel::empty(name@, registry@),
            builder@.wf(),
    {
        proof {
            use_type_invariant(&registry);
        }
        let builder = BinBuilder {
            name: name.to_owned(),
            registry,
            nodes: Vec::new(),
            links: Vec::new(),
            boundary: Vec::new(),
            listeners: Vec::new(),
            timers: Vec::new(),
            link_to: None,
            inert: false,
            commands: Vec::new(),
        };
        proof {
            let g = GraphModel::empty(name@, registry@);
            assert(builder@.nodes =~= g.nodes);
            assert(builder@.links =~= g.links);
            assert(builder@.boundary =~= g.boundary);
            assert(builder@.listeners =~= g.listeners);
            assert(builder@.timers =~= g.timers);
            assert(builder@.commands =~= g.commands);
            assert(node_names(g.nodes) =~= Seq::<Text>::empty());
        }
        builder
    }

    /// Where the node called `name` stands.
    fn index_of(&self, name: &String) -> (found: Option<usize>)
        ensures
            match found {
                Some(i) => self@.find_node(name@) == Some(i as int) && i < self.nodes.len(),
                None => self@.find_node(name@) is None,
            },
    {
        let mut i: usize = 0;
        while i < self.nodes.len()
            invariant
                i <= self.nodes.len(),
                forall|j: int| 0 <= j < i ==> self.nodes[j].name@ != name@,
            decreases self.nodes.len() - i,
        {
            if self.nodes[i].name == *name {
                proof {
                    let names = node_names(self@.nodes);
                    assert forall|j: int| 0 <= j < i implies names[j] != name@ by {
                        assert(names[j] == self.nodes[j].name@);
                    }
                    lemma_position_found(names, name@, i as int);
                }
                return Some(i);
            }
            i += 1;
        }
        proof {
            let names = node_names(self@.nodes);
            assert forall|j: int| 0 <= j < names.len() implies names[j] != name@ by {
                assert(names[j] == self.nodes[j].name@);
            }
            lemma_position_absent(names, name@);
        }
        None
    }

    /// Appends an instruction for the runtime.
    fn tell(&mut self, command: Command)
        ensures
            final(self)@ == old(self)@.told(command@),
    {
        self.commands.push(command);
        assert(self@.commands =~= old(self)@.commands.push(command@));
    }

    /// Constructs a node of kind `factory_name` and inserts it under `name`.
    /// Fails with `Construction`, and changes nothing, where the kind is
    /// unknown or the name is taken.
    pub fn add_element(&mut self, factory_name: &str, name: &str) -> (result: Result<
        (),
        GraphError,
    >)
        requires
            old(self)@.wf(),
        ensures
            result == outcome(old(self)@.add_check(factory_name@, name@)),
            result is Ok ==> final(self)@ == old(self)@.add_node(factory_name@, name@),
            result is Err ==> final(self)@ == old(self)@,
            final(self)@.wf(),
    {
        let wanted = name.to_owned();
        if self.index_of(&wanted).is_some() {
            return Err(GraphError::Construction);
        }
        let node = match self.registry.find(factory_name) {
            None => {
                return Err(GraphError::Construction);
            },
            Some(kind) => {
                let templates = clone_templates(kind.templates());
                let ports = make_static_ports(&templates);
                Node {
                    name: wanted,
                    kind: kind.name().clone(),
                    properties: Vec::new(),
                    templates,
                    ports,
                }
            },
        };
        proof {
            let kind = find_kind(old(self)@.kinds, factory_name@).unwrap();
            lemma_position(kind_names(old(self)@.kinds), factory_name@);
            assert(node@.properties =~= Seq::<PropertyModel>::empty());
            assert(node@ == instantiate(kind, name@));
            lemma_instantiate_wf(kind, name@);
        }
        self.nodes.push(node);
        proof {
            let before = old(self)@;
            let names = node_names(before.nodes);
            assert(self@.nodes =~= before.nodes.push(node@));
            assert forall|k: int| 0 <= k < before.nodes.len() implies survives(
                self@.nodes,
                #[trigger] before.nodes[k],
            ) by {
                assert(self@.nodes[k] == before.nodes[k]);
            }
            lemma_grounded_extends(before, self@);
            lemma_position(names, name@);
            let after = node_names(self@.nodes);
            assert forall|i: int, j: int| 0 <= i < j < after.len() implies after[i] != after[j] by {
                if j < names.len() {
                    assert(after[i] == names[i] && after[j] == names[j]);
                } else {
                    assert(after[i] == names[i]);
                }
            }
        }
        self.tell(Command::Create { kind: factory_name.to_owned(), name: name.to_owned() });
        Ok(())
    }

    /// Sets property `property_name` of node `element_name` to `value`. Fails
    /// with `NotFound`, and changes nothing, where the node does not exist.
    pub fn set_element_property(
        &mut self,
        element_name: &str,
        property_name: &str,
        value: &str,
    ) -> (result: Result<(), GraphError>)
        requires
            old(self)@.wf(),
        ensures
            result is Ok <==> old(self)@.has_node(element_name@),
            result is Err ==> result == Err::<(), GraphError>(GraphError::NotFound) && final(self)@
                == old(self)@,
            result is Ok ==> final(self)@ == old(self)@.configure(
                element_name@,
                property_name@,
                value@,
            ),
            final(self)@.wf(),
    {
        let wanted = element_name.to_owned();
        let i = match self.index_of(&wanted) {
            None => {
                return Err(GraphError::NotFound);
            },
            Some(i) => i,
        };
        set_property(&mut self.nodes[i].properties, property_name, value);
        proof {
            let before = old(self)@;
            assert(self@.nodes =~= before.nodes.update(
                i as int,
                before.nodes[i as int].configured(property_name@, value@),
            ));
            assert(node_names(self@.nodes) =~= node_names(before.nodes));
            assert forall|k: int| 0 <= k < self@.nodes.len() implies (#[trigger] self@.nodes[k]).wf() by {
                assert(before.nodes[k].wf());
                if k == i {
                    assert forall|j: int| 0 <= j < self@.nodes[k].ports.len() implies #[trigger] self@.nodes[k].port_resolves(j) by {
                        assert(before.nodes[k].port_resolves(j));
                    }
                }
            }
            assert forall|k: int| 0 <= k < before.nodes.len() implies survives(
                self@.nodes,
                #[trigger] before.nodes[k],
            ) by {
                assert(self@.nodes[k].name == before.nodes[k].name);
                assert(self@.nodes[k].ports == before.nodes[k].ports);
            }
            lemma_grounded_extends(before, self@);
        }
        self.tell(
            Command::Configure {
                node: wanted,
                key: property_name.to_owned(),
                value: value.to_owned(),
            },
        );
        Ok(())
    }

    /// Registers `reaction` for every output port that node
    /// `src_element_name` gains from now on. Nothing happens where the node
    /// does not exist.
    pub fn on_pad_connected(&mut self, src_element_name: &str, reaction: Reaction)
        requires
            old(self)@.wf(),
        ensures
            final(self)@ == old(self)@.watch(src_element_name@, reaction@),
            final(self)@.wf(),
    {
        let wanted = src_element_name.to_owned();
        if self.index_of(&wanted).is_some() {
            let listener = Listener { node: src_element_name.to_owned(), reaction };
            self.listeners.push(listener);
            proof {
                let before = old(self)@.listeners;
                assert(self@.listeners =~= before.push(listener@));
                lemma_found_holds(old(self)@, src_element_name@);
                assert forall|i: int| 0 <= i < self@.listeners.len() implies holds(
                    self@.nodes,
                    (#[trigger] self@.listeners[i]).node,
                ) by {
                    if i < before.len() {
                        assert(self@.listeners[i] == before[i]);
                    }
                }
            }
            self.tell(Command::Watch { node: wanted });
        }
    }

    /// Posts an error message to the runtime's error bus.
    pub fn post_error_message(&mut self, category: &str, error_message: &str)
        requires
            old(self)@.wf(),
        ensures
            final(self)@ == old(self)@.report(category@, error_message@),
            final(self)@.wf(),
    {
        self.tell(
            Command::Report { category: category.to_owned(), message: error_message.to_owned() },
        );
    }

    /// Designates node `name` as the one whose ports are published on the
    /// graph's boundary; no node is designated where `name` is none.
    pub fn set_link_element(&mut self, name: &str)
        requires
            old(self)@.wf(),
        ensures
            final(self)@ == old(self)@.designate(name@),
            final(self)@.wf(),
    {
        let wanted = name.to_owned();
        if self.index_of(&wanted).is_some() {
            self.link_to = Some(wanted);
        } else {
            self.link_to = None;
        }
    }

    /// Arms a timer for `renewal` that fires at `timestamp`, or at once where
    /// that is not after `now`, and returns how long the graph waits for it.
    /// An inert graph arms nothing and returns `None`.
    pub fn add_scheduled_callback(&mut self, timestamp: u64, now: u64, renewal: Renewal) -> (delay:
        Option<u64>)
        requires
            old(self)@.wf(),
        ensures
            delay is Some <==> !old(self)@.inert,
            delay matches Some(d) ==> d == fire_time(timestamp, now) - now,
            final(self)@ == old(self)@.schedule(timestamp, now, renewal@),
            final(self)@.wf(),
    {
        if self.inert {
            return None;
        }
        let fire_at = if timestamp <= now {
            now
        } else {
            timestamp
        };
        let timer = Timer { fire_at, renewal };
        self.timers.push(timer);
        assert(self@.timers =~= old(self)@.timers.push(timer@));
        let delay = fire_at - now;
        self.tell(Command::Sleep { delay });
        Some(delay)
    }

    /// Tears the graph down: it is halted, every node is removed, nothing
    /// stays pending, and from now on it arms no timer.
    pub fn failure(&mut self, error: GraphError)
        requires
            old(self)@.wf(),
        ensures
            final(self)@ == old(self)@.teardown(),
            final(self)@.wf(),
    {
        self.commands.push(Command::Halt);
        let ghost halted = old(self)@.commands.push(CommandModel::Halt);
        let ghost nodes = old(self)@.nodes;
        assert(command_models(self.commands@) =~= halted + removals(nodes.take(0)));
        let mut i: usize = 0;
        while i < self.nodes.len()
            invariant
                i <= self.nodes.len(),
                self.nodes == old(self).nodes,
                self.name == old(self).name,
                self.registry == old(self).registry,
                nodes == node_models(self.nodes@),
                old(self)@.wf(),
                command_models(self.commands@) == halted + removals(nodes.take(i as int)),
            decreases self.nodes.len() - i,
        {
            let command = Command::Remove { node: self.nodes[i].name.clone() };
            let ghost before = command_models(self.commands@);
            self.commands.push(command);
            proof {
                assert(command_models(self.commands@) =~= before.push(command@));
                assert(nodes[i as int].name == self.nodes[i as int].name@);
                assert(removals(nodes.take(i + 1)) =~= removals(nodes.take(i as int)).push(
                    command@,
                ));
                assert(command_models(self.commands@) =~= halted + removals(nodes.take(i + 1)));
            }
            i += 1;
        }
        assert(nodes.take(i as int) =~= nodes);
        self.nodes = Vec::new();
        self.links = Vec::new();
        self.boundary = Vec::new();
        self.listeners = Vec::new();
        self.timers = Vec::new();
        self.link_to = None;
        self.inert = true;
        proof {
            let g = old(self)@.teardown();
            assert(self@.nodes =~= g.nodes);
            assert(self@.links =~= g.links);
            assert(self@.boundary =~= g.boundary);
            assert(self@.listeners =~= g.listeners);
            assert(self@.timers =~= g.timers);
            assert(node_names(g.nodes) =~= Seq::<Text>::empty());
        }
    }

    /// Hands over the instructions that the runtime has not yet been given,
    /// in the order in which they arose.
    pub fn take_commands(&mut self) -> (commands: Vec<Command>)
        ensures
            command_models(commands@) == old(self)@.commands,
            final(self)@ == old(self)@.drained(),
            old(self)@.wf() ==> final(self)@.wf(),
    {
        let mut commands: Vec<Command> = Vec::new();
        core::mem::swap(&mut commands, &mut self.commands);
        assert(self@.commands =~= Seq::<CommandModel>::empty());
        commands
    }

    /// Fires the first timer that is due at `now` and returns the renewal it
    /// stands for; `None` where no timer is due.
    pub fn take_due_timer(&mut self, now: u64) -> (fired: Option<Renewal>)
        requires
            old(self)@.wf(),
        ensures
            final(self)@ == old(self)@.fire(now),
            match fired {
                Some(renewal) => old(self)@.due_timer(now) is Some && renewal@ == old(
                    self,
                )@.timers[old(self)@.due_timer(now).unwrap()].renewal,
                None => old(self)@.due_timer(now) is None,
            },
            final(self)@.wf(),
    {
        let ghost timers = old(self)@.timers;
        let ghost test = due(timers, now);
        let mut i: usize = 0;
        while i < self.timers.len()
            invariant
                i <= self.timers.len(),
                *self == *old(self),
                self@.wf(),
                timers == timer_models(self.timers@),
                test == due(timers, now),
                forall|j: int| 0 <= j < i ==> !#[trigger] test(j),
            decreases self.timers.len() - i,
        {
            if self.timers[i].fire_at <= now {
                proof {
                    assert(test(i as int));
                    lemma_least_found(test, timers.len() as int, i as int);
                }
                let timer = self.timers.remove(i);
                assert(self@.timers =~= timers.remove(i as int));
                return Some(timer.renewal);
            }
            assert(!test(i as int));
            i += 1;
        }
        proof {
            lemma_least_absent(test, timers.len() as int);
        }
        None
    }

    /// Connects output `src_port` of `src_node` to the fixed input of
    /// `sink_node`.
    fn link_ports(&mut self, src_node: &String, src_port: &String, sink_node: &String) -> (result:
        Result<(), GraphError>)
        requires
            old(self)@.wf(),
        ensures
            result == outcome(old(self)@.link_check(src_node@, src_port@, sink_node@)),
            result is Ok ==> final(self)@ == old(self)@.link(src_node@, src_port@, sink_node@),
            result is Err ==> final(self)@ == old(self)@,
            final(self)@.wf(),
    {
        let sink = "sink".to_owned();
        let s = match self.index_of(src_node) {
            None => {
                return Err(GraphError::NotFound);
            },
            Some(s) => s,
        };
        let t = match self.index_of(sink_node) {
            None => {
                return Err(GraphError::NotFound);
            },
            Some(t) => t,
        };
        if !has_port(&self.nodes[s], src_port, PortDirection::Output) || !has_port(
            &self.nodes[t],
            &sink,
            PortDirection::Input,
        ) {
            return Err(GraphError::NotFound);
        }
        if src_in_use(&self.links, src_node, src_port) || sink_in_use(
            &self.links,
            sink_node,
            &sink,
        ) {
            return Err(GraphError::Link);
        }
        let link = Link {
            src_node: src_node.clone(),
            src_port: src_port.clone(),
            sink_node: sink_node.clone(),
            sink_port: sink,
        };
        let command = Command::Link { link: link.clone() };
        self.links.push(link);
        proof {
            let before = old(self)@.links;
            assert(self@.links =~= before.push(link@));
            lemma_found_holds(old(self)@, src_node@);
            lemma_found_holds(old(self)@, sink_node@);
            assert(joins(self@.nodes, link@));
            assert forall|i: int| 0 <= i < self@.links.len() implies joins(
                self@.nodes,
                #[trigger] self@.links[i],
            ) by {
                if i < before.len() {
                    assert(self@.links[i] == before[i]);
                }
            }
            assert forall|i: int, j: int| 0 <= i < j < self@.links.len() implies {
                &&& !((#[trigger] self@.links[i]).src_node == (#[trigger] self@.links[j]).src_node
                    && self@.links[i].src_port == self@.links[j].src_port)
                &&& !(self@.links[i].sink_node == self@.links[j].sink_node
                    && self@.links[i].sink_port == self@.links[j].sink_port)
            } by {
                if j < before.len() {
                    assert(self@.links[i] == before[i] && self@.links[j] == before[j]);
                } else {
                    assert(self@.links[i] == before[i]);
                }
            }
        }
        self.tell(command);
        Ok(())
    }

    /// Where the first node stands that has an output port called `port`.
    fn owner_of(&self, port: &String) -> (found: Option<usize>)
        ensures
            match found {
                Some(i) => self@.owner_of(port@) == Some(i as int) && i < self.nodes.len(),
                None => self@.owner_of(port@) is None,
            },
    {
        let ghost test = owns(self@.nodes, port@, PortDirection::Output);
        let mut i: usize = 0;
        while i < self.nodes.len()
            invariant
                i <= self.nodes.len(),
                test == owns(self@.nodes, port@, PortDirection::Output),
                forall|j: int| 0 <= j < i ==> !#[trigger] test(j),
            decreases self.nodes.len() - i,
        {
            if has_port(&self.nodes[i], port, PortDirection::Output) {
                proof {
                    assert(test(i as int));
                    lemma_least_found(test, self.nodes.len() as int, i as int);
                }
                return Some(i);
            }
            assert(!test(i as int));
            i += 1;
        }
        proof {
            lemma_least_absent(test, self.nodes.len() as int);
        }
        None
    }

    /// Connects the output port called `src_pad_name`, on the first node
    /// that owns one of that name, to the fixed input port of node
    /// `element_name`. Fails with `NotFound` where an endpoint is missing and
    /// with `Link` where one of the two ports has a peer already; a failure
    /// changes nothing.
    pub fn connect_src_pad_to_static_sink_pad(&mut self, src_pad_name: &str, element_name: &str) -> (result:
        Result<(), GraphError>)
        requires
            old(self)@.wf(),
        ensures
            result == outcome(old(self)@.connect_check(src_pad_name@, element_name@)),
            result is Ok ==> final(self)@ == old(self)@.connect(src_pad_name@, element_name@),
            result is Err ==> final(self)@ == old(self)@,
            final(self)@.wf(),
    {
        let port = src_pad_name.to_owned();
        let node = element_name.to_owned();
        match self.owner_of(&port) {
            None => Err(GraphError::NotFound),
            Some(i) => {
                let owner = self.nodes[i].name.clone();
                self.link_ports(&owner, &port, &node)
            },
        }
    }

    /// Takes the node called `name` out of the graph, with the links that
    /// touch it, its listeners and its boundary ports.
    fn remove_element(&mut self, name: &String)
        requires
            old(self)@.wf(),
        ensures
            final(self)@ == old(self)@.remove_node(name@),
            final(self)@.wf(),
    {
        let found = self.index_of(name);
        if let Some(i) = found {
            self.nodes.remove(i);
            proof {
                let before = old(self)@.nodes;
                assert(self@.nodes =~= before.remove(i as int));
                let names = node_names(before);
                let after = node_names(self@.nodes);
                assert forall|a: int, b: int| 0 <= a < b < after.len() implies after[a] != after[b] by {
                    let a0 = if a < i { a } else { a + 1 };
                    let b0 = if b < i { b } else { b + 1 };
                    assert(after[a] == names[a0] && after[b] == names[b0]);
                }
                assert forall|k: int| 0 <= k < self@.nodes.len() implies (#[trigger] self@.nodes[k]).wf() by {
                    let k0 = if k < i { k } else { k + 1 };
                    assert(self@.nodes[k] == before[k0]);
                }
            }
        }
        self.links = links_clear_of(&self.links, name);
        self.listeners = listeners_off(&self.listeners, name);
        self.boundary = boundary_off(&self.boundary, name);
        proof {
            lemma_filter_exclusive(old(self)@.links, clear_of(name@));
            lemma_grounded_without(old(self)@, name@);
        }
        if found.is_some() {
            self.tell(Command::Remove { node: name.clone() });
        }
    }

    /// Where the first link stands that touches `node`.
    fn first_touching(&self, node: &String) -> (found: Option<usize>)
        ensures
            match found {
                Some(i) => least(touching(self@.links, node@), self@.links.len() as int) == Some(
                    i as int,
                ) && i < self.links.len(),
                None => least(touching(self@.links, node@), self@.links.len() as int) is None,
            },
    {
        let ghost test = touching(self@.links, node@);
        let mut i: usize = 0;
        while i < self.links.len()
            invariant
                i <= self.links.len(),
                test == touching(self@.links, node@),
                forall|j: int| 0 <= j < i ==> !#[trigger] test(j),
            decreases self.links.len() - i,
        {
            assert(self@.links[i as int] == self.links[i as int]@);
            if self.links[i].src_node == *node || self.links[i].sink_node == *node {
                proof {
                    assert(test(i as int));
                    lemma_least_found(test, self.links.len() as int, i as int);
                }
                return Some(i);
            }
            assert(!test(i as int));
            i += 1;
        }
        proof {
            lemma_least_absent(test, self.links.len() as int);
        }
        None
    }

    /// Undoes every link of node `element_name` and removes the node at the
    /// other end of each, one link after the other. Fails with `NotFound`,
    /// and changes nothing, where the node does not exist.
    pub fn unlink_and_remove_src_elements(&mut self, element_name: &str) -> (result: Result<
        (),
        GraphError,
    >)
        requires
            old(self)@.wf(),
        ensures
            result is Ok <==> old(self)@.has_node(element_name@),
            result is Err ==> result == Err::<(), GraphError>(GraphError::NotFound) && final(self)@
                == old(self)@,
            result is Ok ==> final(self)@ == old(self)@.detach(element_name@),
            final(self)@.wf(),
    {
        let node = element_name.to_owned();
        if self.index_of(&node).is_none() {
            return Err(GraphError::NotFound);
        }
        self.detach(&node);
        Ok(())
    }

    /// Undoes every link of `node` and removes the node at the other end of
    /// each.
    fn detach(&mut self, node: &String)
        requires
            old(self)@.wf(),
        ensures
            final(self)@ == old(self)@.detach(node@),
            final(self)@.wf(),
    {
        let ghost mut fuel: nat = self@.links.len();
        loop
            invariant
                self@.wf(),
                self@.links.len() <= fuel,
                self@.detach_within(node@, fuel) == old(self)@.detach(node@),
            ensures
                self@ == old(self)@.detach(node@),
                self@.wf(),
            decreases fuel,
        {
            let i = match self.first_touching(node) {
                None => {
                    break ;
                },
                Some(i) => i,
            };
            let ghost before = self@;
            let link = self.links.remove(i);
            proof {
                assert(self@.links =~= before.links.remove(i as int));
                assert forall|a: int, b: int| 0 <= a < b < self@.links.len() implies {
                    &&& !((#[trigger] self@.links[a]).src_node == (
                    #[trigger] self@.links[b]).src_node && self@.links[a].src_port
                        == self@.links[b].src_port)
                    &&& !(self@.links[a].sink_node == self@.links[b].sink_node
                        && self@.links[a].sink_port == self@.links[b].sink_port)
                } by {
                    let a0 = if a < i { a } else { a + 1 };
                    let b0 = if b < i { b } else { b + 1 };
                    assert(self@.links[a] == before.links[a0] && self@.links[b]
                        == before.links[b0]);
                }
                assert forall|a: int| 0 <= a < self@.links.len() implies joins(
                    self@.nodes,
                    #[trigger] self@.links[a],
                ) by {
                    let a0 = if a < i { a } else { a + 1 };
                    assert(self@.links[a] == before.links[a0]);
                }
            }
            let peer = if link.sink_node == *node {
                link.src_node.clone()
            } else {
                link.sink_node.clone()
            };
            self.tell(Command::Unlink { link });
            assert(self@ == before.unlink(i as int));
            self.remove_element(&peer);
            proof {
                assert(self@ == before.detach_step(node@, i as int));
                before.unlink(i as int).links.lemma_filter_len(clear_of(peer@));
                fuel = (fuel - 1) as nat;
            }
        }
    }

    /// Publishes one more boundary port.
    fn expose(&mut self, port: BoundaryPort)
        requires
            old(self)@.wf(),
            holds(old(self)@.nodes, port.node@),
        ensures
            final(self)@ == old(self)@.expose(port@),
            final(self)@.wf(),
    {
        self.boundary.push(port.clone());
        proof {
            let before = old(self)@.boundary;
            assert(self@.boundary =~= before.push(port@));
            assert forall|i: int| 0 <= i < self@.boundary.len() implies holds(
                self@.nodes,
                (#[trigger] self@.boundary[i]).node,
            ) by {
                if i < before.len() {
                    assert(self@.boundary[i] == before[i]);
                }
            }
        }
        self.tell(Command::Expose { port });
    }

    /// Registers a listener that publishes the ports `node` gains from
    /// `template`.
    fn watch_template(&mut self, node: &String, template: &String)
        requires
            old(self)@.wf(),
            holds(old(self)@.nodes, node@),
        ensures
            final(self)@ == old(self)@.watch_template(node@, template@),
            final(self)@.wf(),
    {
        let listener = Listener {
            node: node.clone(),
            reaction: Reaction::Publish { template: template.clone() },
        };
        self.listeners.push(listener);
        proof {
            let before = old(self)@.listeners;
            assert(self@.listeners =~= before.push(listener@));
            assert forall|i: int| 0 <= i < self@.listeners.len() implies holds(
                self@.nodes,
                (#[trigger] self@.listeners[i]).node,
            ) by {
                if i < before.len() {
                    assert(self@.listeners[i] == before[i]);
                }
            }
        }
        self.tell(Command::Watch { node: node.clone() });
    }

    /// Publishes those of `ports` that are output ports made from `template`.
    fn expose_matching(&mut self, node: &String, template: &PortTemplate, ports: &Vec<Port>)
        requires
            old(self)@.wf(),
            holds(old(self)@.nodes, node@),
        ensures
            final(self)@.nodes == old(self)@.nodes,
            final(self)@ == old(self)@.expose_matching(
                node@,
                template@,
                port_models(ports@),
                ports.len() as nat,
            ),
            final(self)@.wf(),
    {
        let ghost models = port_models(ports@);
        let mut j: usize = 0;
        while j < ports.len()
            invariant
                j <= ports.len(),
                models == port_models(ports@),
                self@.wf(),
                self@.nodes == old(self)@.nodes,
                holds(self@.nodes, node@),
                self@ == old(self)@.expose_matching(node@, template@, models, j as nat),
            decreases ports.len() - j,
        {
            assert(models[j as int] == ports[j as int]@);
            if ports[j].direction == PortDirection::Output && ports[j].template == template.name {
                self.expose(
                    BoundaryPort {
                        node: node.clone(),
                        template: template.name.clone(),
                        port: Some(ports[j].name.clone()),
                    },
                );
            }
            j += 1;
        }
    }

    /// Publishes the output ports of the designated node on the graph's
    /// boundary, template by template: every port there is of an
    /// always-present template, each port that appears later of a template
    /// whose ports come and go, and one port requested from a template whose
    /// ports are made on request. Fails with `NotFound`, and changes nothing,
    /// where no node is designated or the designated node is gone.
    pub fn add_ghost_src_pads(&mut self) -> (result: Result<(), GraphError>)
        requires
            old(self)@.wf(),
        ensures
            result == outcome(old(self)@.publish_check()),
            result is Ok ==> final(self)@ == old(self)@.publish(),
            result is Err ==> final(self)@ == old(self)@,
            final(self)@.wf(),
    {
        let name = match &self.link_to {
            None => {
                return Err(GraphError::NotFound);
            },
            Some(name) => name.clone(),
        };
        let i = match self.index_of(&name) {
            None => {
                return Err(GraphError::NotFound);
            },
            Some(i) => i,
        };
        let templates = clone_templates(&self.nodes[i].templates);
        let ports = clone_ports(&self.nodes[i].ports);
        let ghost target = self@.nodes[i as int];
        proof {
            lemma_position(node_names(self@.nodes), name@);
            assert(target.name == name@);
            assert(target == old(self)@.node(name@));
            lemma_found_holds(self@, name@);
        }
        let mut k: usize = 0;
        while k < templates.len()
            invariant
                k <= templates.len(),
                template_models(templates@) == target.templates,
                port_models(ports@) == target.ports,
                target.name == name@,
                self@.wf(),
                holds(self@.nodes, name@),
                self@ == old(self)@.publish_upto(target, k as nat),
            decreases templates.len() - k,
        {
            assert(target.templates[k as int] == templates[k as int]@);
            match templates[k].direction {
                PortDirection::Output => {
                    match templates[k].presence {
                        PortPresence::Always => {
                            self.expose_matching(&name, &templates[k], &ports);
                        },
                        PortPresence::Sometimes => {
                            self.watch_template(&name, &templates[k].name);
                        },
                        PortPresence::Request => {
                            self.expose(
                                BoundaryPort {
                                    node: name.clone(),
                                    template: templates[k].name.clone(),
                                    port: None,
                                },
                            );
                        },
                    }
                },
                PortDirection::Input => {},
            }
            k += 1;
        }
        Ok(())
    }

    /// Lets `listener` react to output port `port` that `node` gained from
    /// `template`.
    fn react(&mut self, node: &String, template: &String, port: &String, listener: &Listener) -> (result:
        Result<(), GraphError>)
        requires
            old(self)@.wf(),
        ensures
            final(self)@ == old(self)@.react(node@, template@, port@, listener@).0,
            result == outcome(old(self)@.react(node@, template@, port@, listener@).1),
            final(self)@.wf(),
    {
        if !(listener.node == *node) {
            return Ok(());
        }
        match &listener.reaction {
            Reaction::Link { sink } => self.link_ports(node, port, sink),
            Reaction::Swap { sink } => {
                if self.index_of(sink).is_none() {
                    return Err(GraphError::NotFound);
                }
                self.detach(sink);
                self.link_ports(node, port, sink)
            },
            Reaction::Publish { template: wanted } => {
                if *wanted == *template && self.index_of(node).is_some() {
                    proof {
                        lemma_found_holds(self@, node@);
                    }
                    self.expose(
                        BoundaryPort {
                            node: node.clone(),
                            template: template.clone(),
                            port: Some(port.clone()),
                        },
                    );
                }
                Ok(())
            },
        }
    }

    /// Takes note that the runtime saw node `node` gain port `port` from its
    /// template `template`. A port of an unknown node or template, or one
    /// whose name the node has already, changes nothing. An output port is
    /// handed to the listeners registered on the node, in the order of their
    /// registration; the first reaction that fails tears the graph down, and
    /// its error is returned.
    pub fn port_attached(&mut self, node: &str, template: &str, port: &str) -> (result: Result<
        (),
        GraphError,
    >)
        requires
            old(self)@.wf(),
        ensures
            final(self)@ == old(self)@.attach(node@, template@, port@).0,
            result == outcome(old(self)@.attach(node@, template@, port@).1),
            final(self)@.wf(),
    {
        let node_name = node.to_owned();
        let template_name = template.to_owned();
        let port_name = port.to_owned();
        let i = match self.index_of(&node_name) {
            None => {
                return Ok(());
            },
            Some(i) => i,
        };
        let t = match find_template(&self.nodes[i], &template_name) {
            None => {
                return Ok(());
            },
            Some(t) => t,
        };
        if carries(&self.nodes[i], &port_name) {
            return Ok(());
        }
        let direction = self.nodes[i].templates[t].direction;
        let fresh = Port { name: port_name.clone(), template: template_name.clone(), direction };
        self.nodes[i].ports.push(fresh);
        proof {
            let before = old(self)@;
            let was = before.nodes[i as int];
            lemma_position(template_names(was.templates), template@);
            assert(was.templates[t as int] == old(self).nodes[i as int].templates[t as int]@);
            assert(self@.nodes[i as int].ports =~= was.ports.push(fresh@));
            assert(self@.nodes =~= before.nodes.update(i as int, was.with_port(fresh@)));
            assert(self@ == before.record_port(node@, template@, port@));
            assert(node_names(self@.nodes) =~= node_names(before.nodes));
            assert forall|k: int| 0 <= k < before.nodes.len() implies survives(
                self@.nodes,
                #[trigger] before.nodes[k],
            ) by {
                assert(self@.nodes[k].name == before.nodes[k].name);
                assert forall|p: Text, d: PortDirection| #[trigger]
                    before.nodes[k].has_port(p, d) implies self@.nodes[k].has_port(p, d) by {
                    let j = choose|j: int|
                        0 <= j < before.nodes[k].ports.len() && (
                        #[trigger] before.nodes[k].ports[j]).name == p
                            && before.nodes[k].ports[j].direction == d;
                    assert(self@.nodes[k].ports[j] == before.nodes[k].ports[j]);
                }
            }
            lemma_grounded_extends(before, self@);
            assert forall|k: int| 0 <= k < self@.nodes.len() implies (#[trigger] self@.nodes[k]).wf() by {
                assert(before.nodes[k].wf());
                if k == i {
                    let now = self@.nodes[k];
                    assert forall|j: int| 0 <= j < now.ports.len() implies #[trigger] now.port_resolves(
                        j,
                    ) by {
                        if j < was.ports.len() {
                            assert(was.port_resolves(j));
                            let w = choose|w: int|
                                0 <= w < was.templates.len() && (#[trigger] was.templates[w]).name
                                    == was.ports[j].template && was.templates[w].direction
                                    == was.ports[j].direction;
                            assert(now.templates[w].name == now.ports[j].template);
                        } else {
                            assert(now.templates[t as int].name == now.ports[j].template);
                        }
                    }
                }
            }
        }
        match direction {
            PortDirection::Input => {
                return Ok(());
            },
            PortDirection::Output => {},
        }
        let listeners = clone_listeners(&self.listeners);
        let ghost recorded = self@;
        let ghost snapshot = listener_models(listeners@);
        let ghost goal = old(self)@.attach(node@, template@, port@);
        assert(goal == recorded.deliver(node@, template@, port@, snapshot, 0));
        let mut k: usize = 0;
        while k < listeners.len()
            invariant
                k <= listeners.len(),
                snapshot == listener_models(listeners@),
                snapshot == recorded.listeners,
                goal == old(self)@.attach(node@, template@, port@),
                goal == recorded.deliver(node@, template@, port@, snapshot, 0),
                node_name@ == node@,
                template_name@ == template@,
                port_name@ == port@,
                self@.wf(),
                self@.deliver(node@, template@, port@, snapshot, k as int) == recorded.deliver(
                    node@,
                    template@,
                    port@,
                    snapshot,
                    0,
                ),
            decreases listeners.len() - k,
        {
            assert(snapshot[k as int] == listeners[k as int]@);
            let reacted = self.react(&node_name, &template_name, &port_name, &listeners[k]);
            if let Err(e) = reacted {
                self.failure(e);
                return Err(e);
            }
            k += 1;
        }
        Ok(())
    }

    /// Whether the graph has been torn down.
    pub fn is_inert(&self) -> (inert: bool)
        ensures
            inert == self@.inert,
    {
        self.inert
    }

    /// The graph's name.
    pub fn name(&self) -> (name: &String)
        ensures
            name@ == self@.name,
    {
        &self.name
    }

    /// Whether the graph has a node called `name`.
    pub fn has_element(&self, name: &str) -> (found: bool)
        ensures
            found == self@.has_node(name@),
    {
        let wanted = name.to_owned();
        self.index_of(&wanted).is_some()
    }

    /// The nodes of the graph, in the order of their insertion.
    pub fn elements(&self) -> (nodes: &Vec<Node>)
        ensures
            node_models(nodes@) == self@.nodes,
    {
        &self.nodes
    }

    /// The links of the graph, in the order in which they were made.
    pub fn links(&self) -> (links: &Vec<Link>)
        ensures
            link_models(links@) == self@.links,
    {
        &self.links
    }

    /// The boundary ports of the graph, in the order of their publication.
    pub fn boundary_ports(&self) -> (ports: &Vec<BoundaryPort>)
        ensures
            boundary_models(ports@) == self@.boundary,
    {
        &self.boundary
    }

    /// The listeners of the graph, in the order of their registration.
    pub fn listeners(&self) -> (listeners: &Vec<Listener>)
        ensures
            listener_models(listeners@) == self@.listeners,
    {
        &self.listeners
    }

    /// The timers that have not fired, in the order in which they were armed.
    pub fn timers(&self) -> (timers: &Vec<Timer>)
        ensures
            timer_models(timers@) == self@.timers,
    {
        &self.timers
    }

    /// The instructions that the runtime has not yet been given.
    pub fn commands(&self) -> (commands: &Vec<Command>)
        ensures
            command_models(commands@) == self@.commands,
    {
        &self.commands
    }

    /// The node designated for publication, if one is.
    pub fn link_element(&self) -> (name: &Option<String>)
        ensures
            text_of(*name) == self@.link_to,
    {
        &self.link_to
    }

    /// The value of property `property_name` of node `element_name`; `None`
    /// where the node does not exist or has no such property.
    pub fn element_property(&self, element_name: &str, property_name: &str) -> (value: Option<
        String,
    >)
        ensures
            text_of(value) == if self@.has_node(element_name@) {
                self@.node(element_name@).property(property_name@)
            } else {
                None
            },
    {
        let wanted = element_name.to_owned();
        let key = property_name.to_owned();
        let i = match self.index_of(&wanted) {
            None => {
                return None;
            },
            Some(i) => i,
        };
        let properties = &self.nodes[i].properties;
        let ghost models = property_models(properties@);
        let ghost keys = property_keys(models);
        assert(self@.node(element_name@).properties == models);
        let mut k: usize = 0;
        while k < properties.len()
            invariant
                k <= properties.len(),
                models == property_models(properties@),
                keys == property_keys(models),
                self@.has_node(element_name@),
                self@.node(element_name@).properties == models,
                forall|j: int| 0 <= j < k ==> keys[j] != property_name@,
                key@ == property_name@,
            decreases properties.len() - k,
        {
            assert(keys[k as int] == properties[k as int].key@);
            if properties[k].key == key {
                proof {
                    lemma_position_found(keys, property_name@, k as int);
                    assert(models[k as int].value == properties[k as int].value@);
                }
                return Some(properties[k].value.clone());
            }
            k += 1;
        }
        proof {
            lemma_position_absent(keys, property_name@);
        }
        None
    }

    /// The kind of node `element_name`; `None` where the node does not
    /// exist. An error that the runtime's bus reports for a node is handed
    /// on with the node's kind.
    pub fn element_kind(&self, element_name: &str) -> (kind: Option<String>)
        ensures
            text_of(kind) == if self@.has_node(element_name@) {
                Some(self@.node(element_name@).kind)
            } else {
                None
            },
    {
        let wanted = element_name.to_owned();
        match self.index_of(&wanted) {
            None => None,
            Some(i) => Some(self.nodes[i].kind.clone()),
        }
    }
}

} // verus!

//! The graph as contracts see it: plain values, and each operation of the
//! builder as a function from one graph to the next.

use crate::catalog::{
    distinct_templates, find_kind, kinds_wf, template_names, KindModel, PortDirection,
    PortPresence, TemplateModel,
};
use crate::error::GraphError;
use crate::google_api::SessionModel;
use crate::search::{distinct, least, lemma_position, listed, position, Text};
use vstd::prelude::*;

verus! {

/// The name of the fixed input port that links lead into.
pub open spec fn sink_port() -> Text {
    "sink"@
}

/// A port of a node, made from the template it names.
pub struct PortModel {
    pub name: Text,
    pub template: Text,
    pub direction: PortDirection,
}

/// A configuration property of a node.
pub struct PropertyModel {
    pub key: Text,
    pub value: Text,
}

/// A node of the graph.
pub struct NodeModel {
    pub name: Text,
    pub kind: Text,
    pub properties: Seq<PropertyModel>,
    pub templates: Seq<TemplateModel>,
    pub ports: Seq<PortModel>,
}

/// A connection from an output port to an input port.
pub struct LinkModel {
    pub src_node: Text,
    pub src_port: Text,
    pub sink_node: Text,
    pub sink_port: Text,
}

/// What a listener does with a port that its node gains.
pub enum ReactionModel {
    /// Connect the port to the fixed input of `sink`.
    Link { sink: Text },
    /// Retire whatever feeds `sink`, then connect the port to it.
    Swap { sink: Text },
    /// Publish the port on the graph's boundary if it was made from
    /// `template`.
    Publish { template: Text },
}

/// A persistent reaction to the ports that `node` gains.
pub struct ListenerModel {
    pub node: Text,
    pub reaction: ReactionModel,
}

/// A published alias for a port of `node` made from `template`. The port is
/// named where it existed on publication; a requested port is named by the
/// runtime alone.
pub struct BoundaryModel {
    pub node: Text,
    pub template: Text,
    pub port: Option<Text>,
}

/// The renewal that a timer stands for.
pub struct RenewalModel {
    pub device_id: Text,
    pub session: SessionModel,
}

/// A pending timer.
pub struct TimerModel {
    pub fire_at: u64,
    pub renewal: RenewalModel,
}

/// An instruction to the media runtime.
pub enum CommandModel {
    Create { kind: Text, name: Text },
    Configure { node: Text, key: Text, value: Text },
    Watch { node: Text },
    Link { link: LinkModel },
    Unlink { link: LinkModel },
    Remove { node: Text },
    Expose { port: BoundaryModel },
    Sleep { delay: u64 },
    Halt,
    Report { category: Text, message: Text },
}

/// A graph and what it owes the runtime.
pub struct GraphModel {
    pub name: Text,
    pub kinds: Seq<KindModel>,
    pub nodes: Seq<NodeModel>,
    pub links: Seq<LinkModel>,
    pub boundary: Seq<BoundaryModel>,
    pub listeners: Seq<ListenerModel>,
    pub timers: Seq<TimerModel>,
    pub link_to: Option<Text>,
    pub inert: bool,
    pub commands: Seq<CommandModel>,
}

/// The port that a node has from the first for an always-present template.
pub open spec fn static_port(template: TemplateModel) -> PortModel {
    PortModel { name: template.name, template: template.name, direction: template.direction }
}

/// The ports that a node has from the first: one for each always-present
/// template, in the templates' order.
pub open spec fn static_ports(templates: Seq<TemplateModel>) -> Seq<PortModel>
    decreases templates.len(),
{
    if templates.len() == 0 {
        Seq::empty()
    } else {
        let rest = static_ports(templates.drop_last());
        if templates.last().presence is Always {
            rest.push(static_port(templates.last()))
        } else {
            rest
        }
    }
}

/// A fresh node of `kind` called `name`.
pub open spec fn instantiate(kind: KindModel, name: Text) -> NodeModel {
    NodeModel {
        name,
        kind: kind.name,
        properties: Seq::empty(),
        templates: kind.templates,
        ports: static_ports(kind.templates),
    }
}

/// The keys of a run of properties, in order.
pub open spec fn property_keys(properties: Seq<PropertyModel>) -> Seq<Text> {
    properties.map_values(|p: PropertyModel| p.key)
}

/// `properties` with `key` set to `value`: in place where the key is there,
/// at the end where it is not.
pub open spec fn with_property(properties: Seq<PropertyModel>, key: Text, value: Text) -> Seq<
    PropertyModel,
> {
    match position(property_keys(properties), key) {
        Some(i) => properties.update(i, PropertyModel { key, value }),
        None => properties.push(PropertyModel { key, value }),
    }
}

/// The test that the node at a place has a port `port` of `direction`.
pub open spec fn owns(nodes: Seq<NodeModel>, port: Text, direction: PortDirection) -> spec_fn(
    int,
) -> bool {
    |i: int| nodes[i].has_port(port, direction)
}

impl NodeModel {
    /// Whether the node has a port called `name` of the given direction.
    pub open spec fn has_port(self, name: Text, direction: PortDirection) -> bool {
        exists|i: int|
            0 <= i < self.ports.len() && (#[trigger] self.ports[i]).name == name
                && self.ports[i].direction == direction
    }

    /// Whether the node has a port called `name`.
    pub open spec fn carries(self, name: Text) -> bool {
        exists|i: int| 0 <= i < self.ports.len() && (#[trigger] self.ports[i]).name == name
    }

    /// The template of the node called `name`.
    pub open spec fn template_named(self, name: Text) -> Option<TemplateModel> {
        match position(template_names(self.templates), name) {
            Some(i) => Some(self.templates[i]),
            None => None,
        }
    }

    /// The value of property `key`.
    pub open spec fn property(self, key: Text) -> Option<Text> {
        match position(property_keys(self.properties), key) {
            Some(i) => Some(self.properties[i].value),
            None => None,
        }
    }

    /// Port `i` was made from a template of the node, with its direction.
    pub open spec fn port_resolves(self, i: int) -> bool {
        exists|k: int|
            0 <= k < self.templates.len() && (#[trigger] self.templates[k]).name
                == self.ports[i].template && self.templates[k].direction
                == self.ports[i].direction
    }

    /// Template names are distinct and every port comes from a template.
    pub open spec fn wf(self) -> bool {
        &&& distinct_templates(self.templates)
        &&& forall|i: int| 0 <= i < self.ports.len() ==> #[trigger] self.port_resolves(i)
    }

    /// The node with property `key` set to `value`.
    pub open spec fn configured(self, key: Text, value: Text) -> NodeModel {
        NodeModel { properties: with_property(self.properties, key, value), ..self }
    }

    /// The node with one more port.
    pub open spec fn with_port(self, port: PortModel) -> NodeModel {
        NodeModel { ports: self.ports.push(port), ..self }
    }
}

impl LinkModel {
    /// Whether the link begins or ends at `node`.
    pub open spec fn touches(self, node: Text) -> bool {
        self.src_node == node || self.sink_node == node
    }

    /// The node at the other end of a link that touches `node`.
    pub open spec fn peer_of(self, node: Text) -> Text {
        if self.sink_node == node {
            self.src_node
        } else {
            self.sink_node
        }
    }
}

/// The names of a run of nodes, in order.
pub open spec fn node_names(nodes: Seq<NodeModel>) -> Seq<Text> {
    nodes.map_values(|n: NodeModel| n.name)
}

/// The test that the link at a place touches `node`.
pub open spec fn touching(links: Seq<LinkModel>, node: Text) -> spec_fn(int) -> bool {
    |i: int| links[i].touches(node)
}

/// Whether one of `nodes` is called `name`.
pub open spec fn holds(nodes: Seq<NodeModel>, name: Text) -> bool {
    exists|k: int| 0 <= k < nodes.len() && (#[trigger] nodes[k]).name == name
}

/// Whether one of `nodes` is called `name` and has a port `port` of
/// `direction`.
pub open spec fn offers(nodes: Seq<NodeModel>, name: Text, port: Text, direction: PortDirection) -> bool {
    exists|k: int|
        0 <= k < nodes.len() && (#[trigger] nodes[k]).name == name && nodes[k].has_port(
            port,
            direction,
        )
}

/// Whether `link` joins an output port of one of `nodes` to the fixed input
/// port of one.
pub open spec fn joins(nodes: Seq<NodeModel>, link: LinkModel) -> bool {
    &&& link.sink_port == sink_port()
    &&& offers(nodes, link.src_node, link.src_port, PortDirection::Output)
    &&& offers(nodes, link.sink_node, link.sink_port, PortDirection::Input)
}

/// Whether a node like `node`, with at least its ports, is among `nodes`.
pub open spec fn survives(nodes: Seq<NodeModel>, node: NodeModel) -> bool {
    exists|k: int|
        0 <= k < nodes.len() && (#[trigger] nodes[k]).name == node.name && forall|
            port: Text,
            direction: PortDirection,
        | #[trigger]
            node.has_port(port, direction) ==> nodes[k].has_port(port, direction)
}

/// What refers to nodes goes on referring to them where every node stays,
/// with at least the ports it had.
pub proof fn lemma_grounded_extends(before: GraphModel, after: GraphModel)
    requires
        before.grounded(),
        forall|k: int| 0 <= k < before.nodes.len() ==> survives(after.nodes, #[trigger] before.nodes[k]),
        after.links == before.links,
        after.listeners == before.listeners,
        after.boundary == before.boundary,
    ensures
        after.grounded(),
        forall|name: Text| holds(before.nodes, name) ==> #[trigger] holds(after.nodes, name),
        forall|name: Text, port: Text, direction: PortDirection|
            offers(before.nodes, name, port, direction) ==> #[trigger] offers(
                after.nodes,
                name,
                port,
                direction,
            ),
{
    assert forall|name: Text| holds(before.nodes, name) implies #[trigger] holds(
        after.nodes,
        name,
    ) by {
        let k = choose|k: int| 0 <= k < before.nodes.len() && (#[trigger] before.nodes[k]).name == name;
        assert(survives(after.nodes, before.nodes[k]));
    }
    assert forall|name: Text, port: Text, direction: PortDirection|
        offers(before.nodes, name, port, direction) implies #[trigger] offers(
        after.nodes,
        name,
        port,
        direction,
    ) by {
        let k = choose|k: int|
            0 <= k < before.nodes.len() && (#[trigger] before.nodes[k]).name == name
                && before.nodes[k].has_port(port, direction);
        assert(survives(after.nodes, before.nodes[k]));
    }
    assert forall|i: int| 0 <= i < after.links.len() implies joins(
        after.nodes,
        #[trigger] after.links[i],
    ) by {
        assert(joins(before.nodes, before.links[i]));
    }
    assert forall|i: int| 0 <= i < after.listeners.len() implies holds(
        after.nodes,
        (#[trigger] after.listeners[i]).node,
    ) by {
        assert(holds(before.nodes, before.listeners[i].node));
    }
    assert forall|i: int| 0 <= i < after.boundary.len() implies holds(
        after.nodes,
        (#[trigger] after.boundary[i]).node,
    ) by {
        assert(holds(before.nodes, before.boundary[i].node));
    }
}

/// What refers to nodes goes on referring to them when a node is removed
/// together with all that refers to it.
pub proof fn lemma_grounded_without(before: GraphModel, name: Text)
    requires
        before.grounded(),
        distinct(node_names(before.nodes)),
    ensures
        before.remove_node(name).grounded(),
{
    let after = before.remove_node(name);
    lemma_position(node_names(before.nodes), name);
    assert forall|k: int|
        0 <= k < before.nodes.len() && (#[trigger] before.nodes[k]).name != name implies exists|
        j: int,
    | 0 <= j < after.nodes.len() && #[trigger] after.nodes[j] == before.nodes[k] by {
        match before.find_node(name) {
            Some(i) => {
                assert(node_names(before.nodes)[i] == before.nodes[i].name);
                let j = if k < i {
                    k
                } else {
                    k - 1
                };
                assert(after.nodes[j] == before.nodes[k]);
            },
            None => {
                assert(after.nodes[k] == before.nodes[k]);
            },
        }
    }
    assert forall|n: Text| n != name && holds(before.nodes, n) implies #[trigger] holds(
        after.nodes,
        n,
    ) by {
        let k = choose|k: int| 0 <= k < before.nodes.len() && (#[trigger] before.nodes[k]).name == n;
        let j = choose|j: int| 0 <= j < after.nodes.len() && #[trigger] after.nodes[j] == before.nodes[k];
        assert(after.nodes[j].name == n);
    }
    assert forall|n: Text, port: Text, direction: PortDirection|
        n != name && offers(before.nodes, n, port, direction) implies #[trigger] offers(
        after.nodes,
        n,
        port,
        direction,
    ) by {
        let k = choose|k: int|
            0 <= k < before.nodes.len() && (#[trigger] before.nodes[k]).name == n
                && before.nodes[k].has_port(port, direction);
        let j = choose|j: int| 0 <= j < after.nodes.len() && #[trigger] after.nodes[j] == before.nodes[k];
        assert(after.nodes[j].name == n);
    }
    assert forall|i: int| 0 <= i < after.links.len() implies joins(
        after.nodes,
        #[trigger] after.links[i],
    ) by {
        let link = after.links[i];
        before.links.lemma_filter_pred(clear_of(name), i);
        assert(before.links.filter(clear_of(name)).contains(link));
        before.links.lemma_filter_contains_rev(clear_of(name), link);
        let k = choose|k: int| 0 <= k < before.links.len() && before.links[k] == link;
        assert(joins(before.nodes, before.links[k]));
    }
    assert forall|i: int| 0 <= i < after.listeners.len() implies holds(
        after.nodes,
        (#[trigger] after.listeners[i]).node,
    ) by {
        let listener = after.listeners[i];
        before.listeners.lemma_filter_pred(not_listening_on(name), i);
        assert(before.listeners.filter(not_listening_on(name)).contains(listener));
        before.listeners.lemma_filter_contains_rev(not_listening_on(name), listener);
        let k = choose|k: int| 0 <= k < before.listeners.len() && before.listeners[k] == listener;
        assert(holds(before.nodes, before.listeners[k].node));
    }
    assert forall|i: int| 0 <= i < after.boundary.len() implies holds(
        after.nodes,
        (#[trigger] after.boundary[i]).node,
    ) by {
        let port = after.boundary[i];
        before.boundary.lemma_filter_pred(not_published_from(name), i);
        assert(before.boundary.filter(not_published_from(name)).contains(port));
        before.boundary.lemma_filter_contains_rev(not_published_from(name), port);
        let k = choose|k: int| 0 <= k < before.boundary.len() && before.boundary[k] == port;
        assert(holds(before.nodes, before.boundary[k].node));
    }
}

/// A node that `find_node` finds is one of the graph's nodes.
pub proof fn lemma_found_holds(graph: GraphModel, name: Text)
    requires
        graph.has_node(name),
    ensures
        holds(graph.nodes, name),
        forall|port: Text, direction: PortDirection|
            graph.node(name).has_port(port, direction) ==> #[trigger] offers(
                graph.nodes,
                name,
                port,
                direction,
            ),
{
    lemma_position(node_names(graph.nodes), name);
    let i = graph.find_node(name).unwrap();
    assert(graph.nodes[i].name == name);
}

/// The test that a link does not touch `node`.
pub open spec fn clear_of(node: Text) -> spec_fn(LinkModel) -> bool {
    |l: LinkModel| !l.touches(node)
}

/// The test that a listener is registered on another node than `node`.
pub open spec fn not_listening_on(node: Text) -> spec_fn(ListenerModel) -> bool {
    |l: ListenerModel| l.node != node
}

/// The test that a boundary port forwards to another node than `node`.
pub open spec fn not_published_from(node: Text) -> spec_fn(BoundaryModel) -> bool {
    |b: BoundaryModel| b.node != node
}

/// The test that the timer at a place is due at `now`.
pub open spec fn due(timers: Seq<TimerModel>, now: u64) -> spec_fn(int) -> bool {
    |i: int| timers[i].fire_at <= now
}

/// No output port begins two links and no input port ends two.
pub open spec fn exclusive(links: Seq<LinkModel>) -> bool {
    forall|i: int, j: int|
        0 <= i < j < links.len() ==> {
            &&& !((#[trigger] links[i]).src_node == (#[trigger] links[j]).src_node
                && links[i].src_port == links[j].src_port)
            &&& !(links[i].sink_node == links[j].sink_node && links[i].sink_port
                == links[j].sink_port)
        }
}

/// Whether a link begins at port `port` of `node`.
pub open spec fn src_taken(links: Seq<LinkModel>, node: Text, port: Text) -> bool {
    exists|i: int|
        0 <= i < links.len() && (#[trigger] links[i]).src_node == node && links[i].src_port
            == port
}

/// Whether a link ends at port `port` of `node`.
pub open spec fn sink_taken(links: Seq<LinkModel>, node: Text, port: Text) -> bool {
    exists|i: int|
        0 <= i < links.len() && (#[trigger] links[i]).sink_node == node && links[i].sink_port
            == port
}

/// The instructions that remove `nodes` one by one.
pub open spec fn removals(nodes: Seq<NodeModel>) -> Seq<CommandModel> {
    nodes.map_values(|n: NodeModel| CommandModel::Remove { node: n.name })
}

/// The moment a callback asked for `timestamp` runs when it is asked at
/// `now`: the timestamp, or `now` where that is already past.
pub open spec fn fire_time(timestamp: u64, now: u64) -> u64 {
    if timestamp <= now {
        now
    } else {
        timestamp
    }
}

impl GraphModel {
    /// An empty graph called `name` over the given kinds.
    pub open spec fn empty(name: Text, kinds: Seq<KindModel>) -> GraphModel {
        GraphModel {
            name,
            kinds,
            nodes: Seq::empty(),
            links: Seq::empty(),
            boundary: Seq::empty(),
            listeners: Seq::empty(),
            timers: Seq::empty(),
            link_to: None,
            inert: false,
            commands: Seq::empty(),
        }
    }

    /// The graph's invariant: kinds and nodes are well formed, node names are
    /// unique, a port has at most one peer, every link joins an output port
    /// of a node of the graph to the fixed input port of one, every listener
    /// and every boundary port belongs to a node of the graph, and an inert
    /// graph has no timer pending.
    pub open spec fn wf(self) -> bool {
        &&& kinds_wf(self.kinds)
        &&& distinct(node_names(self.nodes))
        &&& forall|i: int| 0 <= i < self.nodes.len() ==> (#[trigger] self.nodes[i]).wf()
        &&& exclusive(self.links)
        &&& self.grounded()
        &&& self.inert ==> self.timers.len() == 0
    }

    /// Links, listeners and boundary ports refer to nodes of the graph.
    pub open spec fn grounded(self) -> bool {
        &&& forall|i: int| 0 <= i < self.links.len() ==> joins(self.nodes, #[trigger] self.links[i])
        &&& forall|i: int|
            0 <= i < self.listeners.len() ==> holds(self.nodes, (#[trigger] self.listeners[i]).node)
        &&& forall|i: int|
            0 <= i < self.boundary.len() ==> holds(self.nodes, (#[trigger] self.boundary[i]).node)
    }

    /// Where the node called `name` stands.
    pub open spec fn find_node(self, name: Text) -> Option<int> {
        position(node_names(self.nodes), name)
    }

    /// Whether the graph has a node called `name`.
    pub open spec fn has_node(self, name: Text) -> bool {
        listed(node_names(self.nodes), name)
    }

    /// The node called `name`.
    pub open spec fn node(self, name: Text) -> NodeModel
        recommends
            self.has_node(name),
    {
        self.nodes[self.find_node(name).unwrap()]
    }

    /// Where the node stands that owns output port `port`: the first such
    /// node in the order of insertion.
    pub open spec fn owner_of(self, port: Text) -> Option<int> {
        least(owns(self.nodes, port, PortDirection::Output), self.nodes.len() as int)
    }

    /// The graph with one more instruction.
    pub open spec fn told(self, command: CommandModel) -> GraphModel {
        GraphModel { commands: self.commands.push(command), ..self }
    }

    // ---- adding a node ----
    /// Why a node of `kind` called `name` cannot be added, if it cannot.
    pub open spec fn add_check(self, kind: Text, name: Text) -> Option<GraphError> {
        if find_kind(self.kinds, kind) is None || self.has_node(name) {
            Some(GraphError::Construction)
        } else {
            None
        }
    }

    /// The graph with a fresh node of `kind` called `name`.
    pub open spec fn add_node(self, kind: Text, name: Text) -> GraphModel {
        GraphModel {
            nodes: self.nodes.push(instantiate(find_kind(self.kinds, kind).unwrap(), name)),
            ..self
        }.told(CommandModel::Create { kind, name })
    }

    // ---- setting a property ----
    /// The graph with property `key` of `node` set to `value`.
    pub open spec fn configure(self, node: Text, key: Text, value: Text) -> GraphModel {
        let i = self.find_node(node).unwrap();
        GraphModel { nodes: self.nodes.update(i, self.nodes[i].configured(key, value)), ..self }.told(
            CommandModel::Configure { node, key, value },
        )
    }

    // ---- listening for ports ----
    /// The graph with `reaction` registered on `node`; unchanged where the
    /// node does not exist.
    pub open spec fn watch(self, node: Text, reaction: ReactionModel) -> GraphModel {
        if self.has_node(node) {
            GraphModel {
                listeners: self.listeners.push(ListenerModel { node, reaction }),
                ..self
            }.told(CommandModel::Watch { node })
        } else {
            self
        }
    }

    // ---- linking ----
    /// The link from output `src_port` of `src_node` into the fixed input of
    /// `sink_node`.
    pub open spec fn link_between(src_node: Text, src_port: Text, sink_node: Text) -> LinkModel {
        LinkModel { src_node, src_port, sink_node, sink_port: sink_port() }
    }

    /// Why output `src_port` of `src_node` cannot be linked into the fixed
    /// input of `sink_node`, if it cannot: an endpoint is missing, or one of
    /// the two ports has a peer already.
    pub open spec fn link_check(self, src_node: Text, src_port: Text, sink_node: Text) -> Option<
        GraphError,
    > {
        if !self.has_node(src_node) || !self.has_node(sink_node) {
            Some(GraphError::NotFound)
        } else if !self.node(src_node).has_port(src_port, PortDirection::Output) || !self.node(
            sink_node,
        ).has_port(sink_port(), PortDirection::Input) {
            Some(GraphError::NotFound)
        } else if src_taken(self.links, src_node, src_port) || sink_taken(
            self.links,
            sink_node,
            sink_port(),
        ) {
            Some(GraphError::Link)
        } else {
            None
        }
    }

    /// The graph with output `src_port` of `src_node` linked into the fixed
    /// input of `sink_node`.
    pub open spec fn link(self, src_node: Text, src_port: Text, sink_node: Text) -> GraphModel {
        let link = Self::link_between(src_node, src_port, sink_node);
        GraphModel { links: self.links.push(link), ..self }.told(CommandModel::Link { link })
    }

    /// Why the output port called `port` cannot be linked into `node`, if it
    /// cannot. The port is looked for on the first node that owns one of that
    /// name.
    pub open spec fn connect_check(self, port: Text, node: Text) -> Option<GraphError> {
        match self.owner_of(port) {
            None => Some(GraphError::NotFound),
            Some(i) => self.link_check(self.nodes[i].name, port, node),
        }
    }

    /// The graph with the output port called `port` linked into `node`.
    pub open spec fn connect(self, port: Text, node: Text) -> GraphModel {
        self.link(self.nodes[self.owner_of(port).unwrap()].name, port, node)
    }

    // ---- removing ----
    /// The graph without the node called `name`, the links that touch it, its
    /// listeners and its boundary ports.
    pub open spec fn remove_node(self, name: Text) -> GraphModel {
        GraphModel {
            nodes: match self.find_node(name) {
                Some(i) => self.nodes.remove(i),
                None => self.nodes,
            },
            links: self.links.filter(clear_of(name)),
            listeners: self.listeners.filter(not_listening_on(name)),
            boundary: self.boundary.filter(not_published_from(name)),
            commands: if self.has_node(name) {
                self.commands.push(CommandModel::Remove { node: name })
            } else {
                self.commands
            },
            ..self
        }
    }

    /// The graph with link `i` undone.
    pub open spec fn unlink(self, i: int) -> GraphModel {
        GraphModel { links: self.links.remove(i), ..self }.told(
            CommandModel::Unlink { link: self.links[i] },
        )
    }

    /// One step of detaching `node`: its first link is undone and the node at
    /// the other end removed.
    pub open spec fn detach_step(self, node: Text, i: int) -> GraphModel {
        self.unlink(i).remove_node(self.links[i].peer_of(node))
    }

    /// The graph after every link of `node` has been undone and every node
    /// that was linked to it removed, one link after the other. `fuel` bounds
    /// the steps; the number of links is enough.
    pub open spec fn detach_within(self, node: Text, fuel: nat) -> GraphModel
        decreases fuel,
    {
        match least(touching(self.links, node), self.links.len() as int) {
            Some(i) if fuel > 0 => self.detach_step(node, i).detach_within(
                node,
                (fuel - 1) as nat,
            ),
            _ => self,
        }
    }

    /// The graph after every link of `node` has been undone and every node
    /// that was linked to it removed.
    pub open spec fn detach(self, node: Text) -> GraphModel {
        self.detach_within(node, self.links.len())
    }

    // ---- publishing boundary ports ----
    /// The graph with one more boundary port.
    pub open spec fn expose(self, port: BoundaryModel) -> GraphModel {
        GraphModel { boundary: self.boundary.push(port), ..self }.told(
            CommandModel::Expose { port },
        )
    }

    /// Whether `port` is an output port made from `template`.
    pub open spec fn matches_template(port: PortModel, template: TemplateModel) -> bool {
        port.direction is Output && port.template == template.name
    }

    /// The graph after the first `upto` of `ports` have been published where
    /// they match `template`.
    pub open spec fn expose_matching(
        self,
        node: Text,
        template: TemplateModel,
        ports: Seq<PortModel>,
        upto: nat,
    ) -> GraphModel
        decreases upto,
    {
        if upto == 0 {
            self
        } else {
            let before = self.expose_matching(node, template, ports, (upto - 1) as nat);
            let port = ports[upto - 1];
            if Self::matches_template(port, template) {
                before.expose(
                    BoundaryModel { node, template: template.name, port: Some(port.name) },
                )
            } else {
                before
            }
        }
    }

    /// The graph after the propagation policy of `template` has been applied
    /// for node `node`, whose ports are `ports`.
    pub open spec fn publish_template(
        self,
        node: Text,
        template: TemplateModel,
        ports: Seq<PortModel>,
    ) -> GraphModel {
        if template.direction is Output {
            match template.presence {
                PortPresence::Always => self.expose_matching(node, template, ports, ports.len()),
                PortPresence::Sometimes => self.watch_template(node, template.name),
                PortPresence::Request => self.expose(
                    BoundaryModel { node, template: template.name, port: None },
                ),
            }
        } else {
            self
        }
    }

    /// The graph with a listener that publishes the ports `node` gains from
    /// `template`.
    pub open spec fn watch_template(self, node: Text, template: Text) -> GraphModel {
        GraphModel {
            listeners: self.listeners.push(
                ListenerModel { node, reaction: ReactionModel::Publish { template } },
            ),
            ..self
        }.told(CommandModel::Watch { node })
    }

    /// The graph after the policies of the first `upto` templates of `target`
    /// have been applied.
    pub open spec fn publish_upto(self, target: NodeModel, upto: nat) -> GraphModel
        decreases upto,
    {
        if upto == 0 {
            self
        } else {
            self.publish_upto(target, (upto - 1) as nat).publish_template(
                target.name,
                target.templates[upto - 1],
                target.ports,
            )
        }
    }

    /// Why the boundary ports of the designated node cannot be published, if
    /// they cannot: no node is designated, or it is gone.
    pub open spec fn publish_check(self) -> Option<GraphError> {
        match self.link_to {
            Some(name) if self.has_node(name) => None,
            _ => Some(GraphError::NotFound),
        }
    }

    /// The graph after the boundary ports of the designated node have been
    /// published.
    pub open spec fn publish(self) -> GraphModel {
        let target = self.node(self.link_to.unwrap());
        self.publish_upto(target, target.templates.len())
    }

    /// The graph with `name` designated for publication, or with no node
    /// designated where `name` is none of its nodes.
    pub open spec fn designate(self, name: Text) -> GraphModel {
        GraphModel {
            link_to: if self.has_node(name) {
                Some(name)
            } else {
                None
            },
            ..self
        }
    }

    // ---- timers ----
    /// The graph with a timer for `renewal` armed at `now` for `timestamp`;
    /// unchanged where the graph is inert.
    pub open spec fn schedule(self, timestamp: u64, now: u64, renewal: RenewalModel) -> GraphModel {
        if self.inert {
            self
        } else {
            GraphModel {
                timers: self.timers.push(
                    TimerModel { fire_at: fire_time(timestamp, now), renewal },
                ),
                ..self
            }.told(CommandModel::Sleep { delay: (fire_time(timestamp, now) - now) as u64 })
        }
    }

    /// Where the first timer stands that is due at `now`.
    pub open spec fn due_timer(self, now: u64) -> Option<int> {
        least(due(self.timers, now), self.timers.len() as int)
    }

    /// The graph after the first timer due at `now` has fired; unchanged
    /// where none is due.
    pub open spec fn fire(self, now: u64) -> GraphModel {
        match self.due_timer(now) {
            Some(i) => GraphModel { timers: self.timers.remove(i), ..self },
            None => self,
        }
    }

    // ---- failure ----
    /// The graph torn down: halted, every node removed, nothing pending.
    pub open spec fn teardown(self) -> GraphModel {
        GraphModel {
            name: self.name,
            kinds: self.kinds,
            nodes: Seq::empty(),
            links: Seq::empty(),
            boundary: Seq::empty(),
            listeners: Seq::empty(),
            timers: Seq::empty(),
            link_to: None,
            inert: true,
            commands: self.commands.push(CommandModel::Halt) + removals(self.nodes),
        }
    }

    /// The graph with an error message posted to the runtime's error bus.
    pub open spec fn report(self, category: Text, message: Text) -> GraphModel {
        self.told(CommandModel::Report { category, message })
    }

    /// The graph with its instructions handed over.
    pub open spec fn drained(self) -> GraphModel {
        GraphModel { commands: Seq::empty(), ..self }
    }

    // ---- ports that appear ----
    /// Whether the graph takes note of a port `port` that `node` is said to
    /// have gained from `template`: the node exists, has that template and
    /// has no port of that name.
    pub open spec fn admits(self, node: Text, template: Text, port: Text) -> bool {
        &&& self.has_node(node)
        &&& self.node(node).template_named(template) is Some
        &&& !self.node(node).carries(port)
    }

    /// The graph with the new port recorded.
    pub open spec fn record_port(self, node: Text, template: Text, port: Text) -> GraphModel {
        let i = self.find_node(node).unwrap();
        let found = self.nodes[i].template_named(template).unwrap();
        GraphModel {
            nodes: self.nodes.update(
                i,
                self.nodes[i].with_port(
                    PortModel { name: port, template, direction: found.direction },
                ),
            ),
            ..self
        }
    }

    /// The graph after `listener` has reacted to output port `port` that
    /// `node` gained from `template`, and the error if the reaction failed.
    /// A listener of another node does nothing, and a publishing listener
    /// does nothing for a node that an earlier reaction removed.
    pub open spec fn react(self, node: Text, template: Text, port: Text, listener: ListenerModel) -> (
        GraphModel,
        Option<GraphError>,
    ) {
        if listener.node != node {
            (self, None)
        } else {
            match listener.reaction {
                ReactionModel::Link { sink } => self.try_link(node, port, sink),
                ReactionModel::Swap { sink } => {
                    if self.has_node(sink) {
                        self.detach(sink).try_link(node, port, sink)
                    } else {
                        (self, Some(GraphError::NotFound))
                    }
                },
                ReactionModel::Publish { template: wanted } => {
                    if wanted == template && self.has_node(node) {
                        (self.expose(BoundaryModel { node, template, port: Some(port) }), None)
                    } else {
                        (self, None)
                    }
                },
            }
        }
    }

    /// The graph with the link made where it can be, and the error where it
    /// cannot.
    pub open spec fn try_link(self, src_node: Text, src_port: Text, sink_node: Text) -> (
        GraphModel,
        Option<GraphError>,
    ) {
        match self.link_check(src_node, src_port, sink_node) {
            Some(e) => (self, Some(e)),
            None => (self.link(src_node, src_port, sink_node), None),
        }
    }

    /// The graph after the listeners from place `from` on have reacted in
    /// turn. The first reaction that fails tears the graph down and ends the
    /// round.
    pub open spec fn deliver(
        self,
        node: Text,
        template: Text,
        port: Text,
        listeners: Seq<ListenerModel>,
        from: int,
    ) -> (GraphModel, Option<GraphError>)
        decreases listeners.len() - from,
    {
        if from < 0 || from >= listeners.len() {
            (self, None)
        } else {
            let (next, error) = self.react(node, template, port, listeners[from]);
            if error is Some {
                (next.teardown(), error)
            } else {
                next.deliver(node, template, port, listeners, from + 1)
            }
        }
    }

    /// The graph after the runtime has said that `node` gained `port` from
    /// `template`, and the error if a listener's reaction failed. A port that
    /// the graph does not admit changes nothing; an input port is recorded
    /// and nobody is told.
    pub open spec fn attach(self, node: Text, template: Text, port: Text) -> (
        GraphModel,
        Option<GraphError>,
    ) {
        if !self.admits(node, template, port) {
            (self, None)
        } else {
            let recorded = self.record_port(node, template, port);
            if self.node(node).template_named(template).unwrap().direction is Output {
                recorded.deliver(node, template, port, recorded.listeners, 0)
            } else {
                (recorded, None)
            }
        }
    }
}

/// Whether `port` is the port that one of `templates` has from the first.
pub open spec fn is_static_port(templates: Seq<TemplateModel>, port: PortModel) -> bool {
    exists|k: int| 0 <= k < templates.len() && port == static_port(#[trigger] templates[k])
}

/// Every port that a node has from the first comes from one of its
/// templates.
pub proof fn lemma_static_ports(templates: Seq<TemplateModel>)
    ensures
        forall|i: int|
            0 <= i < static_ports(templates).len() ==> is_static_port(
                templates,
                #[trigger] static_ports(templates)[i],
            ),
    decreases templates.len(),
{
    if templates.len() > 0 {
        let rest = templates.drop_last();
        lemma_static_ports(rest);
        assert forall|i: int| 0 <= i < static_ports(templates).len() implies is_static_port(
            templates,
            #[trigger] static_ports(templates)[i],
        ) by {
            if i < static_ports(rest).len() {
                assert(is_static_port(rest, static_ports(rest)[i]));
                let k = choose|k: int|
                    0 <= k < rest.len() && static_ports(rest)[i] == static_port(
                        #[trigger] rest[k],
                    );
                assert(templates[k] == rest[k]);
            } else {
                assert(static_ports(templates)[i] == static_port(
                    templates[templates.len() - 1],
                ));
            }
        }
    }
}

/// A node fresh from a well-formed kind is well formed.
pub proof fn lemma_instantiate_wf(kind: KindModel, name: Text)
    requires
        kind.wf(),
    ensures
        instantiate(kind, name).wf(),
{
    let node = instantiate(kind, name);
    lemma_static_ports(kind.templates);
    assert forall|i: int| 0 <= i < node.ports.len() implies #[trigger] node.port_resolves(i) by {
        assert(is_static_port(kind.templates, static_ports(kind.templates)[i]));
        let k = choose|k: int|
            0 <= k < kind.templates.len() && static_ports(kind.templates)[i] == static_port(
                #[trigger] kind.templates[k],
            );
        assert(node.templates[k].name == node.ports[i].template);
    }
}

/// Whether `x` is one of `links`.
pub open spec fn is_link_of(links: Seq<LinkModel>, x: LinkModel) -> bool {
    exists|k: int| 0 <= k < links.len() && #[trigger] links[k] == x
}

/// Leaving links out keeps a port from having two peers.
pub proof fn lemma_filter_exclusive(links: Seq<LinkModel>, keep: spec_fn(LinkModel) -> bool)
    requires
        exclusive(links),
    ensures
        exclusive(links.filter(keep)),
        forall|i: int|
            0 <= i < links.filter(keep).len() ==> is_link_of(
                links,
                #[trigger] links.filter(keep)[i],
            ),
    decreases links.len(),
{
    if links.len() == 0 {
        reveal(Seq::filter);
    } else {
        let rest = links.drop_last();
        let last = links.last();
        assert(links =~= rest.push(last));
        rest.lemma_filter_push(last, keep);
        assert forall|i: int, j: int| 0 <= i < j < rest.len() implies {
            &&& !((#[trigger] rest[i]).src_node == (#[trigger] rest[j]).src_node && rest[i].src_port
                == rest[j].src_port)
            &&& !(rest[i].sink_node == rest[j].sink_node && rest[i].sink_port
                == rest[j].sink_port)
        } by {
            assert(rest[i] == links[i] && rest[j] == links[j]);
        }
        lemma_filter_exclusive(rest, keep);
        let kept = links.filter(keep);
        let kept_rest = rest.filter(keep);
        assert forall|i: int| 0 <= i < kept.len() implies is_link_of(links, #[trigger] kept[i]) by {
            if i < kept_rest.len() {
                assert(kept[i] == kept_rest[i]);
                assert(is_link_of(rest, kept_rest[i]));
                let k = choose|k: int| 0 <= k < rest.len() && #[trigger] rest[k] == kept_rest[i];
                assert(links[k] == kept[i]);
            } else {
                assert(links[links.len() - 1] == kept[i]);
            }
        }
        assert forall|i: int, j: int| 0 <= i < j < kept.len() implies {
            &&& !((#[trigger] kept[i]).src_node == (#[trigger] kept[j]).src_node && kept[i].src_port
                == kept[j].src_port)
            &&& !(kept[i].sink_node == kept[j].sink_node && kept[i].sink_port
                == kept[j].sink_port)
        } by {
            if j < kept_rest.len() {
                assert(kept[i] == kept_rest[i] && kept[j] == kept_rest[j]);
            } else {
                assert(kept[i] == kept_rest[i]);
                assert(is_link_of(rest, kept_rest[i]));
                let k = choose|k: int| 0 <= k < rest.len() && #[trigger] rest[k] == kept_rest[i];
                assert(links[k] == kept[i]);
                assert(links[links.len() - 1] == kept[j]);
            }
        }
    }
}

} // verus!

//! The values a graph is made of, each with the model contracts speak of.

use crate::catalog::{
    template_models, template_names, PortDirection, PortPresence, PortTemplate, TemplateModel,
};
use crate::google_api::RtspStreamInfo;
use crate::model::{
    clear_of, not_listening_on, not_published_from, property_keys, sink_taken, src_taken,
    static_port, static_ports, with_property, BoundaryModel, CommandModel, LinkModel,
    ListenerModel, NodeModel, PortModel, PropertyModel, ReactionModel, RenewalModel, TimerModel,
};
use crate::search::{lemma_position_absent, lemma_position_found, position, Text};
use vstd::prelude::*;

verus! {

/// The view of an optional text.
pub open spec fn text_of(name: Option<String>) -> Option<Text> {
    match name {
        Some(s) => Some(s@),
        None => None,
    }
}

/// A copy of an optional text.
pub fn clone_text(name: &Option<String>) -> (copy: Option<String>)
    ensures
        text_of(copy) == text_of(*name),
{
    match name {
        Some(s) => Some(s.clone()),
        None => None,
    }
}

/// A port of a node.
#[derive(Debug, PartialEq, Eq)]
pub struct Port {
    pub name: String,
    pub template: String,
    pub direction: PortDirection,
}

impl View for Port {
    type V = PortModel;

    open spec fn view(&self) -> PortModel {
        PortModel { name: self.name@, template: self.template@, direction: self.direction }
    }
}

impl Clone for Port {
    fn clone(&self) -> (copy: Self)
        ensures
            copy@ == self@,
    {
        Port {
            name: self.name.clone(),
            template: self.template.clone(),
            direction: self.direction,
        }
    }
}

/// The views of a run of ports, in order.
pub open spec fn port_models(ports: Seq<Port>) -> Seq<PortModel> {
    ports.map_values(|p: Port| p@)
}

/// A configuration property of a node.
#[derive(Debug, PartialEq, Eq)]
pub struct Property {
    pub key: String,
    pub value: String,
}

impl View for Property {
    type V = PropertyModel;

    open spec fn view(&self) -> PropertyModel {
        PropertyModel { key: self.key@, value: self.value@ }
    }
}

/// The views of a run of properties, in order.
pub open spec fn property_models(properties: Seq<Property>) -> Seq<PropertyModel> {
    properties.map_values(|p: Property| p@)
}

/// A node of the graph.
#[derive(Debug)]
pub struct Node {
    pub name: String,
    pub kind: String,
    pub properties: Vec<Property>,
    pub templates: Vec<PortTemplate>,
    pub ports: Vec<Port>,
}

impl View for Node {
    type V = NodeModel;

    open spec fn view(&self) -> NodeModel {
        NodeModel {
            name: self.name@,
            kind: self.kind@,
            properties: property_models(self.properties@),
            templates: template_models(self.templates@),
            ports: port_models(self.ports@),
        }
    }
}

/// The views of a run of nodes, in order.
pub open spec fn node_models(nodes: Seq<Node>) -> Seq<NodeModel> {
    nodes.map_values(|n: Node| n@)
}

/// A connection from an output port to an input port.
#[derive(Debug, PartialEq, Eq)]
pub struct Link {
    pub src_node: String,
    pub src_port: String,
    pub sink_node: String,
    pub sink_port: String,
}

impl View for Link {
    type V = LinkModel;

    open spec fn view(&self) -> LinkModel {
        LinkModel {
            src_node: self.src_node@,
            src_port: self.src_port@,
            sink_node: self.sink_node@,
            sink_port: self.sink_port@,
        }
    }
}

impl Clone for Link {
    fn clone(&self) -> (copy: Self)
        ensures
            copy@ == self@,
    {
        Link {
            src_node: self.src_node.clone(),
            src_port: self.src_port.clone(),
            sink_node: self.sink_node.clone(),
            sink_port: self.sink_port.clone(),
        }
    }
}

/// The views of a run of links, in order.
pub open spec fn link_models(links: Seq<Link>) -> Seq<LinkModel> {
    links.map_values(|l: Link| l@)
}

/// What a listener does with an output port that its node gains.
#[derive(Debug, PartialEq, Eq)]
pub enum Reaction {
    /// Connect the port to the fixed input of `sink`.
    Link { sink: String },
    /// Retire whatever feeds `sink`, then connect the port to it.
    Swap { sink: String },
    /// Publish the port on the graph's boundary if it was made from
    /// `template`.
    Publish { template: String },
}

impl View for Reaction {
    type V = ReactionModel;

    open spec fn view(&self) -> ReactionModel {
        match self {
            Reaction::Link { sink } => ReactionModel::Link { sink: sink@ },
            Reaction::Swap { sink } => ReactionModel::Swap { sink: sink@ },
            Reaction::Publish { template } => ReactionModel::Publish { template: template@ },
        }
    }
}

impl Clone for Reaction {
    fn clone(&self) -> (copy: Self)
        ensures
            copy@ == self@,
    {
        match self {
            Reaction::Link { sink } => Reaction::Link { sink: sink.clone() },
            Reaction::Swap { sink } => Reaction::Swap { sink: sink.clone() },
            Reaction::Publish { template } => Reaction::Publish { template: template.clone() },
        }
    }
}

/// A persistent reaction to the output ports that `node` gains.
#[derive(Debug, PartialEq, Eq)]
pub struct Listener {
    pub node: String,
    pub reaction: Reaction,
}

impl View for Listener {
    type V = ListenerModel;

    open spec fn view(&self) -> ListenerModel {
        ListenerModel { node: self.node@, reaction: self.reaction@ }
    }
}

impl Clone for Listener {
    fn clone(&self) -> (copy: Self)
        ensures
            copy@ == self@,
    {
        Listener { node: self.node.clone(), reaction: self.reaction.clone() }
    }
}

/// The views of a run of listeners, in order.
pub open spec fn listener_models(listeners: Seq<Listener>) -> Seq<ListenerModel> {
    listeners.map_values(|l: Listener| l@)
}

/// A published alias for a port of `node` made from `template`.
#[derive(Debug, PartialEq, Eq)]
pub struct BoundaryPort {
    pub node: String,
    pub template: String,
    pub port: Option<String>,
}

impl View for BoundaryPort {
    type V = BoundaryModel;

    open spec fn view(&self) -> BoundaryModel {
        BoundaryModel { node: self.node@, template: self.template@, port: text_of(self.port) }
    }
}

impl Clone for BoundaryPort {
    fn clone(&self) -> (copy: Self)
        ensures
            copy@ == self@,
    {
        BoundaryPort {
            node: self.node.clone(),
            template: self.template.clone(),
            port: clone_text(&self.port),
        }
    }
}

/// The views of a run of boundary ports, in order.
pub open spec fn boundary_models(ports: Seq<BoundaryPort>) -> Seq<BoundaryModel> {
    ports.map_values(|b: BoundaryPort| b@)
}

/// The renewal that a timer stands for: the stream and the session that is
/// about to expire.
#[derive(Debug)]
pub struct Renewal {
    pub device_id: String,
    pub session: RtspStreamInfo,
}

impl View for Renewal {
    type V = RenewalModel;

    open spec fn view(&self) -> RenewalModel {
        RenewalModel { device_id: self.device_id@, session: self.session@ }
    }
}

impl Clone for Renewal {
    fn clone(&self) -> (copy: Self)
        ensures
            copy@ == self@,
    {
        Renewal { device_id: self.device_id.clone(), session: self.session.clone() }
    }
}

/// A pending timer.
#[derive(Debug)]
pub struct Timer {
    pub fire_at: u64,
    pub renewal: Renewal,
}

impl View for Timer {
    type V = TimerModel;

    open spec fn view(&self) -> TimerModel {
        TimerModel { fire_at: self.fire_at, renewal: self.renewal@ }
    }
}

impl Clone for Timer {
    fn clone(&self) -> (copy: Self)
        ensures
            copy@ == self@,
    {
        Timer { fire_at: self.fire_at, renewal: self.renewal.clone() }
    }
}

/// The views of a run of timers, in order.
pub open spec fn timer_models(timers: Seq<Timer>) -> Seq<TimerModel> {
    timers.map_values(|t: Timer| t@)
}

/// An instruction to the media runtime.
#[derive(Debug, PartialEq, Eq)]
pub enum Command {
    /// Construct a node of `kind` and insert it under `name`.
    Create { kind: String, name: String },
    /// Set property `key` of `node` to `value`.
    Configure { node: String, key: String, value: String },
    /// Report every port that `node` gains from now on.
    Watch { node: String },
    /// Connect the two ports.
    Link { link: Link },
    /// Disconnect the two ports.
    Unlink { link: Link },
    /// Take `node` out of the graph.
    Remove { node: String },
    /// Publish a boundary port; where it names no port, request one from the
    /// template first.
    Expose { port: BoundaryPort },
    /// Wake the graph after `delay` time units.
    Sleep { delay: u64 },
    /// Stop the graph.
    Halt,
    /// Post an error message to the error bus.
    Report { category: String, message: String },
}

impl View for Command {
    type V = CommandModel;

    open spec fn view(&self) -> CommandModel {
        match self {
            Command::Create { kind, name } => CommandModel::Create { kind: kind@, name: name@ },
            Command::Configure { node, key, value } => CommandModel::Configure {
                node: node@,
                key: key@,
                value: value@,
            },
            Command::Watch { node } => CommandModel::Watch { node: node@ },
            Command::Link { link } => CommandModel::Link { link: link@ },
            Command::Unlink { link } => CommandModel::Unlink { link: link@ },
            Command::Remove { node } => CommandModel::Remove { node: node@ },
            Command::Expose { port } => CommandModel::Expose { port: port@ },
            Command::Sleep { delay } => CommandModel::Sleep { delay: *delay },
            Command::Halt => CommandModel::Halt,
            Command::Report { category, message } => CommandModel::Report {
                category: category@,
                message: message@,
            },
        }
    }
}

/// The views of a run of instructions, in order.
pub open spec fn command_models(commands: Seq<Command>) -> Seq<CommandModel> {
    commands.map_values(|c: Command| c@)
}

/// The ports that a node with these templates has from the first.
pub(crate) fn make_static_ports(templates: &Vec<PortTemplate>) -> (ports: Vec<Port>)
    ensures
        port_models(ports@) == static_ports(template_models(templates@)),
{
    let mut ports: Vec<Port> = Vec::new();
    let mut i: usize = 0;
    let ghost models = template_models(templates@);
    assert(models.take(0) =~= Seq::<TemplateModel>::empty());
    assert(port_models(ports@) =~= static_ports(models.take(0)));
    while i < templates.len()
        invariant
            i <= templates.len(),
            models == template_models(templates@),
            port_models(ports@) == static_ports(models.take(i as int)),
        decreases templates.len() - i,
    {
        let ghost before = port_models(ports@);
        assert(models.take(i + 1).drop_last() =~= models.take(i as int));
        assert(models.take(i + 1).last() == templates[i as int]@);
        match templates[i].presence {
            PortPresence::Always => {
                let port = Port {
                    name: templates[i].name.clone(),
                    template: templates[i].name.clone(),
                    direction: templates[i].direction,
                };
                ports.push(port);
                assert(port_models(ports@) =~= before.push(static_port(templates[i as int]@)));
            },
            _ => {},
        }
        i += 1;
    }
    assert(models.take(i as int) =~= models);
    ports
}

/// Sets `key` to `value`: in place where the key is there, at the end where
/// it is not.
pub(crate) fn set_property(properties: &mut Vec<Property>, key: &str, value: &str)
    ensures
        property_models(final(properties)@) == with_property(
            property_models(old(properties)@),
            key@,
            value@,
        ),
{
    let wanted = key.to_owned();
    let entry = Property { key: key.to_owned(), value: value.to_owned() };
    let ghost before = property_models(properties@);
    let ghost keys = property_keys(before);
    let mut i: usize = 0;
    while i < properties.len()
        invariant
            i <= properties.len(),
            properties == old(properties),
            before == property_models(properties@),
            keys == property_keys(before),
            wanted@ == key@,
            entry@ == (PropertyModel { key: key@, value: value@ }),
            forall|j: int| 0 <= j < i ==> keys[j] != key@,
        decreases properties.len() - i,
    {
        if properties[i].key == wanted {
            proof {
                assert(keys[i as int] == properties[i as int].key@);
                lemma_position_found(keys, key@, i as int);
            }
            properties.set(i, entry);
            assert(property_models(properties@) =~= before.update(i as int, entry@));
            return ;
        }
        assert(keys[i as int] == properties[i as int].key@);
        i += 1;
    }
    proof {
        lemma_position_absent(keys, key@);
    }
    properties.push(entry);
    assert(property_models(properties@) =~= before.push(entry@));
}


/// Whether `node` has a port called `name` of the given direction.
pub(crate) fn has_port(node: &Node, name: &String, direction: PortDirection) -> (found: bool)
    ensures
        found == node@.has_port(name@, direction),
{
    let mut i: usize = 0;
    while i < node.ports.len()
        invariant
            i <= node.ports.len(),
            forall|j: int|
                0 <= j < i ==> !((#[trigger] node@.ports[j]).name == name@
                    && node@.ports[j].direction == direction),
        decreases node.ports.len() - i,
    {
        assert(node@.ports[i as int] == node.ports[i as int]@);
        if node.ports[i].name == *name && node.ports[i].direction == direction {
            return true;
        }
        i += 1;
    }
    false
}

/// Whether `node` has a port called `name`.
pub(crate) fn carries(node: &Node, name: &String) -> (found: bool)
    ensures
        found == node@.carries(name@),
{
    let mut i: usize = 0;
    while i < node.ports.len()
        invariant
            i <= node.ports.len(),
            forall|j: int| 0 <= j < i ==> (#[trigger] node@.ports[j]).name != name@,
        decreases node.ports.len() - i,
    {
        assert(node@.ports[i as int] == node.ports[i as int]@);
        if node.ports[i].name == *name {
            return true;
        }
        i += 1;
    }
    false
}

/// Whether a link begins at port `port` of `node`.
pub(crate) fn src_in_use(links: &Vec<Link>, node: &String, port: &String) -> (found: bool)
    ensures
        found == src_taken(link_models(links@), node@, port@),
{
    let ghost models = link_models(links@);
    let mut i: usize = 0;
    while i < links.len()
        invariant
            i <= links.len(),
            models == link_models(links@),
            forall|j: int|
                0 <= j < i ==> !((#[trigger] models[j]).src_node == node@ && models[j].src_port
                    == port@),
        decreases links.len() - i,
    {
        assert(models[i as int] == links[i as int]@);
        if links[i].src_node == *node && links[i].src_port == *port {
            return true;
        }
        i += 1;
    }
    false
}

/// Whether a link ends at port `port` of `node`.
pub(crate) fn sink_in_use(links: &Vec<Link>, node: &String, port: &String) -> (found: bool)
    ensures
        found == sink_taken(link_models(links@), node@, port@),
{
    let ghost models = link_models(links@);
    let mut i: usize = 0;
    while i < links.len()
        invariant
            i <= links.len(),
            models == link_models(links@),
            forall|j: int|
                0 <= j < i ==> !((#[trigger] models[j]).sink_node == node@
                    && models[j].sink_port == port@),
        decreases links.len() - i,
    {
        assert(models[i as int] == links[i as int]@);
        if links[i].sink_node == *node && links[i].sink_port == *port {
            return true;
        }
        i += 1;
    }
    false
}


/// The links that do not touch `name`, in order.
pub(crate) fn links_clear_of(links: &Vec<Link>, name: &String) -> (kept: Vec<Link>)
    ensures
        link_models(kept@) == link_models(links@).filter(clear_of(name@)),
{
    let ghost models = link_models(links@);
    let ghost keep = clear_of(name@);
    let mut kept: Vec<Link> = Vec::new();
    let mut i: usize = 0;
    proof {
        reveal(Seq::filter);
        assert(models.take(0) =~= Seq::<LinkModel>::empty());
        assert(link_models(kept@) =~= models.take(0).filter(keep));
    }
    while i < links.len()
        invariant
            i <= links.len(),
            models == link_models(links@),
            keep == clear_of(name@),
            link_models(kept@) == models.take(i as int).filter(keep),
        decreases links.len() - i,
    {
        let ghost before = link_models(kept@);
        proof {
            assert(models.take(i + 1) =~= models.take(i as int).push(models[i as int]));
            models.take(i as int).lemma_filter_push(models[i as int], keep);
            assert(models[i as int] == links[i as int]@);
        }
        if !(links[i].src_node == *name || links[i].sink_node == *name) {
            kept.push(links[i].clone());
            assert(link_models(kept@) =~= before.push(models[i as int]));
        }
        i += 1;
    }
    assert(models.take(i as int) =~= models);
    kept
}

/// The listeners that are registered on other nodes than `name`, in order.
pub(crate) fn listeners_off(listeners: &Vec<Listener>, name: &String) -> (kept: Vec<Listener>)
    ensures
        listener_models(kept@) == listener_models(listeners@).filter(not_listening_on(name@)),
{
    let ghost models = listener_models(listeners@);
    let ghost keep = not_listening_on(name@);
    let mut kept: Vec<Listener> = Vec::new();
    let mut i: usize = 0;
    proof {
        reveal(Seq::filter);
        assert(models.take(0) =~= Seq::<ListenerModel>::empty());
        assert(listener_models(kept@) =~= models.take(0).filter(keep));
    }
    while i < listeners.len()
        invariant
            i <= listeners.len(),
            models == listener_models(listeners@),
            keep == not_listening_on(name@),
            listener_models(kept@) == models.take(i as int).filter(keep),
        decreases listeners.len() - i,
    {
        let ghost before = listener_models(kept@);
        proof {
            assert(models.take(i + 1) =~= models.take(i as int).push(models[i as int]));
            models.take(i as int).lemma_filter_push(models[i as int], keep);
            assert(models[i as int] == listeners[i as int]@);
        }
        if !(listeners[i].node == *name) {
            kept.push(listeners[i].clone());
            assert(listener_models(kept@) =~= before.push(models[i as int]));
        }
        i += 1;
    }
    assert(models.take(i as int) =~= models);
    kept
}

/// The boundary ports that forward to other nodes than `name`, in order.
pub(crate) fn boundary_off(ports: &Vec<BoundaryPort>, name: &String) -> (kept: Vec<BoundaryPort>)
    ensures
        boundary_models(kept@) == boundary_models(ports@).filter(not_published_from(name@)),
{
    let ghost models = boundary_models(ports@);
    let ghost keep = not_published_from(name@);
    let mut kept: Vec<BoundaryPort> = Vec::new();
    let mut i: usize = 0;
    proof {
        reveal(Seq::filter);
        assert(models.take(0) =~= Seq::<BoundaryModel>::empty());
        assert(boundary_models(kept@) =~= models.take(0).filter(keep));
    }
    while i < ports.len()
        invariant
            i <= ports.len(),
            models == boundary_models(ports@),
            keep == not_published_from(name@),
            boundary_models(kept@) == models.take(i as int).filter(keep),
        decreases ports.len() - i,
    {
        let ghost before = boundary_models(kept@);
        proof {
            assert(models.take(i + 1) =~= models.take(i as int).push(models[i as int]));
            models.take(i as int).lemma_filter_push(models[i as int], keep);
            assert(models[i as int] == ports[i as int]@);
        }
        if !(ports[i].node == *name) {
            kept.push(ports[i].clone());
            assert(boundary_models(kept@) =~= before.push(models[i as int]));
        }
        i += 1;
    }
    assert(models.take(i as int) =~= models);
    kept
}


/// A copy of `ports`, one port after the other.
pub(crate) fn clone_ports(ports: &Vec<Port>) -> (copy: Vec<Port>)
    ensures
        port_models(copy@) == port_models(ports@),
{
    let mut copy: Vec<Port> = Vec::new();
    let mut i: usize = 0;
    while i < ports.len()
        invariant
            i <= ports.len(),
            copy.len() == i,
            forall|k: int| 0 <= k < i ==> copy[k]@ == ports[k]@,
        decreases ports.len() - i,
    {
        copy.push(ports[i].clone());
        i += 1;
    }
    assert(port_models(copy@) =~= port_models(ports@));
    copy
}

/// A copy of `listeners`, one listener after the other.
pub(crate) fn clone_listeners(listeners: &Vec<Listener>) -> (copy: Vec<Listener>)
    ensures
        listener_models(copy@) == listener_models(listeners@),
{
    let mut copy: Vec<Listener> = Vec::new();
    let mut i: usize = 0;
    while i < listeners.len()
        invariant
            i <= listeners.len(),
            copy.len() == i,
            forall|k: int| 0 <= k < i ==> copy[k]@ == listeners[k]@,
        decreases listeners.len() - i,
    {
        copy.push(listeners[i].clone());
        i += 1;
    }
    assert(listener_models(copy@) =~= listener_models(listeners@));
    copy
}

/// Where the template of `node` called `name` stands.
pub(crate) fn find_template(node: &Node, name: &String) -> (found: Option<usize>)
    ensures
        match found {
            Some(i) => position(template_names(node@.templates), name@) == Some(i as int) && i
                < node.templates.len(),
            None => position(template_names(node@.templates), name@) is None,
        },
{
    let ghost names = template_names(node@.templates);
    let mut i: usize = 0;
    while i < node.templates.len()
        invariant
            i <= node.templates.len(),
            names == template_names(node@.templates),
            forall|j: int| 0 <= j < i ==> names[j] != name@,
        decreases node.templates.len() - i,
    {
        assert(names[i as int] == node.templates[i as int].name@);
        if node.templates[i].name == *name {
            proof {
                lemma_position_found(names, name@, i as int);
            }
            return Some(i);
        }
        i += 1;
    }
    proof {
        lemma_position_absent(names, name@);
    }
    None
}


} // verus!

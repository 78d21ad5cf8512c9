//! What holds of every graph, whatever was done to it.

use crate::catalog::{kinds_wf, template_names, TemplateModel};
use crate::model::{
    clear_of, joins, node_names, touching, BoundaryModel, GraphModel, ListenerModel, NodeModel,
    PortModel, ReactionModel, RenewalModel,
};
use crate::search::{lemma_least, lemma_least_absent, lemma_position, least, position, Text};
use vstd::prelude::*;

verus! {

// ---- one feed at a time ----
/// In a well-formed graph at most one link leads into a node: a decoding
/// stage is never fed by two transports at once.
pub proof fn lemma_single_feed(graph: GraphModel, node: Text, i: int, j: int)
    requires
        graph.wf(),
        0 <= i < graph.links.len(),
        0 <= j < graph.links.len(),
        graph.links[i].sink_node == node,
        graph.links[j].sink_node == node,
    ensures
        i == j,
{
    assert(joins(graph.nodes, graph.links[i]));
    assert(joins(graph.nodes, graph.links[j]));
    if i < j {
        assert(!(graph.links[i].sink_node == graph.links[j].sink_node && graph.links[i].sink_port
            == graph.links[j].sink_port));
    }
    if j < i {
        assert(!(graph.links[j].sink_node == graph.links[i].sink_node && graph.links[j].sink_port
            == graph.links[i].sink_port));
    }
}

/// Whether no link of the graph touches `node`.
pub open spec fn detached(graph: GraphModel, node: Text) -> bool {
    forall|i: int| 0 <= i < graph.links.len() ==> !(#[trigger] graph.links[i]).touches(node)
}

/// Detaching a node with enough fuel leaves it without links.
proof fn lemma_detach_within_clears(graph: GraphModel, node: Text, fuel: nat)
    requires
        graph.links.len() <= fuel,
    ensures
        detached(graph.detach_within(node, fuel), node),
    decreases fuel,
{
    let test = touching(graph.links, node);
    lemma_least(test, graph.links.len() as int);
    match least(test, graph.links.len() as int) {
        Some(i) => {
            let next = graph.detach_step(node, i);
            graph.unlink(i).links.lemma_filter_len(clear_of(graph.links[i].peer_of(node)));
            lemma_detach_within_clears(next, node, (fuel - 1) as nat);
        },
        None => {
            assert forall|i: int| 0 <= i < graph.links.len() implies !(
            #[trigger] graph.links[i]).touches(node) by {
                assert(!test(i));
            }
        },
    }
}

/// After a node has been detached, no link touches it.
pub proof fn lemma_detach_clears(graph: GraphModel, node: Text)
    ensures
        detached(graph.detach(node), node),
{
    lemma_detach_within_clears(graph, node, graph.links.len());
}

/// Detaching a node that no link touches changes nothing.
pub proof fn lemma_detach_of_detached(graph: GraphModel, node: Text)
    requires
        detached(graph, node),
    ensures
        graph.detach(node) == graph,
{
    let test = touching(graph.links, node);
    assert forall|j: int| 0 <= j < graph.links.len() implies !#[trigger] test(j) by {
        assert(!graph.links[j].touches(node));
    }
    lemma_least_absent(test, graph.links.len() as int);
}

/// Detaching is idempotent: the second time there is nothing left to undo.
pub proof fn lemma_detach_idempotent(graph: GraphModel, node: Text)
    ensures
        graph.detach(node).detach(node) == graph.detach(node),
{
    lemma_detach_clears(graph, node);
    lemma_detach_of_detached(graph.detach(node), node);
}

/// Where a listener's hot swap succeeds, the link it makes is the only one
/// that leads into the decoding stage, and it comes from the new port.
pub proof fn lemma_swap_feeds(graph: GraphModel, node: Text, template: Text, port: Text, sink: Text)
    requires
        graph.react(
            node,
            template,
            port,
            ListenerModel { node, reaction: ReactionModel::Swap { sink } },
        ).1 is None,
    ensures
        ({
            let after = graph.react(
                node,
                template,
                port,
                ListenerModel { node, reaction: ReactionModel::Swap { sink } },
            ).0;
            &&& after.links.len() > 0
            &&& after.links.last() == GraphModel::link_between(node, port, sink)
            &&& forall|i: int|
                0 <= i < after.links.len() && (#[trigger] after.links[i]).sink_node == sink ==> i
                    == after.links.len() - 1
        }),
{
    lemma_detach_clears(graph, sink);
    let cleared = graph.detach(sink);
    let after = cleared.link(node, port, sink);
    assert forall|i: int|
        0 <= i < after.links.len() && (#[trigger] after.links[i]).sink_node == sink implies i
        == after.links.len() - 1 by {
        if i < cleared.links.len() {
            assert(!cleared.links[i].touches(sink));
        }
    }
}

// ---- teardown ----
/// Teardown is complete: whatever the graph held, it holds no node, link,
/// boundary port, listener or timer afterwards, it has told the runtime to
/// halt and to remove each node it had, and it arms no timer any more.
pub proof fn lemma_teardown_complete(
    graph: GraphModel,
    timestamp: u64,
    now: u64,
    renewal: RenewalModel,
)
    ensures
        graph.teardown().nodes.len() == 0,
        graph.teardown().links.len() == 0,
        graph.teardown().boundary.len() == 0,
        graph.teardown().listeners.len() == 0,
        graph.teardown().timers.len() == 0,
        graph.teardown().inert,
        graph.teardown().commands.len() == graph.commands.len() + 1 + graph.nodes.len(),
        graph.teardown().schedule(timestamp, now, renewal) == graph.teardown(),
        graph.teardown().wf() <==> kinds_wf(graph.kinds),
{
    assert(node_names(graph.teardown().nodes) =~= Seq::<Text>::empty());
}

/// Detaching a node does not revive a graph.
proof fn lemma_detach_keeps_inert(graph: GraphModel, node: Text, fuel: nat)
    ensures
        graph.detach_within(node, fuel).inert == graph.inert,
    decreases fuel,
{
    match least(touching(graph.links, node), graph.links.len() as int) {
        Some(i) => {
            if fuel > 0 {
                lemma_detach_keeps_inert(graph.detach_step(node, i), node, (fuel - 1) as nat);
            }
        },
        None => {},
    }
}

/// Publishing matching ports does not revive a graph.
proof fn lemma_expose_keeps_inert(
    graph: GraphModel,
    node: Text,
    template: TemplateModel,
    ports: Seq<PortModel>,
    upto: nat,
)
    ensures
        graph.expose_matching(node, template, ports, upto).inert == graph.inert,
    decreases upto,
{
    if upto > 0 {
        lemma_expose_keeps_inert(graph, node, template, ports, (upto - 1) as nat);
    }
}

/// Publication does not revive a graph.
proof fn lemma_publish_keeps_inert(graph: GraphModel, target: NodeModel, upto: nat)
    ensures
        graph.publish_upto(target, upto).inert == graph.inert,
    decreases upto,
{
    if upto > 0 {
        lemma_publish_keeps_inert(graph, target, (upto - 1) as nat);
        lemma_expose_keeps_inert(
            graph.publish_upto(target, (upto - 1) as nat),
            target.name,
            target.templates[upto - 1],
            target.ports,
            target.ports.len(),
        );
    }
}

/// A reaction does not revive a graph.
proof fn lemma_react_keeps_inert(
    graph: GraphModel,
    node: Text,
    template: Text,
    port: Text,
    listener: ListenerModel,
)
    requires
        graph.inert,
    ensures
        graph.react(node, template, port, listener).0.inert,
{
    match listener.reaction {
        ReactionModel::Swap { sink } => {
            lemma_detach_keeps_inert(graph, sink, graph.links.len());
        },
        _ => {},
    }
}

/// A round of reactions does not revive a graph.
proof fn lemma_deliver_keeps_inert(
    graph: GraphModel,
    node: Text,
    template: Text,
    port: Text,
    listeners: Seq<ListenerModel>,
    from: int,
)
    requires
        graph.inert,
    ensures
        graph.deliver(node, template, port, listeners, from).0.inert,
    decreases listeners.len() - from,
{
    if 0 <= from < listeners.len() {
        lemma_react_keeps_inert(graph, node, template, port, listeners[from]);
        let (next, error) = graph.react(node, template, port, listeners[from]);
        if error is None {
            lemma_deliver_keeps_inert(next, node, template, port, listeners, from + 1);
        }
    }
}

/// Teardown is final: no operation makes an inert graph accept timers
/// again.
pub proof fn lemma_inert_is_final(
    graph: GraphModel,
    a: Text,
    b: Text,
    c: Text,
    reaction: ReactionModel,
    timestamp: u64,
    now: u64,
    renewal: RenewalModel,
)
    requires
        graph.inert,
    ensures
        graph.add_node(a, b).inert,
        graph.configure(a, b, c).inert,
        graph.watch(a, reaction).inert,
        graph.link(a, b, c).inert,
        graph.connect(a, b).inert,
        graph.detach(a).inert,
        graph.designate(a).inert,
        graph.publish().inert,
        graph.attach(a, b, c).0.inert,
        graph.report(a, b).inert,
        graph.drained().inert,
        graph.fire(now).inert,
        graph.teardown().inert,
        graph.schedule(timestamp, now, renewal) == graph,
{
    lemma_detach_keeps_inert(graph, a, graph.links.len());
    let target = graph.node(graph.link_to.unwrap());
    lemma_publish_keeps_inert(graph, target, target.templates.len());
    if graph.admits(a, b, c) {
        let recorded = graph.record_port(a, b, c);
        lemma_deliver_keeps_inert(recorded, a, b, c, recorded.listeners, 0);
    }
}

// ---- boundary ports ----
/// How many of the first `upto` of `ports` are output ports.
pub open spec fn count_outputs(ports: Seq<PortModel>, upto: nat) -> nat
    decreases upto,
{
    if upto == 0 {
        0
    } else {
        count_outputs(ports, (upto - 1) as nat) + if ports[upto - 1].direction is Output {
            1nat
        } else {
            0nat
        }
    }
}

/// How many of the first `upto` of `ports` are output ports made from
/// `template`.
pub open spec fn count_matching(ports: Seq<PortModel>, template: TemplateModel, upto: nat) -> nat
    decreases upto,
{
    if upto == 0 {
        0
    } else {
        count_matching(ports, template, (upto - 1) as nat) + if GraphModel::matches_template(
            ports[upto - 1],
            template,
        ) {
            1nat
        } else {
            0nat
        }
    }
}

/// How many output ports among the first `ports` of `node` match one of the
/// first `templates` output templates of it, each counted once for each
/// template it matches.
pub open spec fn count_published(node: NodeModel, templates: nat, ports: nat) -> nat
    decreases templates,
{
    if templates == 0 {
        0
    } else {
        count_published(node, (templates - 1) as nat, ports) + if node.templates[templates
            - 1].direction is Output {
            count_matching(node.ports, node.templates[templates - 1], ports)
        } else {
            0nat
        }
    }
}

/// How many of the first `upto` output templates of `node` the port `port`
/// matches.
pub open spec fn count_hits(node: NodeModel, port: PortModel, upto: nat) -> nat
    decreases upto,
{
    if upto == 0 {
        0
    } else {
        count_hits(node, port, (upto - 1) as nat) + if node.templates[upto - 1].direction is Output
            && GraphModel::matches_template(port, node.templates[upto - 1]) {
            1nat
        } else {
            0nat
        }
    }
}

/// Every output template of the node is always present.
pub open spec fn outputs_always(node: NodeModel) -> bool {
    forall|k: int|
        0 <= k < node.templates.len() && (#[trigger] node.templates[k]).direction is Output
            ==> node.templates[k].presence is Always
}

/// Publishing the matching ports adds one boundary port for each and leaves
/// the rest of the graph alone.
proof fn lemma_expose_matching(
    graph: GraphModel,
    node: Text,
    template: TemplateModel,
    ports: Seq<PortModel>,
    upto: nat,
)
    ensures
        graph.expose_matching(node, template, ports, upto).boundary.len() == graph.boundary.len()
            + count_matching(ports, template, upto),
    decreases upto,
{
    if upto > 0 {
        lemma_expose_matching(graph, node, template, ports, (upto - 1) as nat);
    }
}

/// Where every output template is always present, publication adds one
/// boundary port for each match of a port with an output template.
proof fn lemma_publish_upto(graph: GraphModel, target: NodeModel, upto: nat)
    requires
        outputs_always(target),
        upto <= target.templates.len(),
    ensures
        graph.publish_upto(target, upto).boundary.len() == graph.boundary.len() + count_published(
            target,
            upto,
            target.ports.len(),
        ),
    decreases upto,
{
    if upto > 0 {
        lemma_publish_upto(graph, target, (upto - 1) as nat);
        let before = graph.publish_upto(target, (upto - 1) as nat);
        let template = target.templates[upto - 1];
        if template.direction is Output {
            assert(template.presence is Always);
            lemma_expose_matching(before, target.name, template, target.ports, target.ports.len());
        }
    }
}

/// One more port adds its hits to the count.
proof fn lemma_count_published_step(node: NodeModel, templates: nat, ports: nat)
    requires
        ports < node.ports.len(),
    ensures
        count_published(node, templates, ports + 1) == count_published(node, templates, ports)
            + count_hits(node, node.ports[ports as int], templates),
    decreases templates,
{
    if templates > 0 {
        lemma_count_published_step(node, (templates - 1) as nat, ports);
    }
}

/// An output port of a well-formed node hits exactly one output template;
/// an input port hits none.
proof fn lemma_hits_once(node: NodeModel, i: int, upto: nat)
    requires
        node.wf(),
        0 <= i < node.ports.len(),
        upto <= node.templates.len(),
    ensures
        count_hits(node, node.ports[i], upto) == if node.ports[i].direction is Output && exists|
            k: int,
        |
            0 <= k < upto && (#[trigger] node.templates[k]).name == node.ports[i].template
                && node.templates[k].direction is Output {
            1nat
        } else {
            0nat
        },
    decreases upto,
{
    let port = node.ports[i];
    let names = template_names(node.templates);
    if upto > 0 {
        lemma_hits_once(node, i, (upto - 1) as nat);
        let last = node.templates[upto - 1];
        if last.direction is Output && GraphModel::matches_template(port, last) {
            assert forall|k: int| 0 <= k < upto - 1 implies !((#[trigger] node.templates[k]).name
                == port.template && node.templates[k].direction is Output) by {
                assert(names[k] == node.templates[k].name);
                assert(names[upto - 1] == last.name);
            }
        } else {
            if port.direction is Output && exists|k: int|
                0 <= k < upto && (#[trigger] node.templates[k]).name == port.template
                    && node.templates[k].direction is Output {
                let k = choose|k: int|
                    0 <= k < upto && (#[trigger] node.templates[k]).name == port.template
                        && node.templates[k].direction is Output;
                assert(k < upto - 1);
            }
        }
    }
}

/// In a well-formed node whose ports are counted once for each output
/// template they match, the count is the number of output ports.
proof fn lemma_count_published(node: NodeModel, ports: nat)
    requires
        node.wf(),
        ports <= node.ports.len(),
    ensures
        count_published(node, node.templates.len(), ports) == count_outputs(node.ports, ports),
    decreases ports,
{
    if ports == 0 {
        lemma_count_published_none(node, node.templates.len());
    } else {
        let m = (ports - 1) as nat;
        lemma_count_published(node, m);
        lemma_count_published_step(node, node.templates.len(), m);
        lemma_hits_once(node, m as int, node.templates.len());
        if node.ports[m as int].direction is Output {
            assert(node.port_resolves(m as int));
        }
    }
}

/// Of no ports none is published.
proof fn lemma_count_published_none(node: NodeModel, templates: nat)
    ensures
        count_published(node, templates, 0) == 0,
    decreases templates,
{
    if templates > 0 {
        lemma_count_published_none(node, (templates - 1) as nat);
    }
}

/// Boundary ports are complete: where every output template of the
/// designated node is always present, publication adds exactly as many
/// boundary ports as the node has output ports.
pub proof fn lemma_boundary_complete(graph: GraphModel)
    requires
        graph.wf(),
        graph.publish_check() is None,
        outputs_always(graph.node(graph.link_to.unwrap())),
    ensures
        graph.publish().boundary.len() == graph.boundary.len() + count_outputs(
            graph.node(graph.link_to.unwrap()).ports,
            graph.node(graph.link_to.unwrap()).ports.len(),
        ),
{
    let name = graph.link_to.unwrap();
    lemma_position(node_names(graph.nodes), name);
    let target = graph.node(name);
    assert(target.wf());
    lemma_publish_upto(graph, target, target.templates.len());
    lemma_count_published(target, target.ports.len());
}

// ---- ports that appear later ----
/// Whether `listener` publishes the ports that `node` gains from
/// `template`.
pub open spec fn publishes(listener: ListenerModel, node: Text, template: Text) -> bool {
    listener.node == node && listener.reaction == (ReactionModel::Publish { template })
}

/// How many of `listeners`, from place `from` on, publish the ports that
/// `node` gains from `template`.
pub open spec fn count_publishers(
    listeners: Seq<ListenerModel>,
    node: Text,
    template: Text,
    from: int,
) -> nat
    decreases listeners.len() - from,
{
    if from < 0 || from >= listeners.len() {
        0
    } else {
        count_publishers(listeners, node, template, from + 1) + if publishes(
            listeners[from],
            node,
            template,
        ) {
            1nat
        } else {
            0nat
        }
    }
}

/// Every listener registered on `node` publishes and does nothing else.
pub open spec fn only_publishers(listeners: Seq<ListenerModel>, node: Text) -> bool {
    forall|i: int|
        0 <= i < listeners.len() && (#[trigger] listeners[i]).node == node
            ==> listeners[i].reaction is Publish
}

/// No listener is registered on `node`.
pub open spec fn unwatched(listeners: Seq<ListenerModel>, node: Text) -> bool {
    forall|i: int| 0 <= i < listeners.len() ==> (#[trigger] listeners[i]).node != node
}

/// A round of publishing listeners cannot fail; it adds one boundary port
/// for each listener that publishes the port's template and changes nothing
/// else.
proof fn lemma_deliver_publishes(
    graph: GraphModel,
    node: Text,
    template: Text,
    port: Text,
    listeners: Seq<ListenerModel>,
    from: int,
)
    requires
        only_publishers(listeners, node),
        graph.has_node(node),
        0 <= from,
    ensures
        ({
            let (after, error) = graph.deliver(node, template, port, listeners, from);
            &&& error is None
            &&& after.boundary.len() == graph.boundary.len() + count_publishers(
                listeners,
                node,
                template,
                from,
            )
            &&& after.nodes == graph.nodes
            &&& after.links == graph.links
            &&& after.listeners == graph.listeners
            &&& after.timers == graph.timers
            &&& after.inert == graph.inert
        }),
    decreases listeners.len() - from,
{
    if from < listeners.len() {
        let (next, error) = graph.react(node, template, port, listeners[from]);
        assert(error is None);
        lemma_deliver_publishes(next, node, template, port, listeners, from + 1);
    }
}

/// Liveness of ports that appear later: where only publishing listeners are
/// registered on a node, an output port that the node gains is recorded,
/// and the boundary grows by one port for each listener that publishes the
/// port's template; links, listeners and timers stay as they are.
pub proof fn lemma_attach_publishes(graph: GraphModel, node: Text, template: Text, port: Text)
    requires
        graph.admits(node, template, port),
        graph.node(node).template_named(template).unwrap().direction is Output,
        only_publishers(graph.listeners, node),
    ensures
        ({
            let (after, error) = graph.attach(node, template, port);
            &&& error is None
            &&& after.boundary.len() == graph.boundary.len() + count_publishers(
                graph.listeners,
                node,
                template,
                0,
            )
            &&& after.nodes == graph.record_port(node, template, port).nodes
            &&& after.links == graph.links
            &&& after.listeners == graph.listeners
            &&& after.timers == graph.timers
        }),
{
    let recorded = graph.record_port(node, template, port);
    assert(node_names(recorded.nodes) =~= node_names(graph.nodes));
    lemma_deliver_publishes(recorded, node, template, port, recorded.listeners, 0);
}

/// The listeners that publication registers for the first `upto` templates
/// of `target`: one for each output template whose ports come and go.
pub open spec fn sometimes_listeners(target: NodeModel, upto: nat) -> Seq<ListenerModel>
    decreases upto,
{
    if upto == 0 {
        Seq::empty()
    } else {
        let before = sometimes_listeners(target, (upto - 1) as nat);
        let template = target.templates[upto - 1];
        if template.direction is Output && template.presence is Sometimes {
            before.push(
                ListenerModel {
                    node: target.name,
                    reaction: ReactionModel::Publish { template: template.name },
                },
            )
        } else {
            before
        }
    }
}

/// Publishing matching ports touches neither nodes, links nor listeners.
proof fn lemma_expose_shape(
    graph: GraphModel,
    node: Text,
    template: TemplateModel,
    ports: Seq<PortModel>,
    upto: nat,
)
    ensures
        graph.expose_matching(node, template, ports, upto).nodes == graph.nodes,
        graph.expose_matching(node, template, ports, upto).links == graph.links,
        graph.expose_matching(node, template, ports, upto).listeners == graph.listeners,
        graph.expose_matching(node, template, ports, upto).link_to == graph.link_to,
    decreases upto,
{
    if upto > 0 {
        lemma_expose_shape(graph, node, template, ports, (upto - 1) as nat);
    }
}

/// Publication touches neither nodes nor links, and registers exactly the
/// listeners for the templates whose ports come and go.
pub proof fn lemma_publish_shape(graph: GraphModel, target: NodeModel, upto: nat)
    ensures
        graph.publish_upto(target, upto).nodes == graph.nodes,
        graph.publish_upto(target, upto).links == graph.links,
        graph.publish_upto(target, upto).link_to == graph.link_to,
        graph.publish_upto(target, upto).listeners == graph.listeners + sometimes_listeners(
            target,
            upto,
        ),
    decreases upto,
{
    if upto > 0 {
        lemma_publish_shape(graph, target, (upto - 1) as nat);
        let before = graph.publish_upto(target, (upto - 1) as nat);
        lemma_expose_shape(
            before,
            target.name,
            target.templates[upto - 1],
            target.ports,
            target.ports.len(),
        );
        assert(graph.publish_upto(target, upto).listeners =~= graph.listeners
            + sometimes_listeners(target, upto));
    } else {
        assert(graph.listeners =~= graph.listeners + sometimes_listeners(target, 0));
    }
}

/// One more listener at the end adds to the count if it publishes.
proof fn lemma_count_publishers_push(
    listeners: Seq<ListenerModel>,
    last: ListenerModel,
    node: Text,
    template: Text,
    from: int,
)
    requires
        0 <= from <= listeners.len(),
    ensures
        count_publishers(listeners.push(last), node, template, from) == count_publishers(
            listeners,
            node,
            template,
            from,
        ) + if publishes(last, node, template) {
            1nat
        } else {
            0nat
        },
    decreases listeners.len() - from,
{
    if from < listeners.len() {
        lemma_count_publishers_push(listeners, last, node, template, from + 1);
        assert(listeners.push(last)[from] == listeners[from]);
    } else {
        assert(listeners.push(last)[from] == last);
        assert(count_publishers(listeners.push(last), node, template, from + 1) == 0);
    }
}

/// Listeners on other nodes do not count.
proof fn lemma_count_publishers_none(
    listeners: Seq<ListenerModel>,
    node: Text,
    template: Text,
    from: int,
)
    requires
        unwatched(listeners, node),
    ensures
        count_publishers(listeners, node, template, from) == 0,
    decreases listeners.len() - from,
{
    if 0 <= from < listeners.len() {
        lemma_count_publishers_none(listeners, node, template, from + 1);
    }
}

/// After publication exactly one listener publishes the ports of a template
/// whose ports come and go, and only publishing listeners are registered on
/// the node.
proof fn lemma_count_sometimes(
    listeners: Seq<ListenerModel>,
    target: NodeModel,
    upto: nat,
    j: int,
)
    requires
        unwatched(listeners, target.name),
        target.wf(),
        upto <= target.templates.len(),
        0 <= j < target.templates.len(),
        target.templates[j].direction is Output,
        target.templates[j].presence is Sometimes,
    ensures
        count_publishers(
            listeners + sometimes_listeners(target, upto),
            target.name,
            target.templates[j].name,
            0,
        ) == if j < upto {
            1nat
        } else {
            0nat
        },
        only_publishers(listeners + sometimes_listeners(target, upto), target.name),
    decreases upto,
{
    let name = target.templates[j].name;
    if upto == 0 {
        assert(listeners + sometimes_listeners(target, 0) =~= listeners);
        lemma_count_publishers_none(listeners, target.name, name, 0);
    } else {
        lemma_count_sometimes(listeners, target, (upto - 1) as nat, j);
        let before = listeners + sometimes_listeners(target, (upto - 1) as nat);
        let template = target.templates[upto - 1];
        if template.direction is Output && template.presence is Sometimes {
            let last = ListenerModel {
                node: target.name,
                reaction: ReactionModel::Publish { template: template.name },
            };
            assert(listeners + sometimes_listeners(target, upto) =~= before.push(last));
            lemma_count_publishers_push(before, last, target.name, name, 0);
            let names = template_names(target.templates);
            assert(names[upto - 1] == template.name && names[j] == name);
            assert(publishes(last, target.name, name) <==> j == upto - 1);
            assert forall|i: int|
                0 <= i < before.push(last).len() && (#[trigger] before.push(last)[i]).node
                    == target.name implies before.push(last)[i].reaction is Publish by {
                if i < before.len() {
                    assert(before.push(last)[i] == before[i]);
                }
            }
        } else {
            assert(listeners + sometimes_listeners(target, upto) =~= before);
        }
    }
}

/// Liveness after publication: where the designated node had no listener
/// before its ports were published, each port that it gains afterwards from
/// an output template whose ports come and go appears on the boundary
/// exactly once.
pub proof fn lemma_sometimes_liveness(graph: GraphModel, template: Text, port: Text)
    requires
        graph.wf(),
        graph.publish_check() is None,
        unwatched(graph.listeners, graph.link_to.unwrap()),
        graph.admits(graph.link_to.unwrap(), template, port),
        graph.node(graph.link_to.unwrap()).template_named(template).unwrap().direction is Output,
        graph.node(graph.link_to.unwrap()).template_named(template).unwrap().presence is Sometimes,
    ensures
        ({
            let published = graph.publish();
            let (after, error) = published.attach(graph.link_to.unwrap(), template, port);
            &&& error is None
            &&& after.boundary.len() == published.boundary.len() + 1
            &&& after.boundary.last() == (BoundaryModel {
                node: graph.link_to.unwrap(),
                template,
                port: Some(port),
            })
        }),
{
    let name = graph.link_to.unwrap();
    lemma_position(node_names(graph.nodes), name);
    let target = graph.node(name);
    assert(target.wf());
    let published = graph.publish();
    lemma_publish_shape(graph, target, target.templates.len());
    lemma_position(template_names(target.templates), template);
    let j = position(template_names(target.templates), template).unwrap();
    assert(target.templates[j].name == template);
    lemma_count_sometimes(graph.listeners, target, target.templates.len(), j);
    assert(published.admits(name, template, port));
    lemma_attach_publishes(published, name, template, port);
    let recorded = published.record_port(name, template, port);
    assert(node_names(recorded.nodes) =~= node_names(published.nodes));
    lemma_deliver_last(recorded, name, template, port, recorded.listeners, 0);
}

/// In a round of publishing listeners of which at least one publishes the
/// port's template, the last boundary port is the new port's.
proof fn lemma_deliver_last(
    graph: GraphModel,
    node: Text,
    template: Text,
    port: Text,
    listeners: Seq<ListenerModel>,
    from: int,
)
    requires
        only_publishers(listeners, node),
        graph.has_node(node),
        0 <= from,
    ensures
        ({
            let after = graph.deliver(node, template, port, listeners, from).0;
            let fresh = BoundaryModel { node, template, port: Some(port) };
            &&& after.boundary.len() >= graph.boundary.len()
            &&& (count_publishers(listeners, node, template, from) > 0 || (graph.boundary.len() > 0
                && graph.boundary.last() == fresh)) ==> after.boundary.len() > 0
                && after.boundary.last() == fresh
        }),
    decreases listeners.len() - from,
{
    if from < listeners.len() {
        let (next, error) = graph.react(node, template, port, listeners[from]);
        assert(error is None);
        lemma_deliver_last(next, node, template, port, listeners, from + 1);
        lemma_deliver_publishes(next, node, template, port, listeners, from + 1);
    }
}

} // verus!

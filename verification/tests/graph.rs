use stream_graph::bin_builder::BinBuilder;
use stream_graph::catalog::{NodeKind, PortDirection, PortPresence, PortTemplate, Registry};
use stream_graph::error::GraphError;
use stream_graph::google_api::RtspStreamInfo;
use stream_graph::graph::{Command, Link, Reaction, Renewal};
use stream_graph::pipeline_builder::PipelineBuilder;

fn registry() -> Registry {
    let mut registry = Registry::new();
    registry.define(
        NodeKind::new(
            "rtspsrc",
            vec![PortTemplate::new("stream_%u", PortDirection::Output, PortPresence::Sometimes)],
        )
        .unwrap(),
    );
    registry.define(
        NodeKind::new(
            "decodebin",
            vec![
                PortTemplate::new("sink", PortDirection::Input, PortPresence::Always),
                PortTemplate::new("src_%u", PortDirection::Output, PortPresence::Sometimes),
            ],
        )
        .unwrap(),
    );
    registry.define(
        NodeKind::new(
            "videotestsrc",
            vec![PortTemplate::new("src", PortDirection::Output, PortPresence::Always)],
        )
        .unwrap(),
    );
    registry
}

fn session(expires_at: u64) -> RtspStreamInfo {
    RtspStreamInfo {
        base_rtsp_url: String::from("rtsp://host/live"),
        stream_token: String::from("tok"),
        stream_extension_token: String::from("ext"),
        expires_at,
    }
}

fn renewal(expires_at: u64) -> Renewal {
    Renewal { device_id: String::from("cam-1"), session: session(expires_at) }
}

fn link(src_node: &str, src_port: &str, sink_node: &str) -> Link {
    Link {
        src_node: String::from(src_node),
        src_port: String::from(src_port),
        sink_node: String::from(sink_node),
        sink_port: String::from("sink"),
    }
}

fn names(bin: &BinBuilder) -> Vec<String> {
    bin.elements().iter().map(|node| node.name.clone()).collect()
}

#[test]
fn node_kind_rejects_repeated_template_names() {
    let twice = vec![
        PortTemplate::new("src", PortDirection::Output, PortPresence::Always),
        PortTemplate::new("src", PortDirection::Input, PortPresence::Request),
    ];
    assert!(NodeKind::new("odd", twice).is_none());
    let once = vec![PortTemplate::new("src", PortDirection::Output, PortPresence::Always)];
    let kind = NodeKind::new("fine", once).unwrap();
    assert_eq!(kind.name(), "fine");
    assert_eq!(kind.templates().len(), 1);
}

#[test]
fn registry_finds_the_first_kind_of_a_name() {
    let mut registry = Registry::new();
    assert_eq!(registry.len(), 0);
    assert!(registry.find("a").is_none());
    registry.define(NodeKind::new("a", vec![]).unwrap());
    registry.define(
        NodeKind::new(
            "a",
            vec![PortTemplate::new("src", PortDirection::Output, PortPresence::Always)],
        )
        .unwrap(),
    );
    assert_eq!(registry.len(), 2);
    assert_eq!(registry.find("a").unwrap().templates().len(), 0);
    assert!(registry.find("b").is_none());
}

#[test]
fn new_graph_is_empty() {
    let bin = BinBuilder::new("bin", registry());
    assert_eq!(bin.name(), "bin");
    assert!(bin.elements().is_empty());
    assert!(bin.links().is_empty());
    assert!(bin.boundary_ports().is_empty());
    assert!(bin.listeners().is_empty());
    assert!(bin.timers().is_empty());
    assert!(bin.commands().is_empty());
    assert!(bin.link_element().is_none());
    assert!(!bin.is_inert());
}

#[test]
fn add_element_rejects_unknown_kind() {
    let mut bin = BinBuilder::new("bin", registry());
    assert_eq!(bin.add_element("nosuch", "x"), Err(GraphError::Construction));
    assert!(bin.elements().is_empty());
    assert!(bin.commands().is_empty());
}

#[test]
fn add_element_rejects_taken_name() {
    let mut bin = BinBuilder::new("bin", registry());
    assert_eq!(bin.add_element("rtspsrc", "x"), Ok(()));
    assert_eq!(bin.add_element("decodebin", "x"), Err(GraphError::Construction));
    assert_eq!(names(&bin), vec!["x"]);
    assert_eq!(bin.element_kind("x"), Some(String::from("rtspsrc")));
    assert_eq!(bin.commands().len(), 1);
}

#[test]
fn add_element_gives_the_node_its_static_ports() {
    let mut bin = BinBuilder::new("bin", registry());
    bin.add_element("decodebin", "dec").unwrap();
    let node = &bin.elements()[0];
    assert_eq!(node.kind, "decodebin");
    assert_eq!(node.templates.len(), 2);
    assert_eq!(node.ports.len(), 1);
    assert_eq!(node.ports[0].name, "sink");
    assert_eq!(node.ports[0].template, "sink");
    assert_eq!(node.ports[0].direction, PortDirection::Input);
    assert!(node.properties.is_empty());
    assert_eq!(
        bin.commands(),
        &vec![Command::Create { kind: String::from("decodebin"), name: String::from("dec") }]
    );
}

#[test]
fn set_element_property_sets_and_overwrites() {
    let mut bin = BinBuilder::new("bin", registry());
    bin.add_element("rtspsrc", "src").unwrap();
    assert_eq!(bin.element_property("src", "location"), None);
    assert_eq!(bin.set_element_property("src", "location", "rtsp://a"), Ok(()));
    assert_eq!(bin.set_element_property("src", "latency", "200"), Ok(()));
    assert_eq!(bin.set_element_property("src", "location", "rtsp://b"), Ok(()));
    assert_eq!(bin.element_property("src", "location"), Some(String::from("rtsp://b")));
    assert_eq!(bin.element_property("src", "latency"), Some(String::from("200")));
    assert_eq!(bin.elements()[0].properties.len(), 2);
    assert_eq!(bin.elements()[0].properties[0].key, "location");
    assert_eq!(
        bin.commands()[3],
        Command::Configure {
            node: String::from("src"),
            key: String::from("location"),
            value: String::from("rtsp://b"),
        }
    );
}

#[test]
fn set_element_property_fails_on_missing_node() {
    let mut bin = BinBuilder::new("bin", registry());
    assert_eq!(bin.set_element_property("src", "location", "x"), Err(GraphError::NotFound));
    assert_eq!(bin.element_property("src", "location"), None);
    assert!(bin.commands().is_empty());
}

#[test]
fn on_pad_connected_registers_on_existing_nodes_only() {
    let mut bin = BinBuilder::new("bin", registry());
    bin.add_element("rtspsrc", "src").unwrap();
    bin.on_pad_connected("gone", Reaction::Link { sink: String::from("dec") });
    assert!(bin.listeners().is_empty());
    bin.on_pad_connected("src", Reaction::Link { sink: String::from("dec") });
    assert_eq!(bin.listeners().len(), 1);
    assert_eq!(bin.listeners()[0].node, "src");
    assert_eq!(bin.listeners()[0].reaction, Reaction::Link { sink: String::from("dec") });
    assert_eq!(bin.commands()[1], Command::Watch { node: String::from("src") });
    assert_eq!(bin.commands().len(), 2);
}

#[test]
fn connect_links_an_output_into_the_sink() {
    let mut bin = BinBuilder::new("bin", registry());
    bin.add_element("videotestsrc", "pattern").unwrap();
    bin.add_element("decodebin", "dec").unwrap();
    assert_eq!(bin.connect_src_pad_to_static_sink_pad("src", "dec"), Ok(()));
    assert_eq!(bin.links(), &vec![link("pattern", "src", "dec")]);
    assert_eq!(bin.commands()[2], Command::Link { link: link("pattern", "src", "dec") });
}

#[test]
fn connect_takes_the_first_owner_of_the_port() {
    let mut bin = BinBuilder::new("bin", registry());
    bin.add_element("videotestsrc", "one").unwrap();
    bin.add_element("videotestsrc", "two").unwrap();
    bin.add_element("decodebin", "dec").unwrap();
    bin.connect_src_pad_to_static_sink_pad("src", "dec").unwrap();
    assert_eq!(bin.links(), &vec![link("one", "src", "dec")]);
}

#[test]
fn connect_fails_where_an_endpoint_is_missing() {
    let mut bin = BinBuilder::new("bin", registry());
    bin.add_element("videotestsrc", "pattern").unwrap();
    bin.add_element("decodebin", "dec").unwrap();
    bin.add_element("rtspsrc", "cam").unwrap();
    // no such output port
    assert_eq!(bin.connect_src_pad_to_static_sink_pad("nope", "dec"), Err(GraphError::NotFound));
    // an input port is no output port
    assert_eq!(bin.connect_src_pad_to_static_sink_pad("sink", "dec"), Err(GraphError::NotFound));
    // no such node
    assert_eq!(bin.connect_src_pad_to_static_sink_pad("src", "gone"), Err(GraphError::NotFound));
    // the node has no fixed input port
    assert_eq!(bin.connect_src_pad_to_static_sink_pad("src", "cam"), Err(GraphError::NotFound));
    assert!(bin.links().is_empty());
    assert_eq!(bin.commands().len(), 3);
}

#[test]
fn connect_fails_where_a_port_has_a_peer() {
    let mut bin = BinBuilder::new("bin", registry());
    bin.add_element("videotestsrc", "one").unwrap();
    bin.add_element("decodebin", "dec").unwrap();
    bin.add_element("decodebin", "other").unwrap();
    bin.connect_src_pad_to_static_sink_pad("src", "dec").unwrap();
    // the output port is taken
    assert_eq!(bin.connect_src_pad_to_static_sink_pad("src", "other"), Err(GraphError::Link));
    bin.port_attached("dec", "src_%u", "src_0").unwrap();
    // the input port is taken
    assert_eq!(bin.connect_src_pad_to_static_sink_pad("src_0", "dec"), Err(GraphError::Link));
    assert_eq!(bin.links().len(), 1);
    assert_eq!(bin.connect_src_pad_to_static_sink_pad("src_0", "other"), Ok(()));
    assert_eq!(bin.links().len(), 2);
}

#[test]
fn unlink_and_remove_takes_the_upstream_away() {
    let mut bin = BinBuilder::new("bin", registry());
    bin.add_element("videotestsrc", "one").unwrap();
    bin.add_element("videotestsrc", "idle").unwrap();
    bin.add_element("decodebin", "dec").unwrap();
    bin.on_pad_connected("one", Reaction::Link { sink: String::from("dec") });
    bin.on_pad_connected("idle", Reaction::Link { sink: String::from("dec") });
    bin.connect_src_pad_to_static_sink_pad("src", "dec").unwrap();
    bin.take_commands();
    assert_eq!(bin.unlink_and_remove_src_elements("dec"), Ok(()));
    assert_eq!(names(&bin), vec!["idle", "dec"]);
    assert!(bin.links().is_empty());
    assert_eq!(bin.listeners().len(), 1);
    assert_eq!(bin.listeners()[0].node, "idle");
    assert_eq!(
        bin.commands(),
        &vec![
            Command::Unlink { link: link("one", "src", "dec") },
            Command::Remove { node: String::from("one") },
        ]
    );
}

#[test]
fn unlink_and_remove_is_idempotent() {
    let mut bin = BinBuilder::new("bin", registry());
    bin.add_element("videotestsrc", "one").unwrap();
    bin.add_element("decodebin", "dec").unwrap();
    bin.connect_src_pad_to_static_sink_pad("src", "dec").unwrap();
    bin.unlink_and_remove_src_elements("dec").unwrap();
    let commands = bin.commands().len();
    assert_eq!(bin.unlink_and_remove_src_elements("dec"), Ok(()));
    assert_eq!(names(&bin), vec!["dec"]);
    assert_eq!(bin.commands().len(), commands);
}

#[test]
fn unlink_and_remove_removes_peers_on_both_sides() {
    let mut bin = BinBuilder::new("bin", registry());
    bin.add_element("videotestsrc", "up").unwrap();
    bin.add_element("decodebin", "mid").unwrap();
    bin.add_element("decodebin", "down").unwrap();
    bin.connect_src_pad_to_static_sink_pad("src", "mid").unwrap();
    bin.port_attached("mid", "src_%u", "src_0").unwrap();
    bin.connect_src_pad_to_static_sink_pad("src_0", "down").unwrap();
    assert_eq!(bin.links().len(), 2);
    bin.unlink_and_remove_src_elements("mid").unwrap();
    assert_eq!(names(&bin), vec!["mid"]);
    assert!(bin.links().is_empty());
}

#[test]
fn unlink_and_remove_fails_on_missing_node() {
    let mut bin = BinBuilder::new("bin", registry());
    assert_eq!(bin.unlink_and_remove_src_elements("dec"), Err(GraphError::NotFound));
}

#[test]
fn scheduled_callback_waits_until_the_timestamp() {
    let mut bin = BinBuilder::new("bin", registry());
    assert_eq!(bin.add_scheduled_callback(100, 40, renewal(130)), Some(60));
    assert_eq!(bin.timers().len(), 1);
    assert_eq!(bin.timers()[0].fire_at, 100);
    assert_eq!(bin.commands(), &vec![Command::Sleep { delay: 60 }]);
}

#[test]
fn scheduled_callback_in_the_past_runs_at_once() {
    let mut bin = BinBuilder::new("bin", registry());
    assert_eq!(bin.add_scheduled_callback(10, 40, renewal(40)), Some(0));
    assert_eq!(bin.timers()[0].fire_at, 40);
    assert_eq!(bin.add_scheduled_callback(40, 40, renewal(70)), Some(0));
    assert_eq!(bin.timers()[1].fire_at, 40);
}

#[test]
fn due_timer_fires_once() {
    let mut bin = BinBuilder::new("bin", registry());
    bin.add_scheduled_callback(100, 0, renewal(130));
    bin.add_scheduled_callback(50, 0, renewal(80));
    assert!(bin.take_due_timer(49).is_none());
    let fired = bin.take_due_timer(60).unwrap();
    assert_eq!(fired.session.expires_at, 80);
    assert_eq!(bin.timers().len(), 1);
    assert!(bin.take_due_timer(60).is_none());
    let fired = bin.take_due_timer(100).unwrap();
    assert_eq!(fired.session.expires_at, 130);
    assert_eq!(fired.device_id, "cam-1");
    assert!(bin.timers().is_empty());
}

#[test]
fn due_timers_fire_in_the_order_they_were_armed() {
    let mut bin = BinBuilder::new("bin", registry());
    bin.add_scheduled_callback(100, 0, renewal(130));
    bin.add_scheduled_callback(50, 0, renewal(80));
    assert_eq!(bin.take_due_timer(200).unwrap().session.expires_at, 130);
    assert_eq!(bin.take_due_timer(200).unwrap().session.expires_at, 80);
}

#[test]
fn failure_removes_every_node_and_refuses_timers() {
    let mut bin = BinBuilder::new("bin", registry());
    bin.add_element("videotestsrc", "one").unwrap();
    bin.add_element("rtspsrc", "two").unwrap();
    bin.add_element("decodebin", "dec").unwrap();
    bin.connect_src_pad_to_static_sink_pad("src", "dec").unwrap();
    bin.on_pad_connected("two", Reaction::Link { sink: String::from("dec") });
    bin.set_link_element("dec");
    bin.add_ghost_src_pads().unwrap();
    bin.add_scheduled_callback(100, 0, renewal(130));
    bin.take_commands();
    assert_eq!(bin.elements().len(), 3);

    bin.failure(GraphError::Link);

    assert!(bin.elements().is_empty());
    assert!(bin.links().is_empty());
    assert!(bin.listeners().is_empty());
    assert!(bin.boundary_ports().is_empty());
    assert!(bin.timers().is_empty());
    assert!(bin.link_element().is_none());
    assert!(bin.is_inert());
    assert_eq!(
        bin.commands(),
        &vec![
            Command::Halt,
            Command::Remove { node: String::from("one") },
            Command::Remove { node: String::from("two") },
            Command::Remove { node: String::from("dec") },
        ]
    );
    assert_eq!(bin.add_scheduled_callback(500, 0, renewal(530)), None);
    assert!(bin.timers().is_empty());
    assert_eq!(bin.commands().len(), 4);
    // a second teardown finds nothing to remove
    bin.take_commands();
    bin.failure(GraphError::NotFound);
    assert_eq!(bin.commands(), &vec![Command::Halt]);
}

#[test]
fn an_inert_graph_stays_inert() {
    let mut bin = BinBuilder::new("bin", registry());
    bin.failure(GraphError::Construction);
    bin.add_element("decodebin", "dec").unwrap();
    bin.set_element_property("dec", "k", "v").unwrap();
    assert!(bin.is_inert());
    assert_eq!(bin.add_scheduled_callback(5, 0, renewal(35)), None);
    assert!(bin.take_due_timer(u64::MAX).is_none());
}

#[test]
fn take_commands_hands_each_instruction_over_once() {
    let mut bin = BinBuilder::new("bin", registry());
    bin.add_element("decodebin", "dec").unwrap();
    bin.set_element_property("dec", "k", "v").unwrap();
    let first = bin.take_commands();
    assert_eq!(first.len(), 2);
    assert!(bin.commands().is_empty());
    assert!(bin.take_commands().is_empty());
    assert_eq!(names(&bin), vec!["dec"]);
}

#[test]
fn construct_error_message() {
    let mut bin = BinBuilder::new("bin", registry());
    bin.post_error_message("resource", "test");
    assert_eq!(
        bin.commands(),
        &vec![Command::Report { category: String::from("resource"), message: String::from("test") }]
    );
}

#[test]
fn element_kind_names_the_kind_of_a_node() {
    let mut bin = BinBuilder::new("bin", registry());
    bin.add_element("decodebin", "dec").unwrap();
    assert_eq!(bin.element_kind("dec"), Some(String::from("decodebin")));
    assert_eq!(bin.element_kind("gone"), None);
    assert!(bin.has_element("dec"));
    assert!(!bin.has_element("gone"));
}

#[test]
fn port_attached_records_ports_of_known_templates_only() {
    let mut bin = BinBuilder::new("bin", registry());
    bin.add_element("decodebin", "dec").unwrap();
    assert_eq!(bin.port_attached("gone", "src_%u", "src_0"), Ok(()));
    assert_eq!(bin.port_attached("dec", "nosuch", "src_0"), Ok(()));
    assert_eq!(bin.port_attached("dec", "src_%u", "sink"), Ok(()));
    assert_eq!(bin.elements()[0].ports.len(), 1);
    assert_eq!(bin.port_attached("dec", "src_%u", "src_0"), Ok(()));
    assert_eq!(bin.port_attached("dec", "src_%u", "src_0"), Ok(()));
    assert_eq!(bin.elements()[0].ports.len(), 2);
    assert_eq!(bin.elements()[0].ports[1].name, "src_0");
    assert_eq!(bin.elements()[0].ports[1].direction, PortDirection::Output);
}

#[test]
fn a_failed_reaction_tears_the_graph_down() {
    let mut bin = BinBuilder::new("bin", registry());
    bin.add_element("rtspsrc", "cam").unwrap();
    bin.on_pad_connected("cam", Reaction::Link { sink: String::from("gone") });
    assert_eq!(bin.port_attached("cam", "stream_%u", "stream_0"), Err(GraphError::NotFound));
    assert!(bin.is_inert());
    assert!(bin.elements().is_empty());
    assert!(bin.listeners().is_empty());
}

#[test]
fn a_second_port_cannot_be_linked_into_a_taken_sink() {
    let mut bin = BinBuilder::new("bin", registry());
    bin.add_element("rtspsrc", "cam").unwrap();
    bin.add_element("decodebin", "dec").unwrap();
    bin.on_pad_connected("cam", Reaction::Link { sink: String::from("dec") });
    assert_eq!(bin.port_attached("cam", "stream_%u", "stream_0"), Ok(()));
    assert_eq!(bin.links(), &vec![link("cam", "stream_0", "dec")]);
    assert_eq!(bin.port_attached("cam", "stream_%u", "stream_1"), Err(GraphError::Link));
    assert!(bin.is_inert());
}

#[test]
fn input_ports_do_not_reach_listeners() {
    let mut registry = registry();
    registry.define(
        NodeKind::new(
            "muxer",
            vec![PortTemplate::new("sink_%u", PortDirection::Input, PortPresence::Sometimes)],
        )
        .unwrap(),
    );
    let mut bin = BinBuilder::new("bin", registry);
    bin.add_element("muxer", "mux").unwrap();
    bin.on_pad_connected("mux", Reaction::Link { sink: String::from("gone") });
    assert_eq!(bin.port_attached("mux", "sink_%u", "sink_0"), Ok(()));
    assert!(!bin.is_inert());
    assert_eq!(bin.elements()[0].ports.len(), 1);
}

#[test]
fn pipeline_builder_builds_and_tears_down() {
    let mut pipeline = PipelineBuilder::new("top", registry());
    assert_eq!(pipeline.add_element("videotestsrc", "one"), Ok(()));
    assert_eq!(pipeline.add_element("decodebin", "dec"), Ok(()));
    assert_eq!(pipeline.add_element("nosuch", "x"), Err(GraphError::Construction));
    assert_eq!(pipeline.set_element_property("one", "pattern", "snow"), Ok(()));
    assert_eq!(pipeline.set_element_property("two", "pattern", "snow"), Err(GraphError::NotFound));
    pipeline.on_pad_connected("one", Reaction::Link { sink: String::from("dec") });
    assert_eq!(pipeline.connect_src_pad_to_static_sink_pad("src", "dec"), Ok(()));
    assert_eq!(pipeline.connect_src_pad_to_static_sink_pad("src", "dec"), Err(GraphError::Link));
    assert_eq!(pipeline.graph().links(), &vec![link("one", "src", "dec")]);
    assert_eq!(pipeline.add_scheduled_callback(90, 100, renewal(120)), Some(0));
    assert_eq!(pipeline.take_due_timer(100).unwrap().device_id, "cam-1");
    assert_eq!(pipeline.unlink_and_remove_src_elements("dec"), Ok(()));
    assert_eq!(pipeline.unlink_and_remove_src_elements("one"), Err(GraphError::NotFound));
    assert_eq!(pipeline.graph().elements().len(), 1);
    assert_eq!(pipeline.port_attached("dec", "src_%u", "src_0"), Ok(()));
    pipeline.failure(GraphError::Link);
    assert!(pipeline.graph().is_inert());
    assert!(pipeline.graph().elements().is_empty());
    assert_eq!(pipeline.add_scheduled_callback(90, 0, renewal(120)), None);
    let commands = pipeline.take_commands();
    assert_eq!(commands.last(), Some(&Command::Remove { node: String::from("dec") }));
    assert!(pipeline.graph().commands().is_empty());
}

#[test]
fn structural_errors_are_the_fatal_ones() {
    assert!(GraphError::Construction.structural());
    assert!(GraphError::NotFound.structural());
    assert!(GraphError::Link.structural());
    assert!(!GraphError::Credential.structural());
}

#[test]
fn nothing_refers_to_a_removed_node() {
    let mut bin = BinBuilder::new("bin", registry());
    bin.add_element("videotestsrc", "one").unwrap();
    bin.add_element("decodebin", "mid").unwrap();
    bin.add_element("decodebin", "end").unwrap();
    bin.on_pad_connected("mid", Reaction::Link { sink: String::from("end") });
    bin.connect_src_pad_to_static_sink_pad("src", "mid").unwrap();
    bin.port_attached("mid", "src_%u", "src_0").unwrap();
    assert_eq!(bin.links().len(), 2);
    bin.set_link_element("mid");
    bin.add_ghost_src_pads().unwrap();
    bin.port_attached("mid", "src_%u", "src_1").unwrap_err();
    // the second port could not be linked into the taken sink: teardown
    assert!(bin.is_inert());

    let mut bin = BinBuilder::new("bin", registry());
    bin.add_element("videotestsrc", "one").unwrap();
    bin.add_element("decodebin", "mid").unwrap();
    bin.add_element("decodebin", "end").unwrap();
    bin.connect_src_pad_to_static_sink_pad("src", "mid").unwrap();
    bin.on_pad_connected("mid", Reaction::Publish { template: String::from("src_%u") });
    bin.port_attached("mid", "src_%u", "src_0").unwrap();
    assert_eq!(bin.boundary_ports().len(), 1);
    bin.unlink_and_remove_src_elements("one").unwrap();
    assert_eq!(names(&bin), vec!["one", "end"]);
    for link in bin.links() {
        assert!(bin.has_element(&link.src_node) && bin.has_element(&link.sink_node));
    }
    for listener in bin.listeners() {
        assert!(bin.has_element(&listener.node));
    }
    for port in bin.boundary_ports() {
        assert!(bin.has_element(&port.node));
    }
    assert!(bin.links().is_empty());
    assert!(bin.listeners().is_empty());
    assert!(bin.boundary_ports().is_empty());
}

#[test]
fn copies_of_kinds_and_registries_are_equal_to_their_sources() {
    let registry = registry();
    let copy = registry.clone();
    assert_eq!(copy.len(), registry.len());
    let kind = copy.find("decodebin").unwrap().clone();
    assert_eq!(kind.name(), "decodebin");
    assert_eq!(kind.templates().len(), 2);
    assert_eq!(kind.templates()[1].name, "src_%u");
    assert_eq!(kind.templates()[1].direction, PortDirection::Output);
    assert_eq!(kind.templates()[1].presence, PortPresence::Sometimes);
    let template = kind.templates()[0].clone();
    assert_eq!(template.name, "sink");
}

use stream_graph::bin_builder::BinBuilder;
use stream_graph::catalog::{NodeKind, PortDirection, PortPresence, PortTemplate, Registry};
use stream_graph::error::GraphError;
use stream_graph::graph::{BoundaryPort, Command, Reaction};

fn kinds() -> Registry {
    let mut registry = Registry::new();
    registry.define(
        NodeKind::new(
            "tee",
            vec![
                PortTemplate::new("sink", PortDirection::Input, PortPresence::Always),
                PortTemplate::new("src_a", PortDirection::Output, PortPresence::Always),
                PortTemplate::new("src_b", PortDirection::Output, PortPresence::Always),
            ],
        )
        .unwrap(),
    );
    registry.define(
        NodeKind::new(
            "decodebin",
            vec![
                PortTemplate::new("sink", PortDirection::Input, PortPresence::Always),
                PortTemplate::new("src_%u", PortDirection::Output, PortPresence::Sometimes),
            ],
        )
        .unwrap(),
    );
    registry.define(
        NodeKind::new(
            "splitter",
            vec![
                PortTemplate::new("sink", PortDirection::Input, PortPresence::Always),
                PortTemplate::new("out_%u", PortDirection::Output, PortPresence::Request),
                PortTemplate::new("in_%u", PortDirection::Input, PortPresence::Request),
            ],
        )
        .unwrap(),
    );
    registry.define(
        NodeKind::new(
            "mixed",
            vec![
                PortTemplate::new("main", PortDirection::Output, PortPresence::Always),
                PortTemplate::new("extra_%u", PortDirection::Output, PortPresence::Sometimes),
                PortTemplate::new("tap_%u", PortDirection::Output, PortPresence::Request),
            ],
        )
        .unwrap(),
    );
    registry
}

fn boundary(node: &str, template: &str, port: Option<&str>) -> BoundaryPort {
    BoundaryPort {
        node: String::from(node),
        template: String::from(template),
        port: port.map(String::from),
    }
}

#[test]
fn publishing_needs_a_designated_node() {
    let mut bin = BinBuilder::new("bin", kinds());
    assert_eq!(bin.add_ghost_src_pads(), Err(GraphError::NotFound));
    bin.set_link_element("tee");
    assert!(bin.link_element().is_none());
    assert_eq!(bin.add_ghost_src_pads(), Err(GraphError::NotFound));
    assert!(bin.commands().is_empty());
}

#[test]
fn set_link_element_forgets_on_unknown_names() {
    let mut bin = BinBuilder::new("bin", kinds());
    bin.add_element("tee", "tee").unwrap();
    bin.set_link_element("tee");
    assert_eq!(bin.link_element(), &Some(String::from("tee")));
    bin.set_link_element("other");
    assert_eq!(bin.link_element(), &None);
}

#[test]
fn publishing_fails_once_the_designated_node_is_gone() {
    let mut bin = BinBuilder::new("bin", kinds());
    bin.add_element("tee", "tee").unwrap();
    bin.add_element("decodebin", "dec").unwrap();
    bin.set_link_element("tee");
    bin.connect_src_pad_to_static_sink_pad("src_a", "dec").unwrap();
    bin.unlink_and_remove_src_elements("dec").unwrap();
    assert!(!bin.has_element("tee"));
    assert_eq!(bin.add_ghost_src_pads(), Err(GraphError::NotFound));
}

#[test]
fn always_present_ports_are_all_published() {
    let mut bin = BinBuilder::new("bin", kinds());
    bin.add_element("tee", "t").unwrap();
    bin.set_link_element("t");
    bin.take_commands();
    let outputs = bin.elements()[0]
        .ports
        .iter()
        .filter(|port| port.direction == PortDirection::Output)
        .count();
    assert_eq!(outputs, 2);
    assert_eq!(bin.add_ghost_src_pads(), Ok(()));
    assert_eq!(bin.boundary_ports().len(), outputs);
    assert_eq!(
        bin.boundary_ports(),
        &vec![boundary("t", "src_a", Some("src_a")), boundary("t", "src_b", Some("src_b"))]
    );
    assert_eq!(
        bin.commands(),
        &vec![
            Command::Expose { port: boundary("t", "src_a", Some("src_a")) },
            Command::Expose { port: boundary("t", "src_b", Some("src_b")) },
        ]
    );
    assert!(bin.listeners().is_empty());
}

#[test]
fn a_port_that_appears_later_is_published_when_it_appears() {
    let mut bin = BinBuilder::new("bin", kinds());
    bin.add_element("decodebin", "dec").unwrap();
    bin.set_link_element("dec");
    assert_eq!(bin.add_ghost_src_pads(), Ok(()));
    assert!(bin.boundary_ports().is_empty());
    assert_eq!(bin.listeners().len(), 1);
    assert_eq!(bin.listeners()[0].reaction, Reaction::Publish { template: String::from("src_%u") });

    assert_eq!(bin.port_attached("dec", "src_%u", "src_0"), Ok(()));

    assert_eq!(bin.boundary_ports(), &vec![boundary("dec", "src_%u", Some("src_0"))]);
    assert_eq!(
        bin.commands().last(),
        Some(&Command::Expose { port: boundary("dec", "src_%u", Some("src_0")) })
    );
    // the listener stays: every later port is published too
    assert_eq!(bin.port_attached("dec", "src_%u", "src_1"), Ok(()));
    assert_eq!(bin.boundary_ports().len(), 2);
    assert_eq!(bin.boundary_ports()[1], boundary("dec", "src_%u", Some("src_1")));
}

#[test]
fn a_request_template_gets_one_port_requested() {
    let mut bin = BinBuilder::new("bin", kinds());
    bin.add_element("splitter", "split").unwrap();
    bin.set_link_element("split");
    bin.take_commands();
    assert_eq!(bin.add_ghost_src_pads(), Ok(()));
    assert_eq!(bin.boundary_ports(), &vec![boundary("split", "out_%u", None)]);
    assert_eq!(bin.commands(), &vec![Command::Expose { port: boundary("split", "out_%u", None) }]);
    assert!(bin.listeners().is_empty());
}

#[test]
fn each_template_follows_its_own_policy() {
    let mut bin = BinBuilder::new("bin", kinds());
    bin.add_element("mixed", "m").unwrap();
    bin.set_link_element("m");
    bin.take_commands();
    assert_eq!(bin.add_ghost_src_pads(), Ok(()));
    assert_eq!(
        bin.commands(),
        &vec![
            Command::Expose { port: boundary("m", "main", Some("main")) },
            Command::Watch { node: String::from("m") },
            Command::Expose { port: boundary("m", "tap_%u", None) },
        ]
    );
    assert_eq!(bin.boundary_ports().len(), 2);
    // a port of another template than the listener's is not published by it
    assert_eq!(bin.port_attached("m", "tap_%u", "tap_0"), Ok(()));
    assert_eq!(bin.boundary_ports().len(), 2);
    assert_eq!(bin.port_attached("m", "extra_%u", "extra_0"), Ok(()));
    assert_eq!(bin.boundary_ports().len(), 3);
    assert_eq!(bin.boundary_ports()[2], boundary("m", "extra_%u", Some("extra_0")));
}

#[test]
fn boundary_ports_go_with_their_node() {
    let mut bin = BinBuilder::new("bin", kinds());
    bin.add_element("tee", "t").unwrap();
    bin.add_element("decodebin", "dec").unwrap();
    bin.set_link_element("t");
    bin.add_ghost_src_pads().unwrap();
    assert_eq!(bin.boundary_ports().len(), 2);
    bin.connect_src_pad_to_static_sink_pad("src_a", "dec").unwrap();
    bin.unlink_and_remove_src_elements("dec").unwrap();
    assert!(bin.boundary_ports().is_empty());
    assert!(!bin.has_element("t"));
}

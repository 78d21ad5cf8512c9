use stream_graph::bin_builder::BinBuilder;
use stream_graph::catalog::{NodeKind, PortDirection, PortPresence, PortTemplate, Registry};
use stream_graph::error::GraphError;
use stream_graph::google_api::{
    CredentialError, ExtendRtspStreamResponse, GoogleApiClient, RtspStreamInfo,
};
use stream_graph::graph::{Command, Link, Reaction};
use stream_graph::source::camera_rtsp::{
    renewal_deadline, CameraRtspInterpreter, CameraRtspInterpreterImpl, StreamEvent, StreamState,
    SAFETY_MARGIN,
};
use stream_graph::source::concat::ConcatInterpreter;
use stream_graph::source::restart_on_error::RestartOnErrorInterpreter;
use stream_graph::source::{Source, SourceInterpreter};

fn kinds() -> Registry {
    let mut registry = Registry::new();
    registry.define(
        NodeKind::new(
            "rtspsrc",
            vec![PortTemplate::new("stream_%u", PortDirection::Output, PortPresence::Sometimes)],
        )
        .unwrap(),
    );
    registry.define(
        NodeKind::new(
            "decodebin",
            vec![
                PortTemplate::new("sink", PortDirection::Input, PortPresence::Always),
                PortTemplate::new("src_%u", PortDirection::Output, PortPresence::Sometimes),
            ],
        )
        .unwrap(),
    );
    registry
}

fn session(token: &str, extension: &str, expires_at: u64) -> RtspStreamInfo {
    RtspStreamInfo {
        base_rtsp_url: String::from("rtsp://host/live"),
        stream_token: String::from(token),
        stream_extension_token: String::from(extension),
        expires_at,
    }
}

fn refusal() -> CredentialError {
    CredentialError { message: String::from("refused") }
}

fn link(src_node: &str, src_port: &str) -> Link {
    Link {
        src_node: String::from(src_node),
        src_port: String::from(src_port),
        sink_node: String::from("decodebin"),
        sink_port: String::from("sink"),
    }
}

fn names(bin: &BinBuilder) -> Vec<String> {
    bin.elements().iter().map(|node| node.name.clone()).collect()
}

fn feeds(bin: &BinBuilder) -> usize {
    bin.links().iter().filter(|link| link.sink_node == "decodebin").count()
}

/// Grants a first session that expires at `expires_at` and refuses to extend.
struct GrantsOnce {
    expires_at: u64,
}

impl GoogleApiClient for GrantsOnce {
    fn generate_rtsp_stream(&self, _device_id: &str) -> Result<RtspStreamInfo, CredentialError> {
        Ok(session("tok", "ext", self.expires_at))
    }

    fn extend_rtsp_stream(
        &self,
        _device_id: &str,
        _stream_extension_token: String,
    ) -> Result<RtspStreamInfo, CredentialError> {
        Err(refusal())
    }
}

/// Grants sessions that last `lifetime` from time 0, and extends every
/// session by `lifetime`, naming the next session after the token it is given.
struct Extends {
    lifetime: u64,
}

impl GoogleApiClient for Extends {
    fn generate_rtsp_stream(&self, _device_id: &str) -> Result<RtspStreamInfo, CredentialError> {
        Ok(session("tok", "ext", self.lifetime))
    }

    fn extend_rtsp_stream(
        &self,
        _device_id: &str,
        stream_extension_token: String,
    ) -> Result<RtspStreamInfo, CredentialError> {
        let next = format!("{}+", stream_extension_token);
        Ok(session("tok2", &next, 2 * self.lifetime))
    }
}

struct Refuses;

impl GoogleApiClient for Refuses {
    fn generate_rtsp_stream(&self, _device_id: &str) -> Result<RtspStreamInfo, CredentialError> {
        Err(refusal())
    }

    fn extend_rtsp_stream(
        &self,
        _device_id: &str,
        _stream_extension_token: String,
    ) -> Result<RtspStreamInfo, CredentialError> {
        Err(refusal())
    }
}

struct NoConcat;

impl ConcatInterpreter for NoConcat {
    fn interpret(
        &self,
        _first: &Box<Source>,
        _second: &Box<Source>,
        _now: u64,
    ) -> Result<BinBuilder, GraphError> {
        Err(GraphError::Construction)
    }
}

/// Builds the inner source with the camera strategy it is given.
struct RestartsCameras<'a> {
    cameras: &'a dyn CameraRtspInterpreter,
}

impl<'a> RestartOnErrorInterpreter for RestartsCameras<'a> {
    fn interpret(&self, source: &Box<Source>, now: u64) -> Result<BinBuilder, GraphError> {
        match &**source {
            Source::CameraRtsp { device_id } => self.cameras.interpret(device_id, now),
            _ => Err(GraphError::Construction),
        }
    }
}

#[test]
fn session_location_carries_the_access_token() {
    assert_eq!(session("tok", "ext", 60).location(), "rtsp://host/live?auth=tok");
    assert_eq!(session("", "ext", 60).location(), "rtsp://host/live?auth=");
}

#[test]
fn an_extension_keeps_the_location() {
    let first = session("tok", "ext", 60);
    let response = ExtendRtspStreamResponse {
        stream_token: String::from("tok2"),
        expires_at: 120,
        stream_extension_token: String::from("ext2"),
    };
    let next = first.extended(&response);
    assert_eq!(next.base_rtsp_url, "rtsp://host/live");
    assert_eq!(next.stream_token, "tok2");
    assert_eq!(next.stream_extension_token, "ext2");
    assert_eq!(next.expires_at, 120);
}

#[test]
fn renewal_is_due_thirty_units_before_expiry() {
    assert_eq!(SAFETY_MARGIN, 30);
    assert_eq!(renewal_deadline(100), 70);
    assert_eq!(renewal_deadline(30), 0);
    assert_eq!(renewal_deadline(29), 0);
    assert_eq!(renewal_deadline(0), 0);
    assert_eq!(renewal_deadline(u64::MAX), u64::MAX - 30);
}

#[test]
fn renewal_timer_fires_thirty_units_before_expiry() {
    let mut bin = BinBuilder::new("bin", kinds());
    let delay = CameraRtspInterpreterImpl::handle_rtsp_stream_extension(
        &mut bin,
        "cam-1",
        session("tok", "ext", 1000),
        400,
    );
    assert_eq!(delay, Some(570));
    assert_eq!(bin.timers()[0].fire_at, 970);
    assert_eq!(bin.timers()[0].renewal.device_id, "cam-1");
    assert_eq!(bin.timers()[0].renewal.session.stream_extension_token, "ext");
    assert!(bin.take_due_timer(969).is_none());
    assert!(bin.take_due_timer(970).is_some());
}

#[test]
fn renewal_timer_fires_at_once_when_the_margin_is_past() {
    let mut bin = BinBuilder::new("bin", kinds());
    let delay = CameraRtspInterpreterImpl::handle_rtsp_stream_extension(
        &mut bin,
        "cam-1",
        session("tok", "ext", 410),
        400,
    );
    assert_eq!(delay, Some(0));
    assert_eq!(bin.timers()[0].fire_at, 400);
    let delay = CameraRtspInterpreterImpl::handle_rtsp_stream_extension(
        &mut bin,
        "cam-1",
        session("tok", "ext", 5),
        400,
    );
    assert_eq!(delay, Some(0));
    assert_eq!(bin.timers()[1].fire_at, 400);
    assert_eq!(bin.commands(), &vec![Command::Sleep { delay: 0 }, Command::Sleep { delay: 0 }]);
}

#[test]
fn start_stream_builds_the_camera_graph() {
    let bin =
        CameraRtspInterpreterImpl::start_stream(kinds(), "cam-1", session("tok", "ext", 60), 0)
            .unwrap();
    assert_eq!(bin.name(), "RTSP Camera: cam-1");
    assert_eq!(names(&bin), vec!["rtspsrc", "decodebin"]);
    assert_eq!(
        bin.element_property("rtspsrc", "location"),
        Some(String::from("rtsp://host/live?auth=tok"))
    );
    assert_eq!(bin.listeners().len(), 1);
    assert_eq!(bin.listeners()[0].node, "rtspsrc");
    assert_eq!(bin.listeners()[0].reaction, Reaction::Link { sink: String::from("decodebin") });
    assert!(bin.links().is_empty());
    assert_eq!(bin.timers().len(), 1);
    assert_eq!(bin.timers()[0].fire_at, 30);
    assert_eq!(
        bin.commands(),
        &vec![
            Command::Create { kind: String::from("rtspsrc"), name: String::from("rtspsrc") },
            Command::Create { kind: String::from("decodebin"), name: String::from("decodebin") },
            Command::Configure {
                node: String::from("rtspsrc"),
                key: String::from("location"),
                value: String::from("rtsp://host/live?auth=tok"),
            },
            Command::Watch { node: String::from("rtspsrc") },
            Command::Sleep { delay: 30 },
        ]
    );
}

#[test]
fn start_stream_needs_both_kinds() {
    let mut only_transport = Registry::new();
    only_transport.define(NodeKind::new("rtspsrc", vec![]).unwrap());
    let result = CameraRtspInterpreterImpl::start_stream(
        only_transport,
        "cam-1",
        session("tok", "ext", 60),
        0,
    );
    assert_eq!(result.err(), Some(GraphError::Construction));
    let result = CameraRtspInterpreterImpl::start_stream(
        Registry::new(),
        "cam-1",
        session("tok", "ext", 60),
        0,
    );
    assert_eq!(result.err(), Some(GraphError::Construction));
}

#[test]
fn the_first_port_of_the_transport_is_linked_to_the_decoder() {
    let mut bin =
        CameraRtspInterpreterImpl::start_stream(kinds(), "cam-1", session("tok", "ext", 60), 0)
            .unwrap();
    assert_eq!(bin.port_attached("rtspsrc", "stream_%u", "stream_0"), Ok(()));
    assert_eq!(bin.links(), &vec![link("rtspsrc", "stream_0")]);
    assert_eq!(bin.commands().last(), Some(&Command::Link { link: link("rtspsrc", "stream_0") }));
}

#[test]
fn acquisition_refused_is_a_credential_error() {
    let api = Refuses;
    let cameras = CameraRtspInterpreterImpl::new(&api, kinds());
    assert_eq!(cameras.camera_rtsp_stream("cam-1", 0).err(), Some(GraphError::Credential));
    assert_eq!(cameras.interpret("cam-1", 0).err(), Some(GraphError::Credential));
}

#[test]
fn switch_adds_a_transport_named_after_the_renewal_token() {
    let mut bin =
        CameraRtspInterpreterImpl::start_stream(kinds(), "cam-1", session("tok", "ext", 60), 0)
            .unwrap();
    bin.take_commands();
    let next = session("tok2", "ext2", 120);
    assert_eq!(CameraRtspInterpreterImpl::handle_rtsp_stream_switch(&mut bin, &next), Ok(()));
    assert_eq!(names(&bin), vec!["rtspsrc", "decodebin", "rtspsrcext2"]);
    assert_eq!(
        bin.element_property("rtspsrcext2", "location"),
        Some(String::from("rtsp://host/live?auth=tok2"))
    );
    assert_eq!(bin.listeners().len(), 2);
    assert_eq!(bin.listeners()[1].node, "rtspsrcext2");
    assert_eq!(bin.listeners()[1].reaction, Reaction::Swap { sink: String::from("decodebin") });
    assert_eq!(bin.commands().len(), 3);
    // the same session cannot be taken up twice
    assert_eq!(
        CameraRtspInterpreterImpl::handle_rtsp_stream_switch(&mut bin, &next),
        Err(GraphError::Construction)
    );
    assert_eq!(bin.elements().len(), 3);
    assert_eq!(bin.commands().len(), 3);
}

#[test]
fn hot_swap_feeds_the_decoder_from_one_transport_at_a_time() {
    let api = Extends { lifetime: 60 };
    let cameras = CameraRtspInterpreterImpl::new(&api, kinds());
    let mut bin = cameras.interpret("cam-1", 0).unwrap();
    assert_eq!(feeds(&bin), 0);
    bin.port_attached("rtspsrc", "stream_%u", "stream_0").unwrap();
    assert_eq!(feeds(&bin), 1);

    // the timer fires and the session is extended
    assert!(cameras.renew_stream(&mut bin, 29).is_none());
    assert_eq!(cameras.renew_stream(&mut bin, 30), Some(Ok(StreamState::Active)));
    assert_eq!(names(&bin), vec!["rtspsrc", "decodebin", "rtspsrcext+"]);
    assert_eq!(feeds(&bin), 1);
    assert_eq!(bin.links(), &vec![link("rtspsrc", "stream_0")]);
    assert_eq!(bin.timers().len(), 1);
    assert_eq!(bin.timers()[0].fire_at, 90);
    assert_eq!(bin.timers()[0].renewal.session.stream_token, "tok2");

    // the new transport announces its port: the old one is retired
    bin.take_commands();
    bin.port_attached("rtspsrcext+", "stream_%u", "stream_0").unwrap();
    assert_eq!(feeds(&bin), 1);
    assert_eq!(bin.links(), &vec![link("rtspsrcext+", "stream_0")]);
    assert_eq!(names(&bin), vec!["decodebin", "rtspsrcext+"]);
    assert_eq!(
        bin.commands(),
        &vec![
            Command::Unlink { link: link("rtspsrc", "stream_0") },
            Command::Remove { node: String::from("rtspsrc") },
            Command::Link { link: link("rtspsrcext+", "stream_0") },
        ]
    );
    assert_eq!(bin.listeners().len(), 1);
    assert_eq!(bin.listeners()[0].node, "rtspsrcext+");

    // and the next renewal swaps again
    assert_eq!(cameras.renew_stream(&mut bin, 90), Some(Ok(StreamState::Active)));
    assert_eq!(names(&bin), vec!["decodebin", "rtspsrcext+", "rtspsrcext++"]);
    bin.port_attached("rtspsrcext++", "stream_%u", "stream_0").unwrap();
    assert_eq!(bin.links(), &vec![link("rtspsrcext++", "stream_0")]);
    assert_eq!(feeds(&bin), 1);
    assert_eq!(bin.timers().len(), 1);
}

#[test]
fn a_refused_renewal_changes_nothing_and_arms_no_timer() {
    let mut bin =
        CameraRtspInterpreterImpl::start_stream(kinds(), "cam-1", session("tok", "ext", 60), 0)
            .unwrap();
    bin.port_attached("rtspsrc", "stream_%u", "stream_0").unwrap();
    let fired = bin.take_due_timer(30).unwrap();
    bin.take_commands();
    let result =
        CameraRtspInterpreterImpl::apply_renewal(&mut bin, &fired.device_id, Err(refusal()), 30);
    assert_eq!(result, Ok(StreamState::Failed));
    assert_eq!(names(&bin), vec!["rtspsrc", "decodebin"]);
    assert_eq!(bin.links(), &vec![link("rtspsrc", "stream_0")]);
    assert!(bin.timers().is_empty());
    assert!(bin.commands().is_empty());
    assert!(!bin.is_inert());
}

#[test]
fn a_session_that_cannot_be_taken_up_tears_the_graph_down() {
    let mut bin =
        CameraRtspInterpreterImpl::start_stream(kinds(), "cam-1", session("tok", "ext", 60), 0)
            .unwrap();
    bin.take_due_timer(30).unwrap();
    // a session whose transport would be called like the decoder's neighbour
    bin.add_element("decodebin", "rtspsrcclash").unwrap();
    let result = CameraRtspInterpreterImpl::apply_renewal(
        &mut bin,
        "cam-1",
        Ok(session("tok2", "clash", 120)),
        30,
    );
    assert_eq!(result, Err(GraphError::Construction));
    assert!(bin.is_inert());
    assert!(bin.elements().is_empty());
    assert!(bin.timers().is_empty());
}

#[test]
fn an_inert_graph_is_not_renewed() {
    let mut bin =
        CameraRtspInterpreterImpl::start_stream(kinds(), "cam-1", session("tok", "ext", 60), 0)
            .unwrap();
    bin.failure(GraphError::Link);
    bin.take_commands();
    let result = CameraRtspInterpreterImpl::apply_renewal(
        &mut bin,
        "cam-1",
        Ok(session("tok2", "ext2", 120)),
        30,
    );
    assert_eq!(result, Ok(StreamState::Failed));
    assert!(bin.elements().is_empty());
    assert!(bin.commands().is_empty());
}

#[test]
fn end_to_end_refused_renewal_leaves_the_first_transport_playing() {
    let api = GrantsOnce { expires_at: 60 };
    let cameras = CameraRtspInterpreterImpl::new(&api, kinds());
    let concat = NoConcat;
    let restart = RestartsCameras { cameras: &cameras };
    let interpreter = SourceInterpreter::new(&cameras, &concat, &restart);
    let topology = Source::RestartOnError {
        source: Box::new(Source::CameraRtsp { device_id: String::from("cam-1") }),
    };

    let mut bin = interpreter.interpret_stream(&topology, 0).unwrap();
    bin.port_attached("rtspsrc", "stream_%u", "stream_0").unwrap();
    assert_eq!(bin.timers().len(), 1);
    assert_eq!(bin.timers()[0].fire_at, 30);
    let nodes_before = names(&bin);
    let links_before = bin.links().clone();
    let location_before = bin.element_property("rtspsrc", "location");
    bin.take_commands();

    // nothing is due before now+30
    assert!(cameras.renew_stream(&mut bin, 29).is_none());
    assert_eq!(bin.timers().len(), 1);
    // at now+30 the timer fires and the extension is refused
    assert_eq!(cameras.renew_stream(&mut bin, 30), Some(Ok(StreamState::Failed)));

    assert_eq!(names(&bin), nodes_before);
    assert_eq!(names(&bin), vec!["rtspsrc", "decodebin"]);
    assert_eq!(bin.links(), &links_before);
    assert_eq!(bin.links(), &vec![link("rtspsrc", "stream_0")]);
    assert_eq!(bin.element_property("rtspsrc", "location"), location_before);
    assert_eq!(location_before, Some(String::from("rtsp://host/live?auth=tok")));
    assert!(bin.timers().is_empty());
    assert!(bin.commands().is_empty());
    assert!(!bin.is_inert());
    // and no timer ever fires again
    assert!(cameras.renew_stream(&mut bin, u64::MAX).is_none());
}

#[test]
fn stream_state_follows_the_lifecycle() {
    let s = StreamState::Acquiring;
    assert_eq!(s.step(StreamEvent::TimerFired), StreamState::Acquiring);
    let s = s.step(StreamEvent::Granted);
    assert_eq!(s, StreamState::Active);
    assert_eq!(s.step(StreamEvent::Granted), StreamState::Active);
    assert_eq!(s.step(StreamEvent::Refused), StreamState::Active);
    let s = s.step(StreamEvent::TimerFired);
    assert_eq!(s, StreamState::Renewing);
    assert_eq!(s.step(StreamEvent::Granted), StreamState::Active);
    let s = s.step(StreamEvent::Refused);
    assert_eq!(s, StreamState::Failed);
    assert_eq!(s.step(StreamEvent::Granted), StreamState::Failed);
    assert_eq!(s.step(StreamEvent::TimerFired), StreamState::Failed);
    assert_eq!(s.step(StreamEvent::Refused), StreamState::Failed);
    assert_eq!(StreamState::Acquiring.step(StreamEvent::Refused), StreamState::Failed);
}

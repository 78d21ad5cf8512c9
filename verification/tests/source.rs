use stream_graph::bin_builder::BinBuilder;
use stream_graph::catalog::Registry;
use stream_graph::error::GraphError;
use stream_graph::source::camera_rtsp::CameraRtspInterpreter;
use stream_graph::source::concat::ConcatInterpreter;
use stream_graph::source::restart_on_error::RestartOnErrorInterpreter;
use stream_graph::source::{Source, SourceInterpreter};

fn camera(device_id: &str) -> Source {
    Source::CameraRtsp { device_id: String::from(device_id) }
}

fn concat(first: Source, second: Source) -> Source {
    Source::Concat { first: Box::new(first), second: Box::new(second) }
}

fn restart(source: Source) -> Source {
    Source::RestartOnError { source: Box::new(source) }
}

/// Builds an empty graph named after what it was asked for.
struct Names;

impl CameraRtspInterpreter for Names {
    fn interpret(&self, device_id: &str, now: u64) -> Result<BinBuilder, GraphError> {
        Ok(BinBuilder::new(&format!("camera {} at {}", device_id, now), Registry::new()))
    }
}

impl ConcatInterpreter for Names {
    fn interpret(
        &self,
        first: &Box<Source>,
        second: &Box<Source>,
        now: u64,
    ) -> Result<BinBuilder, GraphError> {
        let name = format!(
            "concat {:?} {:?} at {}",
            first.device_ids(),
            second.device_ids(),
            now
        );
        Ok(BinBuilder::new(&name, Registry::new()))
    }
}

impl RestartOnErrorInterpreter for Names {
    fn interpret(&self, source: &Box<Source>, now: u64) -> Result<BinBuilder, GraphError> {
        Ok(BinBuilder::new(&format!("restart {:?} at {}", source.device_ids(), now), Registry::new()))
    }
}

struct Fails;

impl CameraRtspInterpreter for Fails {
    fn interpret(&self, _device_id: &str, _now: u64) -> Result<BinBuilder, GraphError> {
        Err(GraphError::Credential)
    }
}

#[test]
fn a_walk_meets_the_cameras_from_the_left() {
    let topology = concat(
        restart(concat(camera("a"), camera("b"))),
        concat(camera("c"), restart(restart(camera("d")))),
    );
    assert_eq!(topology.device_ids(), vec!["a", "b", "c", "d"]);
    assert_eq!(camera("x").device_ids(), vec!["x"]);
    assert_eq!(restart(camera("x")).device_ids(), vec!["x"]);
}

#[test]
fn a_walk_of_a_deep_topology_ends() {
    let mut topology = camera("leaf");
    for _ in 0..500 {
        topology = restart(topology);
    }
    for i in 0..200 {
        topology = concat(camera(&format!("c{}", i)), topology);
    }
    let ids = topology.device_ids();
    assert_eq!(ids.len(), 201);
    assert_eq!(ids[0], "c199");
    assert_eq!(ids[200], "leaf");
}

#[test]
fn a_copy_describes_the_same_topology() {
    let topology = concat(restart(camera("a")), camera("b"));
    let copy = topology.clone();
    assert_eq!(copy.device_ids(), topology.device_ids());
    assert!(matches!(copy, Source::Concat { .. }));
}

#[test]
fn interpret_hands_each_variant_to_its_strategy() {
    let names = Names;
    let interpreter = SourceInterpreter::new(&names, &names, &names);
    let graph = interpreter.interpret_stream(&camera("cam-1"), 7).unwrap();
    assert_eq!(graph.name(), "camera cam-1 at 7");
    let graph = interpreter.interpret_stream(&concat(camera("a"), camera("b")), 8).unwrap();
    assert_eq!(graph.name(), "concat [\"a\"] [\"b\"] at 8");
    let graph = interpreter.interpret_stream(&restart(camera("a")), 9).unwrap();
    assert_eq!(graph.name(), "restart [\"a\"] at 9");
}

#[test]
fn interpret_hands_the_strategy_error_on() {
    let names = Names;
    let fails = Fails;
    let interpreter = SourceInterpreter::new(&fails, &names, &names);
    assert_eq!(
        interpreter.interpret_stream(&camera("cam-1"), 0).err(),
        Some(GraphError::Credential)
    );
    assert!(interpreter.interpret_stream(&restart(camera("cam-1")), 0).is_ok());
}

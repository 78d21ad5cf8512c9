//! The declarative description of how sources combine, and the interpreter
//! that turns a description into a graph.

pub mod camera_rtsp;
pub mod concat;
pub mod restart_on_error;

use crate::bin_builder::BinBuilder;
use crate::error::GraphError;
use crate::search::Text;
use crate::source::camera_rtsp::CameraRtspInterpreter;
use crate::source::concat::ConcatInterpreter;
use crate::source::restart_on_error::RestartOnErrorInterpreter;
use vstd::prelude::*;

verus! {

/// A source topology: a finite tree in which every node owns its children.
#[derive(Debug)]
pub enum Source {
    /// A networked live source, named by the device that streams.
    CameraRtsp { device_id: String },
    /// Two sources, one after the other.
    Concat { first: Box<Source>, second: Box<Source> },
    /// A source that is built again when its graph fails.
    RestartOnError { source: Box<Source> },
}

impl Clone for Source {
    fn clone(&self) -> (copy: Self)
        ensures
            copy == *self,
        decreases *self,
    {
        match self {
            Source::CameraRtsp { device_id } => Source::CameraRtsp { device_id: device_id.clone() },
            Source::Concat { first, second } => Source::Concat {
                first: Box::new((**first).clone()),
                second: Box::new((**second).clone()),
            },
            Source::RestartOnError { source } => Source::RestartOnError {
                source: Box::new((**source).clone()),
            },
        }
    }
}

impl Source {
    /// The number of nodes of the tree.
    pub open spec fn size(self) -> nat
        decreases self,
    {
        match self {
            Source::CameraRtsp { .. } => 1,
            Source::Concat { first, second } => 1 + first.size() + second.size(),
            Source::RestartOnError { source } => 1 + source.size(),
        }
    }

    /// The devices of the tree's leaves, as a depth-first walk from the left
    /// meets them.
    pub open spec fn cameras(self) -> Seq<Text>
        decreases self,
    {
        match self {
            Source::CameraRtsp { device_id } => seq![device_id@],
            Source::Concat { first, second } => first.cameras() + second.cameras(),
            Source::RestartOnError { source } => source.cameras(),
        }
    }

    /// Whether `inner` is reached from `self` by going down at least one
    /// edge.
    pub open spec fn reaches(self, inner: Source) -> bool
        decreases self,
    {
        match self {
            Source::CameraRtsp { .. } => false,
            Source::Concat { first, second } => *first == inner || first.reaches(inner) || *second
                == inner || second.reaches(inner),
            Source::RestartOnError { source } => *source == inner || source.reaches(inner),
        }
    }

    /// What lies below a node is smaller than the node.
    pub proof fn lemma_reached_is_smaller(self, inner: Source)
        requires
            self.reaches(inner),
        ensures
            inner.size() < self.size(),
        decreases self,
    {
        match self {
            Source::CameraRtsp { .. } => {},
            Source::Concat { first, second } => {
                if first.reaches(inner) {
                    first.lemma_reached_is_smaller(inner);
                } else if second.reaches(inner) {
                    second.lemma_reached_is_smaller(inner);
                }
            },
            Source::RestartOnError { source } => {
                if source.reaches(inner) {
                    source.lemma_reached_is_smaller(inner);
                }
            },
        }
    }

    /// A topology is acyclic: no node is reached from itself, so a walk that
    /// only goes down ends.
    pub proof fn lemma_acyclic(self)
        ensures
            !self.reaches(self),
    {
        if self.reaches(self) {
            self.lemma_reached_is_smaller(self);
        }
    }

    /// Every topology has a leaf, and as many leaves at most as nodes.
    pub proof fn lemma_cameras_bounded(self)
        ensures
            1 <= self.cameras().len() <= self.size(),
        decreases self,
    {
        match self {
            Source::CameraRtsp { .. } => {},
            Source::Concat { first, second } => {
                first.lemma_cameras_bounded();
                second.lemma_cameras_bounded();
            },
            Source::RestartOnError { source } => {
                source.lemma_cameras_bounded();
            },
        }
    }

    /// The devices that the topology streams from, collected by a
    /// depth-first walk from the left.
    pub fn device_ids(&self) -> (ids: Vec<String>)
        ensures
            ids@.map_values(|id: String| id@) == self.cameras(),
        decreases *self,
    {
        match self {
            Source::CameraRtsp { device_id } => {
                let mut ids: Vec<String> = Vec::new();
                ids.push(device_id.clone());
                assert(ids@.map_values(|id: String| id@) =~= seq![device_id@]);
                ids
            },
            Source::Concat { first, second } => {
                let mut ids = first.device_ids();
                let mut more = second.device_ids();
                let ghost left = ids@;
                let ghost right = more@;
                ids.append(&mut more);
                assert(ids@.map_values(|id: String| id@) =~= left.map_values(|id: String| id@)
                    + right.map_values(|id: String| id@));
                ids
            },
            Source::RestartOnError { source } => source.device_ids(),
        }
    }
}

/// The interpreter of source topologies: it hands each node of a topology
/// to the strategy for the node's variant.
pub struct SourceInterpreter<'a> {
    pub camera_rtsp: &'a dyn CameraRtspInterpreter,
    pub concat: &'a dyn ConcatInterpreter,
    pub restart_on_error: &'a dyn RestartOnErrorInterpreter,
}

impl<'a> SourceInterpreter<'a> {
    /// An interpreter that uses the three strategies.
    pub fn new(
        camera_rtsp: &'a dyn CameraRtspInterpreter,
        concat: &'a dyn ConcatInterpreter,
        restart_on_error: &'a dyn RestartOnErrorInterpreter,
    ) -> (interpreter: Self)
        ensures
            interpreter == (SourceInterpreter { camera_rtsp, concat, restart_on_error }),
    {
        Self { camera_rtsp, concat, restart_on_error }
    }

    /// Whether `result` is a result of interpreting `stream` at `now`: one
    /// that the strategy for the variant of `stream` admits for the parts of
    /// `stream`.
    pub open spec fn admits(&self, stream: Source, now: u64, result: Result<BinBuilder, GraphError>) -> bool {
        match stream {
            Source::CameraRtsp { device_id } => self.camera_rtsp.may_interpret(
                device_id@,
                now,
                result,
            ),
            Source::Concat { first, second } => self.concat.may_interpret(
                *first,
                *second,
                now,
                result,
            ),
            Source::RestartOnError { source } => self.restart_on_error.may_interpret(
                *source,
                now,
                result,
            ),
        }
    }

    /// Builds the graph that `stream` describes, at time `now`, by the
    /// strategy for the variant of `stream`.
    pub fn interpret_stream(&self, stream: &Source, now: u64) -> (result: Result<
        BinBuilder,
        GraphError,
    >)
        ensures
            self.admits(*stream, now, result),
            result matches Ok(graph) ==> graph@.wf(),
    {
        match stream {
            Source::CameraRtsp { device_id } => self.camera_rtsp.interpret(device_id.as_str(), now),
            Source::Concat { first, second } => self.concat.interpret(first, second, now),
            Source::RestartOnError { source } => self.restart_on_error.interpret(source, now),
        }
    }
}

} // verus!

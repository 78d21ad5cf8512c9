//! The strategy for networked live sources, and the lifecycle that keeps the
//! session of such a source alive.

use crate::bin_builder::{outcome, BinBuilder};
use crate::catalog::{find_kind, KindModel, Registry};
use crate::error::GraphError;
use crate::google_api::{CredentialError, GoogleApiClient, RtspStreamInfo, SessionModel};
use crate::graph::{Reaction, Renewal};
use crate::model::{due, fire_time, node_names, GraphModel, ReactionModel, RenewalModel};
use crate::search::{
    lemma_least, lemma_position, lemma_position_absent, lemma_position_found, Text,
};
use vstd::prelude::*;
use vstd::string::StringExecFns;

verus! {

/// Builds the graph for a networked live source.
pub trait CameraRtspInterpreter {
    /// Whether `result` is a result this strategy may give for `device_id`
    /// at `now`. A strategy that says nothing admits any.
    open spec fn may_interpret(
        &self,
        device_id: Text,
        now: u64,
        result: Result<BinBuilder, GraphError>,
    ) -> bool {
        true
    }

    /// Builds the graph that streams from `device_id`.
    fn interpret(&self, device_id: &str, now: u64) -> (result: Result<BinBuilder, GraphError>)
        ensures
            self.may_interpret(device_id@, now, result),
            result matches Ok(graph) ==> graph@.wf(),
    ;
}

/// How long before a session expires its renewal is due, in time units.
pub const SAFETY_MARGIN: u64 = 30;

/// Where a logical stream stands in its lifecycle.
#[derive(Clone, Copy, Debug, PartialEq, Eq, Structural)]
pub enum StreamState {
    /// The first session has been asked for.
    Acquiring,
    /// A session is in use and its renewal timer is armed.
    Active,
    /// The renewal timer has fired and the next session has been asked for.
    Renewing,
    /// No session will be asked for any more.
    Failed,
}

/// What happens to a logical stream.
#[derive(Clone, Copy, Debug, PartialEq, Eq, Structural)]
pub enum StreamEvent {
    /// The service granted a session and the graph took it up.
    Granted,
    /// The service refused, or the graph could not take the session up.
    Refused,
    /// The renewal timer fired.
    TimerFired,
}

impl StreamState {
    /// The state that follows `self` on `event`. An event that the state
    /// does not expect leaves it as it is; nothing leads out of `Failed`.
    pub open spec fn after(self, event: StreamEvent) -> StreamState {
        match (self, event) {
            (StreamState::Acquiring, StreamEvent::Granted) => StreamState::Active,
            (StreamState::Acquiring, StreamEvent::Refused) => StreamState::Failed,
            (StreamState::Active, StreamEvent::TimerFired) => StreamState::Renewing,
            (StreamState::Renewing, StreamEvent::Granted) => StreamState::Active,
            (StreamState::Renewing, StreamEvent::Refused) => StreamState::Failed,
            (state, _) => state,
        }
    }

    /// The state that follows `self` on `event`.
    pub fn step(self, event: StreamEvent) -> (next: StreamState)
        ensures
            next == self.after(event),
    {
        match (self, event) {
            (StreamState::Acquiring, StreamEvent::Granted) => StreamState::Active,
            (StreamState::Acquiring, StreamEvent::Refused) => StreamState::Failed,
            (StreamState::Active, StreamEvent::TimerFired) => StreamState::Renewing,
            (StreamState::Renewing, StreamEvent::Granted) => StreamState::Active,
            (StreamState::Renewing, StreamEvent::Refused) => StreamState::Failed,
            (state, _) => state,
        }
    }
}

/// The kind, and the name, of the first transport node.
pub open spec fn transport() -> Text {
    "rtspsrc"@
}

/// The kind and name of the decoding stage.
pub open spec fn decoder() -> Text {
    "decodebin"@
}

/// The property that holds a transport node's location.
pub open spec fn location_key() -> Text {
    "location"@
}

/// The name of the graph that streams from `device_id`.
pub open spec fn graph_name(device_id: Text) -> Text {
    "RTSP Camera: "@ + device_id
}

/// The name of the transport node that takes over with `session`.
pub open spec fn transport_name(session: SessionModel) -> Text {
    transport() + session.stream_extension_token
}

/// The moment the renewal of a session that expires at `expires_at` is asked
/// for: the safety margin before it expires, and the start of time where the
/// session does not last that long.
pub open spec fn renewal_time(expires_at: u64) -> u64 {
    if expires_at >= SAFETY_MARGIN {
        (expires_at - SAFETY_MARGIN) as u64
    } else {
        0
    }
}

/// The renewal timer of a session that expires at `expires_at`, armed at
/// `now`, fires the safety margin before the session expires, and at once
/// where that moment is not after `now`.
pub proof fn lemma_renewal_timing(expires_at: u64, now: u64)
    ensures
        fire_time(renewal_time(expires_at), now) == if expires_at - SAFETY_MARGIN <= now {
            now as int
        } else {
            expires_at - SAFETY_MARGIN
        },
        fire_time(renewal_time(expires_at), now) >= now,
{
}

/// Whether the kinds of a transport node and of a decoding stage are known.
pub open spec fn knows_stream_kinds(kinds: Seq<KindModel>) -> bool {
    find_kind(kinds, transport()) is Some && find_kind(kinds, decoder()) is Some
}

/// The graph with the renewal of `session` armed at `now`.
pub open spec fn armed(graph: GraphModel, device_id: Text, session: SessionModel, now: u64) -> GraphModel {
    graph.schedule(renewal_time(session.expires_at), now, RenewalModel { device_id, session })
}

/// The graph that streams from `device_id` under `session`, as it stands
/// when the session has been taken up at `now`: a transport node pointed at
/// the session's location, a decoding stage that the transport's ports are
/// linked into as they appear, and the renewal timer armed.
pub open spec fn started(kinds: Seq<KindModel>, device_id: Text, session: SessionModel, now: u64) -> GraphModel {
    armed(
        GraphModel::empty(graph_name(device_id), kinds).add_node(transport(), transport()).add_node(
            decoder(),
            decoder(),
        ).configure(transport(), location_key(), session.location()).watch(
            transport(),
            ReactionModel::Link { sink: decoder() },
        ),
        device_id,
        session,
        now,
    )
}

/// The graph with a transport node for `session` that takes the place of
/// whatever feeds the decoding stage once its first port appears.
pub open spec fn switched(graph: GraphModel, session: SessionModel) -> GraphModel {
    graph.add_node(transport(), transport_name(session)).configure(
        transport_name(session),
        location_key(),
        session.location(),
    ).watch(transport_name(session), ReactionModel::Swap { sink: decoder() })
}

/// What the service answered, as far as the lifecycle reads it.
pub open spec fn granted(answer: Result<RtspStreamInfo, CredentialError>) -> Option<SessionModel> {
    match answer {
        Ok(session) => Some(session@),
        Err(_) => None,
    }
}

/// Why the graph cannot take up the session that follows on a renewal, if
/// it cannot.
pub open spec fn switch_check(graph: GraphModel, session: SessionModel) -> Option<GraphError> {
    graph.add_check(transport(), transport_name(session))
}

/// The graph after the renewal that a fired timer stood for has been
/// answered with `answer` at `now`. An inert graph and a refusal change
/// nothing; a session that the graph cannot take up tears it down; any other
/// session brings its transport node and arms the next renewal.
pub open spec fn renewed(
    graph: GraphModel,
    device_id: Text,
    answer: Option<SessionModel>,
    now: u64,
) -> GraphModel {
    match answer {
        Some(session) if !graph.inert => match switch_check(graph, session) {
            Some(_) => graph.teardown(),
            None => armed(switched(graph, session), device_id, session, now),
        },
        _ => graph,
    }
}

/// What the renewal answered with `answer` returns: the stream is active
/// again, or has failed for good, or the graph was torn down with an error.
pub open spec fn renewal_result(graph: GraphModel, answer: Option<SessionModel>) -> Result<
    StreamState,
    GraphError,
> {
    match answer {
        Some(session) if !graph.inert => match switch_check(graph, session) {
            Some(e) => Err(e),
            None => Ok(StreamState::Renewing.after(StreamEvent::Granted)),
        },
        _ => Ok(StreamState::Renewing.after(StreamEvent::Refused)),
    }
}

/// At most one renewal is pending for a stream: the graph starts with one
/// timer, and when that timer has fired, the answer to the renewal arms at
/// most one other.
pub proof fn lemma_single_timer(
    kinds: Seq<KindModel>,
    graph: GraphModel,
    device_id: Text,
    session: SessionModel,
    answer: Option<SessionModel>,
    now: u64,
)
    requires
        graph.timers.len() == 1,
        graph.due_timer(now) is Some,
    ensures
        started(kinds, device_id, session, now).timers.len() == 1,
        renewed(graph.fire(now), device_id, answer, now).timers.len() <= 1,
        answer is None ==> renewed(graph.fire(now), device_id, answer, now).timers.len() == 0,
{
    lemma_least(due(graph.timers, now), graph.timers.len() as int);
}

/// The moment at which the renewal of a session that expires at `expires_at`
/// is asked for.
pub fn renewal_deadline(expires_at: u64) -> (deadline: u64)
    ensures
        deadline == renewal_time(expires_at),
{
    if expires_at >= SAFETY_MARGIN {
        expires_at - SAFETY_MARGIN
    } else {
        0
    }
}

/// The strategy for networked live sources that asks a credential service
/// for sessions.
pub struct CameraRtspInterpreterImpl<'a> {
    pub google_api: &'a dyn GoogleApiClient,
    pub registry: Registry,
}

/// Whether `result` is what the first session's `answer` leads to for
/// `device_id` at `now`: a refusal fails with `Credential`, a session is
/// taken up by a fresh graph.
pub open spec fn acquired(
    kinds: Seq<KindModel>,
    device_id: Text,
    answer: Result<RtspStreamInfo, CredentialError>,
    now: u64,
    result: Result<BinBuilder, GraphError>,
) -> bool {
    match answer {
        Err(_) => result matches Err(e) && e == GraphError::Credential,
        Ok(session) => if knows_stream_kinds(kinds) {
            result matches Ok(graph) && graph@ == started(kinds, device_id, session@, now)
        } else {
            result matches Err(e) && e == GraphError::Construction
        },
    }
}

impl<'a> CameraRtspInterpreterImpl<'a> {
    /// A strategy that asks `google_api` for sessions and builds graphs from
    /// the kinds in `registry`.
    pub fn new(google_api: &'a dyn GoogleApiClient, registry: Registry) -> (interpreter: Self)
        ensures
            interpreter == (CameraRtspInterpreterImpl { google_api, registry }),
    {
        CameraRtspInterpreterImpl { google_api, registry }
    }

    /// Builds the graph that streams from `device_id` under the first session,
    /// taken up at `now`. Fails with `Construction` where `registry` lacks the
    /// kind of the transport node or of the decoding stage.
    pub fn start_stream(registry: Registry, device_id: &str, session: RtspStreamInfo, now: u64) -> (result:
        Result<BinBuilder, GraphError>)
        ensures
            result is Ok <==> knows_stream_kinds(registry@),
            result matches Err(e) ==> e == GraphError::Construction,
            result matches Ok(graph) ==> graph@ == started(registry@, device_id@, session@, now)
                && graph@.wf(),
    {
        let name = String::from_str("RTSP Camera: ").concat(device_id);
        let mut graph = BinBuilder::new(name.as_str(), registry);
        let ghost g0 = graph@;
        proof {
            reveal_strlit("rtspsrc");
            reveal_strlit("decodebin");
            lemma_position_absent(node_names(g0.nodes), transport());
        }
        match graph.add_element("rtspsrc", "rtspsrc") {
            Err(e) => {
                return Err(e);
            },
            Ok(()) => {},
        }
        let ghost g1 = graph@;
        proof {
            assert(node_names(g1.nodes)[0] == transport());
            assert(transport().len() != decoder().len());
            lemma_position_absent(node_names(g1.nodes), decoder());
        }
        match graph.add_element("decodebin", "decodebin") {
            Err(e) => {
                return Err(e);
            },
            Ok(()) => {},
        }
        let ghost g2 = graph@;
        proof {
            assert(node_names(g2.nodes)[0] == transport());
            lemma_position_found(node_names(g2.nodes), transport(), 0);
        }
        let url = session.location();
        match graph.set_element_property("rtspsrc", "location", url.as_str()) {
            Err(e) => {
                return Err(e);
            },
            Ok(()) => {},
        }
        graph.on_pad_connected("rtspsrc", Reaction::Link { sink: String::from_str("decodebin") });
        Self::handle_rtsp_stream_extension(&mut graph, device_id, session, now);
        Ok(graph)
    }

    /// Arms the renewal of `rtsp_info` at `now`: the timer fires the safety
    /// margin before the session expires, and at once where that moment is not
    /// after `now`. Returns how long the graph waits; an inert graph arms
    /// nothing and returns `None`.
    pub fn handle_rtsp_stream_extension(
        pipeline_builder: &mut BinBuilder,
        device_id: &str,
        rtsp_info: RtspStreamInfo,
        now: u64,
    ) -> (delay: Option<u64>)
        requires
            old(pipeline_builder)@.wf(),
        ensures
            final(pipeline_builder)@ == armed(old(pipeline_builder)@, device_id@, rtsp_info@, now),
            delay is Some <==> !old(pipeline_builder)@.inert,
            delay matches Some(d) ==> d == fire_time(renewal_time(rtsp_info.expires_at), now) - now,
            final(pipeline_builder)@.wf(),
    {
        let callback_time = renewal_deadline(rtsp_info.expires_at);
        pipeline_builder.add_scheduled_callback(
            callback_time,
            now,
            Renewal { device_id: device_id.to_owned(), session: rtsp_info },
        )
    }

    /// Brings the transport node for `new_rtsp_info` into the graph: it is
    /// named after the session's renewal token and pointed at the session's
    /// location, and its first port takes the place of whatever feeds the
    /// decoding stage. Fails with `Construction`, and changes nothing, where the
    /// transport's kind is unknown or its name is taken.
    pub fn handle_rtsp_stream_switch(pipeline_builder: &mut BinBuilder, new_rtsp_info: &RtspStreamInfo) -> (result:
        Result<(), GraphError>)
        requires
            old(pipeline_builder)@.wf(),
        ensures
            result == outcome(switch_check(old(pipeline_builder)@, new_rtsp_info@)),
            result is Ok ==> final(pipeline_builder)@ == switched(
                old(pipeline_builder)@,
                new_rtsp_info@,
            ),
            result is Err ==> final(pipeline_builder)@ == old(pipeline_builder)@,
            final(pipeline_builder)@.wf(),
    {
        let new_url = new_rtsp_info.location();
        let new_rtspsrc_name = String::from_str("rtspsrc").concat(
            new_rtsp_info.stream_extension_token.as_str(),
        );
        match pipeline_builder.add_element("rtspsrc", new_rtspsrc_name.as_str()) {
            Err(e) => {
                return Err(e);
            },
            Ok(()) => {},
        }
        proof {
            let before = old(pipeline_builder)@;
            let names = node_names(pipeline_builder@.nodes);
            lemma_position(node_names(before.nodes), new_rtspsrc_name@);
            assert(names[before.nodes.len() as int] == new_rtspsrc_name@);
            assert forall|j: int| 0 <= j < before.nodes.len() implies names[j] != new_rtspsrc_name@ by {
                assert(names[j] == node_names(before.nodes)[j]);
            }
            lemma_position_found(names, new_rtspsrc_name@, before.nodes.len() as int);
        }
        match pipeline_builder.set_element_property(
            new_rtspsrc_name.as_str(),
            "location",
            new_url.as_str(),
        ) {
            Err(e) => {
                return Err(e);
            },
            Ok(()) => {},
        }
        pipeline_builder.on_pad_connected(
            new_rtspsrc_name.as_str(),
            Reaction::Swap { sink: String::from_str("decodebin") },
        );
        Ok(())
    }

    /// Applies the service's answer to the renewal that a fired timer stood
    /// for. A refusal changes nothing and ends the stream's renewals: the graph
    /// goes on with the session it has. A new session brings its transport node
    /// and arms the next renewal; where the graph cannot take the session up, it
    /// is torn down and the error returned. An inert graph is left as it is.
    pub fn apply_renewal(
        pipeline_builder: &mut BinBuilder,
        device_id: &str,
        answer: Result<RtspStreamInfo, CredentialError>,
        now: u64,
    ) -> (result: Result<StreamState, GraphError>)
        requires
            old(pipeline_builder)@.wf(),
        ensures
            final(pipeline_builder)@ == renewed(
                old(pipeline_builder)@,
                device_id@,
                granted(answer),
                now,
            ),
            result == renewal_result(old(pipeline_builder)@, granted(answer)),
            final(pipeline_builder)@.wf(),
    {
        let new_rtsp_info = match answer {
            Err(_) => {
                return Ok(StreamState::Failed);
            },
            Ok(session) => session,
        };
        if pipeline_builder.is_inert() {
            return Ok(StreamState::Failed);
        }
        match Self::handle_rtsp_stream_switch(pipeline_builder, &new_rtsp_info) {
            Err(e) => {
                pipeline_builder.failure(e);
                Err(e)
            },
            Ok(()) => {
                Self::handle_rtsp_stream_extension(pipeline_builder, device_id, new_rtsp_info, now);
                Ok(StreamState::Active)
            },
        }
    }

    /// Asks `google_api` for a first session for `device_id` and builds the
    /// graph that streams under it. Fails with `Credential` where the service
    /// refuses, and with `Construction` where `registry` lacks a kind.
    pub fn camera_rtsp_stream(&self, device_id: &str, now: u64) -> (result: Result<
        BinBuilder,
        GraphError,
    >)
        ensures
            exists|answer: Result<RtspStreamInfo, CredentialError>|
                self.google_api.may_generate(device_id@, answer) && #[trigger] acquired(
                    self.registry@,
                    device_id@,
                    answer,
                    now,
                    result,
                ),
            result matches Ok(graph) ==> graph@.wf(),
    {
        let answer = self.google_api.generate_rtsp_stream(device_id);
        let ghost heard = answer;
        let result = match answer {
            Err(_) => Err(GraphError::Credential),
            Ok(rtsp_info) => Self::start_stream(self.registry.clone(), device_id, rtsp_info, now),
        };
        assert(acquired(self.registry@, device_id@, heard, now, result));
        result
    }

    /// Fires the first timer that is due at `now`, asks `google_api` to
    /// extend the session it stands for, and applies the answer. Returns
    /// `None`, and changes nothing, where no timer is due.
    pub fn renew_stream(&self, pipeline_builder: &mut BinBuilder, now: u64) -> (result: Option<
        Result<StreamState, GraphError>,
    >)
        requires
            old(pipeline_builder)@.wf(),
        ensures
            result is None <==> old(pipeline_builder)@.due_timer(now) is None,
            result is None ==> final(pipeline_builder)@ == old(pipeline_builder)@,
            result matches Some(ended) ==> {
                let fired = old(pipeline_builder)@.timers[old(pipeline_builder)@.due_timer(
                    now,
                ).unwrap()].renewal;
                exists|answer: Result<RtspStreamInfo, CredentialError>|
                    self.google_api.may_extend(
                        fired.device_id,
                        fired.session.stream_extension_token,
                        answer,
                    ) && #[trigger] renewal_applied(
                        old(pipeline_builder)@.fire(now),
                        fired.device_id,
                        answer,
                        now,
                        final(pipeline_builder)@,
                        ended,
                    )
            },
            final(pipeline_builder)@.wf(),
    {
        let renewal = match pipeline_builder.take_due_timer(now) {
            None => {
                return None;
            },
            Some(renewal) => renewal,
        };
        let ghost fired = pipeline_builder@;
        let answer = self.google_api.extend_rtsp_stream(
            renewal.device_id.as_str(),
            renewal.session.stream_extension_token.clone(),
        );
        let ghost heard = answer;
        let ended = Self::apply_renewal(
            pipeline_builder,
            renewal.device_id.as_str(),
            answer,
            now,
        );
        proof {
            let due = old(pipeline_builder)@.timers[old(pipeline_builder)@.due_timer(
                now,
            ).unwrap()].renewal;
            assert(due == renewal@);
            assert(self.google_api.may_extend(
                due.device_id,
                due.session.stream_extension_token,
                heard,
            ));
            assert(renewal_applied(fired, due.device_id, heard, now, pipeline_builder@, ended));
        }
        Some(ended)
    }
}

/// Whether `after` and `ended` are what `answer` makes of `graph` when it
/// answers the renewal for `device_id` at `now`.
pub open spec fn renewal_applied(
    graph: GraphModel,
    device_id: Text,
    answer: Result<RtspStreamInfo, CredentialError>,
    now: u64,
    after: GraphModel,
    ended: Result<StreamState, GraphError>,
) -> bool {
    after == renewed(graph, device_id, granted(answer), now) && ended == renewal_result(
        graph,
        granted(answer),
    )
}

impl<'a> CameraRtspInterpreter for CameraRtspInterpreterImpl<'a> {
    open spec fn may_interpret(
        &self,
        device_id: Text,
        now: u64,
        result: Result<BinBuilder, GraphError>,
    ) -> bool {
        exists|answer: Result<RtspStreamInfo, CredentialError>|
            self.google_api.may_generate(device_id, answer) && #[trigger] acquired(
                self.registry@,
                device_id,
                answer,
                now,
                result,
            )
    }

    fn interpret(&self, device_id: &str, now: u64) -> (result: Result<BinBuilder, GraphError>) {
        self.camera_rtsp_stream(device_id, now)
    }
}

} // verus!

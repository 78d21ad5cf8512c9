//! The credential service that grants and extends stream sessions.

use crate::search::Text;
use vstd::prelude::*;
use vstd::string::StringExecFns;

verus! {

/// One grant of access to a remote stream. `expires_at` counts time units on
/// the clock that the graph's event loop uses.
#[derive(Debug)]
pub struct RtspStreamInfo {
    pub base_rtsp_url: String,
    pub stream_token: String,
    pub stream_extension_token: String,
    pub expires_at: u64,
}

/// What contracts say of a [`RtspStreamInfo`].
pub struct SessionModel {
    pub base_rtsp_url: Text,
    pub stream_token: Text,
    pub stream_extension_token: Text,
    pub expires_at: u64,
}

impl SessionModel {
    /// The location a transport node is pointed at: the base location with
    /// the access token as its `auth` parameter.
    pub open spec fn location(self) -> Text {
        self.base_rtsp_url + "?auth="@ + self.stream_token
    }
}

impl View for RtspStreamInfo {
    type V = SessionModel;

    open spec fn view(&self) -> SessionModel {
        SessionModel {
            base_rtsp_url: self.base_rtsp_url@,
            stream_token: self.stream_token@,
            stream_extension_token: self.stream_extension_token@,
            expires_at: self.expires_at,
        }
    }
}

impl Clone for RtspStreamInfo {
    fn clone(&self) -> (copy: Self)
        ensures
            copy@ == self@,
    {
        RtspStreamInfo {
            base_rtsp_url: self.base_rtsp_url.clone(),
            stream_token: self.stream_token.clone(),
            stream_extension_token: self.stream_extension_token.clone(),
            expires_at: self.expires_at,
        }
    }
}

impl RtspStreamInfo {
    /// The location a transport node for this session is pointed at.
    pub fn location(&self) -> (url: String)
        ensures
            url@ == self@.location(),
    {
        let url = self.base_rtsp_url.clone();
        let url = url.concat("?auth=");
        url.concat(self.stream_token.as_str())
    }

    /// The session that follows this one when the service answers an extend
    /// request with `response`: the location stays, the rest is replaced.
    pub fn extended(&self, response: &ExtendRtspStreamResponse) -> (next: Self)
        ensures
            next@ == (SessionModel {
                base_rtsp_url: self@.base_rtsp_url,
                stream_token: response@.stream_token,
                stream_extension_token: response@.stream_extension_token,
                expires_at: response@.expires_at,
            }),
    {
        RtspStreamInfo {
            base_rtsp_url: self.base_rtsp_url.clone(),
            stream_token: response.stream_token.clone(),
            stream_extension_token: response.stream_extension_token.clone(),
            expires_at: response.expires_at,
        }
    }
}

/// The part of a session that an extend request replaces.
#[derive(Debug)]
pub struct ExtendRtspStreamResponse {
    pub stream_token: String,
    pub expires_at: u64,
    pub stream_extension_token: String,
}

/// What contracts say of an [`ExtendRtspStreamResponse`].
pub struct ExtensionModel {
    pub stream_token: Text,
    pub expires_at: u64,
    pub stream_extension_token: Text,
}

impl View for ExtendRtspStreamResponse {
    type V = ExtensionModel;

    open spec fn view(&self) -> ExtensionModel {
        ExtensionModel {
            stream_token: self.stream_token@,
            expires_at: self.expires_at,
            stream_extension_token: self.stream_extension_token@,
        }
    }
}

/// The service's refusal to grant or extend a session.
#[derive(Debug)]
pub struct CredentialError {
    pub message: String,
}

/// The remote service that issues sessions. Implementations report refusals
/// as ordinary results.
pub trait GoogleApiClient: Sync + Send {
    /// Whether `outcome` is an answer this client may give to a request for a
    /// first session for `device_id`. A client that says nothing admits any.
    open spec fn may_generate(
        &self,
        device_id: Text,
        outcome: Result<RtspStreamInfo, CredentialError>,
    ) -> bool {
        true
    }

    /// Whether `outcome` is an answer this client may give to a request to
    /// extend the session of `device_id` that holds `stream_extension_token`.
    open spec fn may_extend(
        &self,
        device_id: Text,
        stream_extension_token: Text,
        outcome: Result<RtspStreamInfo, CredentialError>,
    ) -> bool {
        true
    }

    /// Requests a first session for `device_id`.
    fn generate_rtsp_stream(&self, device_id: &str) -> (outcome: Result<
        RtspStreamInfo,
        CredentialError,
    >)
        ensures
            self.may_generate(device_id@, outcome),
    ;

    /// Requests the session that follows the one holding
    /// `stream_extension_token`.
    fn extend_rtsp_stream(&self, device_id: &str, stream_extension_token: String) -> (outcome:
        Result<RtspStreamInfo, CredentialError>)
        ensures
            self.may_extend(device_id@, stream_extension_token@, outcome),
    ;
}

} // verus!

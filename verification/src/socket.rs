//! Why a WebSocket session ended, as the server logs it.

use vstd::prelude::*;

verus! {

/// How a socket session ended: the kind of ending, and the close frame's
/// code and reason when the client closed it.
pub struct SocketDisconnectInfo {
    pub kind: &'static str,
    pub close_code: Option<String>,
    pub close_reason: String,
}

impl SocketDisconnectInfo {
    fn ended(kind: &'static str) -> (r: Self)
        ensures
            r.kind == kind,
            r.close_code is None,
            r.close_reason@ == Seq::<char>::empty(),
    {
        SocketDisconnectInfo { kind, close_code: None, close_reason: String::new() }
    }

    /// The client's stream ended without a close frame.
    pub fn recv_closed() -> (r: Self)
        ensures
            r.kind@ == "recv_closed"@,
            r.close_code is None,
            r.close_reason@ == Seq::<char>::empty(),
    {
        Self::ended("recv_closed")
    }

    /// Reading from the client failed.
    pub fn recv_error() -> (r: Self)
        ensures
            r.kind@ == "recv_error"@,
            r.close_code is None,
            r.close_reason@ == Seq::<char>::empty(),
    {
        Self::ended("recv_error")
    }

    /// Sending to the client failed.
    pub fn send_failed() -> (r: Self)
        ensures
            r.kind@ == "send_failed"@,
            r.close_code is None,
            r.close_reason@ == Seq::<char>::empty(),
    {
        Self::ended("send_failed")
    }

    /// The server ended the session.
    pub fn server_closed() -> (r: Self)
        ensures
            r.kind@ == "server_closed"@,
            r.close_code is None,
            r.close_reason@ == Seq::<char>::empty(),
    {
        Self::ended("server_closed")
    }

    /// The client sent a close frame.
    pub fn client_close(close_code: Option<String>, close_reason: String) -> (r: Self)
        ensures
            r.kind@ == "client_close"@,
            r.close_code == close_code,
            r.close_reason == close_reason,
    {
        SocketDisconnectInfo { kind: "client_close", close_code, close_reason }
    }
}

} // verus!

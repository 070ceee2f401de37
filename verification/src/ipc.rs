//! Errors and records of the command-line client's conversation with the
//! desktop app over its local socket.
use vstd::prelude::*;
use crate::text::{contains_seq, str_contains};

verus! {

/// How a request to the desktop app failed. The variants tell whether the
/// app can have acted on the request, which decides whether falling back to a
/// local operation is safe.
#[derive(Debug, Clone)]
pub enum IpcError {
    /// No socket, or no connection: the app never saw the request. Falling
    /// back to a local operation is safe.
    SocketUnavailable(String),
    /// The app handled the request and answered with an error. No retry.
    RemoteError(String),
    /// Sending the request failed; the app has not handled it.
    RequestFailed(String),
    /// Receiving or parsing the answer failed; the app has most likely acted
    /// on the request, so it must not be repeated locally.
    ResponseFailed(String),
}

/// The message an error carries.
pub open spec fn ipc_message(e: IpcError) -> Seq<char> {
    match e {
        IpcError::SocketUnavailable(s) => s@,
        IpcError::RemoteError(s) => s@,
        IpcError::RequestFailed(s) => s@,
        IpcError::ResponseFailed(s) => s@,
    }
}

impl IpcError {
    /// Whether falling back to a local operation is safe: only when the
    /// socket was unavailable.
    pub fn is_socket_unavailable(&self) -> (b: bool)
        ensures
            b == (*self is SocketUnavailable),
    {
        match self {
            IpcError::SocketUnavailable(_) => true,
            _ => false,
        }
    }

    /// The error's message.
    pub fn to_string(&self) -> (s: String)
        ensures
            s@ == ipc_message(*self),
    {
        let m = match self {
            IpcError::SocketUnavailable(s) => s,
            IpcError::RemoteError(s) => s,
            IpcError::RequestFailed(s) => s,
            IpcError::ResponseFailed(s) => s,
        };
        m.clone()
    }

    /// Whether the message contains `needle`.
    pub fn contains(&self, needle: &str) -> (b: bool)
        ensures
            b == contains_seq(ipc_message(*self), needle@),
    {
        let m = match self {
            IpcError::SocketUnavailable(s) => s,
            IpcError::RemoteError(s) => s,
            IpcError::RequestFailed(s) => s,
            IpcError::ResponseFailed(s) => s,
        };
        str_contains(m.as_str(), needle)
    }
}

/// A slot as the desktop app lists it.
#[derive(Debug, Clone)]
pub struct SlotInfo {
    pub slot_id: u8,
    pub slot_type: String,
    pub label: String,
    pub last_used: Option<i64>,
    pub disabled: bool,
}

/// A key as the desktop app lists it.
#[derive(Debug, Clone)]
pub struct KeyInfo {
    pub key_id: String,
    pub name: String,
}

/// The command-line client of the desktop app. Its requests travel over the
/// app's local socket; what the client decides about the replies is below.
pub struct IpcClient;

/// Text of a failed reply: its error text, or `unknown error` when it has none.
pub open spec fn remote_error_text(error: Option<String>) -> Seq<char> {
    match error {
        Some(e) => e@,
        None => "unknown error"@,
    }
}

impl IpcClient {
    /// Outcome of a request from its reply's `success` flag and `error` text:
    /// a successful reply is `Ok`, a failed one is `RemoteError` with the
    /// reply's error text, `unknown error` when it has none.
    pub fn reply_outcome(success: bool, error: Option<String>) -> (res: Result<(), IpcError>)
        ensures
            success ==> res is Ok,
            !success ==> (res matches Err(IpcError::RemoteError(m)) && m@ == remote_error_text(
                error,
            )),
    {
        if success {
            Ok(())
        } else {
            match error {
                Some(e) => Err(IpcError::RemoteError(e)),
                None => {
                    proof {
                        reveal_strlit("unknown error");
                    }
                    Err(IpcError::RemoteError(String::from_str("unknown error")))
                },
            }
        }
    }

    /// The result a listing reply must carry: `ResponseFailed` with
    /// `no result in response` when it carries none.
    pub fn required_result<T>(result: Option<T>) -> (res: Result<T, IpcError>)
        ensures
            result matches Some(v) ==> res == Ok::<T, IpcError>(v),
            result is None ==> (res matches Err(IpcError::ResponseFailed(m)) && m@
                == "no result in response"@),
    {
        match result {
            Some(v) => Ok(v),
            None => {
                proof {
                    reveal_strlit("no result in response");
                }
                Err(IpcError::ResponseFailed(String::from_str("no result in response")))
            },
        }
    }

    /// The status text a `status` reply must carry: `ResponseFailed` with
    /// `no status result in response` when it carries no text.
    pub fn status_result(result: Option<String>) -> (res: Result<String, IpcError>)
        ensures
            result matches Some(v) ==> res == Ok::<String, IpcError>(v),
            result is None ==> (res matches Err(IpcError::ResponseFailed(m)) && m@
                == "no status result in response"@),
    {
        match result {
            Some(v) => Ok(v),
            None => {
                proof {
                    reveal_strlit("no status result in response");
                }
                Err(IpcError::ResponseFailed(String::from_str("no status result in response")))
            },
        }
    }
}

} // verus!

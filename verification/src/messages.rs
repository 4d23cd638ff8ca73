//! The messages shown for the library's errors.
use vstd::prelude::*;

use crate::admin_config::PolicyValidationError;
use crate::channels::{ChannelError, ChannelName};
use crate::desktop_io::DesktopIoError;
use crate::hand_eye::FileReadError;
use crate::event_loop::LoopError;
use crate::subchat::SubChatError;
use crate::text::{decimal, decimal_chars, push_chars, push_str, string_from_chars};

verus! {

/// The message for a configuration that fails validation.
pub open spec fn validation_message(e: PolicyValidationError) -> Seq<char> {
    match e {
        PolicyValidationError::UnsafeAllowlistValue { name } => "Unsafe allowlist value: wildcard '*' not permitted in path for '"@
            + name@ + "'"@,
        PolicyValidationError::CriticalSymbolReclassified { symbol } => "Critical symbol '"@ + symbol@
            + "' must not be classified as delegable"@,
        PolicyValidationError::CriticalSymbolAutoApprove { symbol, seconds } => "Critical symbol '"@
            + symbol@ + "' must never auto-approve; auto_approve_seconds must be 0 (got "@ + decimal(
            seconds as nat,
        ) + "s)"@,
        PolicyValidationError::DuplicateAllowlistEntry { name } => "Duplicate allowlist entry: '"@
            + name@ + "' appears more than once"@,
        PolicyValidationError::InvalidCriteriaRegex { category, error } => "Invalid criteria regex for category '"@
            + category@ + "': "@ + error@,
        PolicyValidationError::InvalidSocketPermissions { name, permissions } => "Socket permissions must be octal, got '"@
            + permissions@ + "'"@,
        PolicyValidationError::DuplicateSocket { name } => "Duplicate socket definition: '"@ + name@
            + "' appears more than once"@,
    }
}

impl PolicyValidationError {
    pub fn message(&self) -> (s: String)
        ensures
            s@ == validation_message(*self),
    {
        let mut out: Vec<char> = Vec::new();
        match self {
            PolicyValidationError::UnsafeAllowlistValue { name } => {
                push_str(&mut out, "Unsafe allowlist value: wildcard '*' not permitted in path for '");
                push_str(&mut out, name.as_str());
                push_str(&mut out, "'");
            },
            PolicyValidationError::CriticalSymbolReclassified { symbol } => {
                push_str(&mut out, "Critical symbol '");
                push_str(&mut out, symbol.as_str());
                push_str(&mut out, "' must not be classified as delegable");
            },
            PolicyValidationError::CriticalSymbolAutoApprove { symbol, seconds } => {
                push_str(&mut out, "Critical symbol '");
                push_str(&mut out, symbol.as_str());
                push_str(&mut out, "' must never auto-approve; auto_approve_seconds must be 0 (got ");
                let d = decimal_chars(*seconds);
                push_chars(&mut out, &d);
                push_str(&mut out, "s)");
            },
            PolicyValidationError::DuplicateAllowlistEntry { name } => {
                push_str(&mut out, "Duplicate allowlist entry: '");
                push_str(&mut out, name.as_str());
                push_str(&mut out, "' appears more than once");
            },
            PolicyValidationError::InvalidCriteriaRegex { category, error } => {
                push_str(&mut out, "Invalid criteria regex for category '");
                push_str(&mut out, category.as_str());
                push_str(&mut out, "': ");
                push_str(&mut out, error.as_str());
            },
            PolicyValidationError::InvalidSocketPermissions { permissions, .. } => {
                push_str(&mut out, "Socket permissions must be octal, got '");
                push_str(&mut out, permissions.as_str());
                push_str(&mut out, "'");
            },
            PolicyValidationError::DuplicateSocket { name } => {
                push_str(&mut out, "Duplicate socket definition: '");
                push_str(&mut out, name.as_str());
                push_str(&mut out, "' appears more than once");
            },
        }
        assert(out@ =~= validation_message(*self));
        string_from_chars(&out)
    }
}

/// The message for a branch that refuses a sub-chat.
pub open spec fn sub_chat_message(e: SubChatError) -> Seq<char> {
    match e {
        SubChatError::SubChatLimitExceeded { task_id } => "sub-chat limit exceeded for task "@
            + task_id@ + ": maximum of 3 sub-chats allowed"@,
        SubChatError::InvalidTaskId(id) => "invalid task id: "@ + id@,
        SubChatError::BranchUnavailable { branch } => "branch "@ + branch@ + " is not available"@,
        SubChatError::Orphan(m) => "orphan worker failed: "@ + m@,
    }
}

impl SubChatError {
    pub fn message(&self) -> (s: String)
        ensures
            s@ == sub_chat_message(*self),
    {
        let mut out: Vec<char> = Vec::new();
        match self {
            SubChatError::SubChatLimitExceeded { task_id } => {
                push_str(&mut out, "sub-chat limit exceeded for task ");
                push_str(&mut out, task_id.as_str());
                push_str(&mut out, ": maximum of 3 sub-chats allowed");
            },
            SubChatError::InvalidTaskId(id) => {
                push_str(&mut out, "invalid task id: ");
                push_str(&mut out, id.as_str());
            },
            SubChatError::BranchUnavailable { branch } => {
                push_str(&mut out, "branch ");
                push_str(&mut out, branch.as_str());
                push_str(&mut out, " is not available");
            },
            SubChatError::Orphan(m) => {
                push_str(&mut out, "orphan worker failed: ");
                push_str(&mut out, m.as_str());
            },
        }
        assert(out@ =~= sub_chat_message(*self));
        string_from_chars(&out)
    }
}

/// A channel's name as `Debug` prints it.
pub open spec fn channel_debug(c: ChannelName) -> Seq<char> {
    match c {
        ChannelName::PrivateA => "PrivateA"@,
        ChannelName::PrivateB => "PrivateB"@,
        ChannelName::PublicMaestro => "PublicMaestro"@,
    }
}

fn channel_debug_name(c: ChannelName) -> (r: &'static str)
    ensures
        r@ == channel_debug(c),
{
    match c {
        ChannelName::PrivateA => "PrivateA",
        ChannelName::PrivateB => "PrivateB",
        ChannelName::PublicMaestro => "PublicMaestro",
    }
}

/// The message for an event-loop error.
pub open spec fn loop_message(e: LoopError) -> Seq<char> {
    match e {
        LoopError::SubChat(s) => sub_chat_message(s),
        LoopError::NoBranch(c) => "no branch sub-chat is available for channel "@ + channel_debug(c),
        LoopError::UnsupportedMessage(c) => "unsupported message on channel "@ + channel_debug(c),
        LoopError::TaskNotFound(id) => "task not found: "@ + id@,
        LoopError::InvalidMessageType => "invalid message type for channel"@,
        LoopError::ExecutionError(m) => "execution error: "@ + m@,
    }
}

impl LoopError {
    pub fn message(&self) -> (s: String)
        ensures
            s@ == loop_message(*self),
    {
        let mut out: Vec<char> = Vec::new();
        match self {
            LoopError::SubChat(e) => {
                return e.message();
            },
            LoopError::NoBranch(c) => {
                push_str(&mut out, "no branch sub-chat is available for channel ");
                push_str(&mut out, channel_debug_name(*c));
            },
            LoopError::UnsupportedMessage(c) => {
                push_str(&mut out, "unsupported message on channel ");
                push_str(&mut out, channel_debug_name(*c));
            },
            LoopError::TaskNotFound(id) => {
                push_str(&mut out, "task not found: ");
                push_str(&mut out, id.as_str());
            },
            LoopError::InvalidMessageType => {
                push_str(&mut out, "invalid message type for channel");
            },
            LoopError::ExecutionError(m) => {
                push_str(&mut out, "execution error: ");
                push_str(&mut out, m.as_str());
            },
        }
        assert(out@ =~= loop_message(*self));
        string_from_chars(&out)
    }
}

/// The message for a channel error.
pub open spec fn channel_message(e: ChannelError) -> Seq<char> {
    match e {
        ChannelError::SocketBind { path, source } => "failed to bind socket at "@ + path@ + ": "@
            + source@,
        ChannelError::SocketAccept(m) => "failed to accept connection: "@ + m@,
        ChannelError::SocketIo(m) => "failed to read or write on the socket: "@ + m@,
        ChannelError::Json(m) => "failed to parse JSON payload: "@ + m@,
        ChannelError::PeerUidMismatch { expected, actual } => "socket was created for UID "@
            + decimal(expected as nat) + ", but peer UID was "@ + decimal(actual as nat),
        ChannelError::ForbiddenField { field } => "message payload contains a forbidden identity field: "@
            + field@,
        ChannelError::PathAccess(m) => "failed to access socket path: "@ + m@,
        ChannelError::Io(m) => "IO operation failed: "@ + m@,
        ChannelError::TokenGeneration(m) => "failed to generate secure token: "@ + m@,
        ChannelError::HandshakeMismatch => "secure token handshake failed: supplied token does not match the registered one for this channel"@,
        ChannelError::HandshakeWrite(m) => "failed to write secure token handshake: "@ + m@,
        ChannelError::HandshakeRead(m) => "failed to read secure token handshake: "@ + m@,
    }
}

impl ChannelError {
    pub fn message(&self) -> (s: String)
        ensures
            s@ == channel_message(*self),
    {
        let mut out: Vec<char> = Vec::new();
        match self {
            ChannelError::SocketBind { path, source } => {
                push_str(&mut out, "failed to bind socket at ");
                push_str(&mut out, path.as_str());
                push_str(&mut out, ": ");
                push_str(&mut out, source.as_str());
            },
            ChannelError::SocketAccept(m) => {
                push_str(&mut out, "failed to accept connection: ");
                push_str(&mut out, m.as_str());
            },
            ChannelError::SocketIo(m) => {
                push_str(&mut out, "failed to read or write on the socket: ");
                push_str(&mut out, m.as_str());
            },
            ChannelError::Json(m) => {
                push_str(&mut out, "failed to parse JSON payload: ");
                push_str(&mut out, m.as_str());
            },
            ChannelError::PeerUidMismatch { expected, actual } => {
                push_str(&mut out, "socket was created for UID ");
                let d = decimal_chars(*expected as u64);
                push_chars(&mut out, &d);
                push_str(&mut out, ", but peer UID was ");
                let d = decimal_chars(*actual as u64);
                push_chars(&mut out, &d);
            },
            ChannelError::ForbiddenField { field } => {
                push_str(&mut out, "message payload contains a forbidden identity field: ");
                push_str(&mut out, field);
            },
            ChannelError::PathAccess(m) => {
                push_str(&mut out, "failed to access socket path: ");
                push_str(&mut out, m.as_str());
            },
            ChannelError::Io(m) => {
                push_str(&mut out, "IO operation failed: ");
                push_str(&mut out, m.as_str());
            },
            ChannelError::TokenGeneration(m) => {
                push_str(&mut out, "failed to generate secure token: ");
                push_str(&mut out, m.as_str());
            },
            ChannelError::HandshakeMismatch => {
                push_str(
                    &mut out,
                    "secure token handshake failed: supplied token does not match the registered one for this channel",
                );
            },
            ChannelError::HandshakeWrite(m) => {
                push_str(&mut out, "failed to write secure token handshake: ");
                push_str(&mut out, m.as_str());
            },
            ChannelError::HandshakeRead(m) => {
                push_str(&mut out, "failed to read secure token handshake: ");
                push_str(&mut out, m.as_str());
            },
        }
        assert(out@ =~= channel_message(*self));
        string_from_chars(&out)
    }
}

/// The message for an error reading a chat store.
pub open spec fn desktop_io_message(e: DesktopIoError) -> Seq<char> {
    match e {
        DesktopIoError::UnconfinedPath(p) => "path is outside the allowed store: "@ + p@,
        DesktopIoError::Io(m) => "I/O error: "@ + m@,
        DesktopIoError::Parse(m) => "unable to parse store: "@ + m@,
        DesktopIoError::Decode(m) => "unable to decode record: "@ + m@,
    }
}

impl DesktopIoError {
    pub fn message(&self) -> (s: String)
        ensures
            s@ == desktop_io_message(*self),
    {
        let mut out: Vec<char> = Vec::new();
        match self {
            DesktopIoError::UnconfinedPath(p) => {
                push_str(&mut out, "path is outside the allowed store: ");
                push_str(&mut out, p.as_str());
            },
            DesktopIoError::Io(m) => {
                push_str(&mut out, "I/O error: ");
                push_str(&mut out, m.as_str());
            },
            DesktopIoError::Parse(m) => {
                push_str(&mut out, "unable to parse store: ");
                push_str(&mut out, m.as_str());
            },
            DesktopIoError::Decode(m) => {
                push_str(&mut out, "unable to decode record: ");
                push_str(&mut out, m.as_str());
            },
        }
        assert(out@ =~= desktop_io_message(*self));
        string_from_chars(&out)
    }
}

/// The message for a refused or failed file read.
pub open spec fn file_read_message(e: FileReadError) -> Seq<char> {
    match e {
        FileReadError::UnsupportedExtension => "file extension is not permitted for reading"@,
        FileReadError::Io(m) => "I/O error: "@ + m@,
    }
}

impl FileReadError {
    pub fn message(&self) -> (s: String)
        ensures
            s@ == file_read_message(*self),
    {
        let mut out: Vec<char> = Vec::new();
        match self {
            FileReadError::UnsupportedExtension => {
                push_str(&mut out, "file extension is not permitted for reading");
            },
            FileReadError::Io(m) => {
                push_str(&mut out, "I/O error: ");
                push_str(&mut out, m.as_str());
            },
        }
        assert(out@ =~= file_read_message(*self));
        string_from_chars(&out)
    }
}

} // verus!

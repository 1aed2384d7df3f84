use vstd::prelude::*;

verus! {

/// Why an edit of a tagged-field buffer was refused.
#[derive(Clone, Copy, Debug, PartialEq, Eq, Structural)]
pub enum EditError {
    /// The buffer ended inside a varint.
    TruncatedInput,
    /// Ten groups were read and the last still had its continuation bit set.
    MalformedVarint,
    /// A tag carried a wire type other than 0, 1, 2 or 5.
    UnsupportedWireType(u8),
    /// A tag, a length or a payload could not be read before the buffer's end.
    MalformedField,
}

/// Why a stored legacy state record could not be rewritten.
#[derive(Clone, Copy, Debug, PartialEq, Eq, Structural)]
pub enum LegacyEditError {
    /// The stored value is not standard base64 text.
    InvalidBase64,
    /// The decoded record could not be edited.
    Edit(EditError),
}

/// Why a step of the authorization-code capture failed.
#[derive(Clone, Copy, Debug, PartialEq, Eq, Structural)]
pub enum FlowError {
    /// No loopback listener could be bound.
    PortBindFailed,
    /// The result of the current attempt was already claimed by a waiter.
    FlowAlreadyInProgress,
    /// A state value differed from the session's CSRF token.
    StateMismatch,
    /// The attempt was cancelled before a code arrived.
    FlowCancelled,
    /// No code arrived before the deadline.
    FlowTimedOut,
    /// The delivery channel went away before a code arrived.
    ChannelClosed,
    /// A callback request carried no authorization code.
    MissingCode,
    /// There is no prepared attempt to wait for.
    NoActiveFlow,
}

} // verus!

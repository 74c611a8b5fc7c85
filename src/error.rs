use vstd::prelude::*;

verus! {

/// Why a received datagram or payload was refused.
#[derive(Debug, Clone, Copy, PartialEq, Eq, Structural)]
pub enum ResponseFault {
    /// Fewer bytes than the header needs.
    TooShort,
    /// The datagram does not start with `SAMP`.
    BadMagic,
    /// A string length prefix is larger than the largest datagram.
    LengthExceedsMax,
    /// The ping reply does not echo the nonce that was sent.
    PingMismatch,
}

/// Why a request could not be built from the caller's arguments.
#[derive(Debug, Clone, Copy, PartialEq, Eq, Structural)]
pub enum ArgumentFault {
    /// The RCON password is longer than 255 bytes.
    PasswordTooLong,
    /// The RCON command is longer than 1024 bytes.
    CommandTooLong,
}

/// Every way a query can fail. The operating-system failures carry the
/// system's own message.
#[derive(Debug, Clone)]
pub enum Error {
    /// A server address string could not be parsed.
    AddrParse(String),
    /// The server address is not IPv4, which the wire format cannot carry.
    UnsupportedAddress,
    /// An RCON password or command is too long.
    InvalidArgument(ArgumentFault),
    /// The local socket could not be bound.
    Bind(String),
    /// The socket could not be associated with the server.
    Connect(String),
    /// A datagram could not be sent.
    Send(String),
    /// Waiting for a datagram failed.
    Receive(String),
    /// Every attempt ended without a reply.
    Timeout,
    /// The server answered with something that is not a valid reply.
    InvalidResponse(ResponseFault),
    /// The payload ended before the structure it should hold.
    ShortRead,
    /// A string field is not valid UTF-8.
    InvalidUtf8,
    /// The server reported a failure of its own.
    ServerError(String),
    /// The server gave an empty reply to an RCON command.
    RconAuthFailed,
    /// A query kind was used where it cannot be.
    InvalidQueryType(String),
}

/// The description of each fault.
pub open spec fn reason_of(f: ResponseFault) -> Seq<char> {
    match f {
        ResponseFault::TooShort => "Response packet is too short"@,
        ResponseFault::BadMagic => "Invalid SAMP signature in response"@,
        ResponseFault::LengthExceedsMax => "String length exceeds maximum packet size"@,
        ResponseFault::PingMismatch => "Invalid ping response"@,
    }
}

impl ResponseFault {
    /// A short description of the fault.
    pub fn reason(&self) -> (r: &'static str)
        ensures
            r@ == reason_of(*self),
    {
        match self {
            ResponseFault::TooShort => "Response packet is too short",
            ResponseFault::BadMagic => "Invalid SAMP signature in response",
            ResponseFault::LengthExceedsMax => "String length exceeds maximum packet size",
            ResponseFault::PingMismatch => "Invalid ping response",
        }
    }
}

impl Error {
    /// Whether every attempt ran out of time.
    pub fn is_timeout(&self) -> (r: bool)
        ensures
            r <==> self is Timeout,
    {
        matches!(self, Error::Timeout)
    }

    /// Whether the server refused an RCON password.
    pub fn is_auth_error(&self) -> (r: bool)
        ensures
            r <==> self is RconAuthFailed,
    {
        matches!(self, Error::RconAuthFailed)
    }

    /// Whether the server reported a failure of its own.
    pub fn is_server_error(&self) -> (r: bool)
        ensures
            r <==> self is ServerError,
    {
        matches!(self, Error::ServerError(_))
    }
}

/// The HTTP status a gateway reports for each error.
pub open spec fn status_of(e: Error) -> u16 {
    match e {
        Error::AddrParse(_) => 400,
        Error::Timeout => 504,
        Error::Connect(_) => 502,
        Error::Bind(_) => 502,
        Error::RconAuthFailed => 401,
        _ => 500,
    }
}

/// The HTTP status that a gateway answers with when a query fails with `e`.
pub fn http_status(e: &Error) -> (r: u16)
    ensures
        r == status_of(*e),
{
    match e {
        Error::AddrParse(_) => 400,
        Error::Timeout => 504,
        Error::Connect(_) | Error::Bind(_) => 502,
        Error::RconAuthFailed => 401,
        _ => 500,
    }
}

/// The body a gateway sends back on failure.
pub struct ErrorResponse {
    /// What went wrong, for people.
    pub message: String,
    /// The HTTP status code, in decimal.
    pub code: String,
}

} // verus!

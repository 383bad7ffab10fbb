use vstd::prelude::*;

verus! {

/// What the library reads of a failed HTTP exchange: whether it timed out,
/// the status the server answered with, if any, and a description.
#[derive(Debug)]
pub struct RequestFailure {
    pub timeout: bool,
    pub status: Option<u16>,
    pub detail: String,
}

/// The library's error taxonomy.
#[derive(Debug)]
pub enum Error {
    /// The HTTP exchange itself failed (timeout, DNS, TCP, TLS, a body that
    /// did not parse).
    Request(RequestFailure),
    /// OpenSSL failed to hash or to draw random bytes.
    OpenSSL(openssl::error::ErrorStack),
    /// The accelerator runtime failed.
    OpenCL(String),
    /// A hex string did not decode.
    Hex(hex::FromHexError),
    /// A file could not be read or written.
    Io(String),
    /// The service rejected the coin (HTTP 400 with a `fail` detail).
    BadCoin(String),
    /// The service asked to retry later (HTTP 429 or 409).
    ServerBusy,
    /// Neither the direct client nor any proxy got a claim through.
    AllRequestsFailed(String),
    /// Any other failure, described.
    Msg(String),
}

/// Whether an error ends a claim at once rather than letting another path
/// try: a rejected coin, a failed exchange that neither timed out nor carried
/// 429 or 409, and anything that is not a busy server.
pub open spec fn is_fatal(e: &Error) -> bool {
    match e {
        Error::BadCoin(_) => true,
        Error::Request(f) => !f.timeout && match f.status {
            Some(c) => c != 429 && c != 409,
            None => true,
        },
        Error::ServerBusy => false,
        _ => true,
    }
}

impl Error {
    /// A described error.
    pub fn new(msg: String) -> (e: Error)
        ensures
            e == Error::Msg(msg),
    {
        Error::Msg(msg)
    }

    /// Maps an OpenSSL failure.
    pub fn from_openssl(e: openssl::error::ErrorStack) -> (r: Error)
        ensures
            r == Error::OpenSSL(e),
    {
        Error::OpenSSL(e)
    }

    /// Whether this error ends a claim at once.
    pub fn err_is_fatal(&self) -> (r: bool)
        ensures
            r == is_fatal(self),
    {
        match self {
            Error::BadCoin(_) => true,
            Error::Request(f) => {
                if f.timeout {
                    return false;
                }
                match f.status {
                    Some(c) => c != 429 && c != 409,
                    None => true,
                }
            },
            Error::ServerBusy => false,
            _ => true,
        }
    }

    /// A one-line description: the variant's name, then its detail.
    pub fn describe(&self) -> (s: String)
        ensures
            self matches Error::BadCoin(d) ==> s@ == "BadCoin: "@ + d@,
            self matches Error::Msg(d) ==> s@ == d@,
            self matches Error::AllRequestsFailed(d) ==> s@ == d@,
            self matches Error::Request(f) ==> s@ == "Request: "@ + f.detail@,
            self is ServerBusy ==> s@ == "ServerBusy"@,
    {
        match self {
            Error::Request(f) => {
                let mut s = String::from_str("Request: ");
                s.append(f.detail.as_str());
                s
            },
            Error::OpenSSL(_) => String::from_str("OpenSSL"),
            Error::OpenCL(d) => {
                let mut s = String::from_str("OpenCL: ");
                s.append(d.as_str());
                s
            },
            Error::Hex(_) => String::from_str("Hex"),
            Error::Io(d) => {
                let mut s = String::from_str("Io: ");
                s.append(d.as_str());
                s
            },
            Error::BadCoin(d) => {
                let mut s = String::from_str("BadCoin: ");
                s.append(d.as_str());
                s
            },
            Error::ServerBusy => String::from_str("ServerBusy"),
            Error::AllRequestsFailed(d) => d.clone(),
            Error::Msg(d) => d.clone(),
        }
    }
}

} // verus!

//! The responses owed to requests: file-read outcomes mapped to HTTP status,
//! content type, body, and log level.

use vstd::prelude::*;

verus! {

/// What came of trying to read a tile file, as the I/O layer reports it.
pub enum FileRead {
    /// The file was opened and read whole.
    Content(Vec<u8>),
    /// The file could not be opened: absent, or unopenable for any other
    /// reason — the two are deliberately not told apart.
    Unopenable,
    /// The file opened but the read broke off partway.
    ReadFailed,
}

/// The response owed to a tile request.
pub enum ResponseOutcome {
    /// Status 200: the file's raw bytes, served as a PNG image.
    Success(Vec<u8>),
    /// Status 404, empty body.
    NotFound,
    /// Status 500, empty body.
    InternalError,
}

/// How severely a request's outcome is logged.
#[derive(Clone, Copy, PartialEq, Eq, Structural, Debug)]
pub enum LogLevel {
    Info,
    Warn,
    Error,
}

/// The response owed for each result of the file read: the bytes on success,
/// 404 when the file would not open, 500 when the read broke off. No retry:
/// one failed read is terminal for its request.
pub open spec fn outcome_for(read: FileRead) -> ResponseOutcome {
    match read {
        FileRead::Content(bytes) => ResponseOutcome::Success(bytes),
        FileRead::Unopenable => ResponseOutcome::NotFound,
        FileRead::ReadFailed => ResponseOutcome::InternalError,
    }
}

impl ResponseOutcome {
    pub open spec fn spec_status(self) -> u16 {
        match self {
            ResponseOutcome::Success(_) => 200,
            ResponseOutcome::NotFound => 404,
            ResponseOutcome::InternalError => 500,
        }
    }

    /// The bytes sent to the client: the file's contents on success, nothing
    /// on either failure.
    pub open spec fn spec_body(self) -> Seq<u8> {
        match self {
            ResponseOutcome::Success(bytes) => bytes@,
            ResponseOutcome::NotFound => Seq::<u8>::empty(),
            ResponseOutcome::InternalError => Seq::<u8>::empty(),
        }
    }

    /// The level the outcome is logged at: info for a served tile, warn for a
    /// missing one, error for a broken read.
    pub open spec fn spec_log_level(self) -> LogLevel {
        match self {
            ResponseOutcome::Success(_) => LogLevel::Info,
            ResponseOutcome::NotFound => LogLevel::Warn,
            ResponseOutcome::InternalError => LogLevel::Error,
        }
    }

    pub fn status(&self) -> (s: u16)
        ensures
            s == self.spec_status(),
    {
        match self {
            ResponseOutcome::Success(_) => 200,
            ResponseOutcome::NotFound => 404,
            ResponseOutcome::InternalError => 500,
        }
    }

    /// The content type the response is sent with: a successful tile is a PNG
    /// image; an error response leaves the transport's default in place.
    pub fn content_type(&self) -> (t: Option<&'static str>)
        ensures
            self is Success <==> t is Some,
            t is Some ==> t->Some_0@ == "image/png"@,
    {
        match self {
            ResponseOutcome::Success(_) => Some("image/png"),
            ResponseOutcome::NotFound => None,
            ResponseOutcome::InternalError => None,
        }
    }

    pub fn log_level(&self) -> (l: LogLevel)
        ensures
            l == self.spec_log_level(),
    {
        match self {
            ResponseOutcome::Success(_) => LogLevel::Info,
            ResponseOutcome::NotFound => LogLevel::Warn,
            ResponseOutcome::InternalError => LogLevel::Error,
        }
    }

    /// Hands out the response body.
    pub fn into_body(self) -> (b: Vec<u8>)
        ensures
            b@ == self.spec_body(),
    {
        match self {
            ResponseOutcome::Success(bytes) => bytes,
            ResponseOutcome::NotFound => Vec::new(),
            ResponseOutcome::InternalError => Vec::new(),
        }
    }
}

/// Maps the result of a tile file read to the response it owes.
pub fn tile_outcome(read: FileRead) -> (o: ResponseOutcome)
    ensures
        o == outcome_for(read),
{
    match read {
        FileRead::Content(bytes) => ResponseOutcome::Success(bytes),
        FileRead::Unopenable => ResponseOutcome::NotFound,
        FileRead::ReadFailed => ResponseOutcome::InternalError,
    }
}

/// The landing route's response: always status 200 with the same fixed,
/// non-empty HTML body, whatever the configuration or the filesystem holds.
pub fn serve_root() -> (r: (u16, &'static str))
    ensures
        r.0 == 200,
        r.1@ == "<h1>map source</h1>"@,
        r.1@.len() > 0,
{
    proof {
        reveal_strlit("<h1>map source</h1>");
    }
    (200, "<h1>map source</h1>")
}

} // verus!

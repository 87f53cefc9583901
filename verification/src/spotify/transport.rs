use vstd::prelude::*;

verus! {

/// Why an operation against the service failed.
#[derive(Debug, Clone, PartialEq, Eq)]
pub enum ApiError {
    /// The request could not be sent, or no reply came. Holds the cause.
    Transport(String),
    /// The service replied with a status outside the success range. Holds
    /// the body of the reply.
    Api(String),
    /// The service replied with success, but the body was not of the
    /// expected shape. Holds the reason.
    Decode(String),
}

/// The verb of a request.
#[derive(Debug, Clone, Copy, PartialEq, Eq, Structural)]
pub enum Method {
    Get,
    Post,
}

/// A request for the caller to send: each carries exactly one header.
#[derive(Debug, Clone, PartialEq, Eq)]
pub struct Request {
    pub method: Method,
    pub url: String,
    pub header_name: String,
    pub header_value: String,
    pub body: String,
}

/// What a request says, as text.
pub struct RequestView {
    pub method: Method,
    pub url: Seq<char>,
    pub header_name: Seq<char>,
    pub header_value: Seq<char>,
    pub body: Seq<char>,
}

impl View for Request {
    type V = RequestView;

    open spec fn view(&self) -> RequestView {
        RequestView {
            method: self.method,
            url: self.url@,
            header_name: self.header_name@,
            header_value: self.header_value@,
            body: self.body@,
        }
    }
}

/// What became of a request. `T` is what the body of a reply is decoded to.
#[derive(Debug, PartialEq, Eq)]
pub enum Outcome<T> {
    /// The request could not be sent, or no reply came.
    NoResponse { reason: String },
    /// A reply came: its status code, its body as text, and what decoding the
    /// body gave, which is the reason where the body is not of the expected shape.
    Response { status: u16, text: String, parsed: Result<T, String> },
}

/// Whether `status` lies in the success range, 200 to 299.
pub open spec fn is_success(status: u16) -> bool {
    200 <= status < 300
}

/// What an outcome amounts to: the decoded body of a well-formed reply with a
/// success status, or the error that says what went wrong.
pub open spec fn classified<T>(outcome: Outcome<T>) -> Result<T, ApiError> {
    match outcome {
        Outcome::NoResponse { reason } => Err(ApiError::Transport(reason)),
        Outcome::Response { status, text, parsed } => if !is_success(status) {
            Err(ApiError::Api(text))
        } else {
            match parsed {
                Ok(value) => Ok(value),
                Err(reason) => Err(ApiError::Decode(reason)),
            }
        },
    }
}

/// Whether `status` lies in the success range.
pub fn status_is_success(status: u16) -> (success: bool)
    ensures
        success == is_success(status),
{
    200 <= status && status < 300
}

/// Sorts an outcome: no reply is a transport error with its cause; a status
/// outside the success range is an API error with the reply's body; a body
/// of the wrong shape is a decode error with the reason. Anything else is
/// the decoded body.
pub fn classify<T>(outcome: Outcome<T>) -> (sorted: Result<T, ApiError>)
    ensures
        sorted == classified(outcome),
{
    match outcome {
        Outcome::NoResponse { reason } => Err(ApiError::Transport(reason)),
        Outcome::Response { status, text, parsed } => {
            if !status_is_success(status) {
                Err(ApiError::Api(text))
            } else {
                match parsed {
                    Ok(value) => Ok(value),
                    Err(reason) => Err(ApiError::Decode(reason)),
                }
            }
        },
    }
}

impl ApiError {
    /// The text that the error carries.
    pub open spec fn text(&self) -> Seq<char> {
        match self {
            ApiError::Transport(text) => text@,
            ApiError::Api(text) => text@,
            ApiError::Decode(text) => text@,
        }
    }

    /// The text to show to the user: the body of the reply, or else the
    /// cause of the failure.
    pub fn message(&self) -> (message: String)
        ensures
            message@ == self.text(),
    {
        match self {
            ApiError::Transport(text) => text.clone(),
            ApiError::Api(text) => text.clone(),
            ApiError::Decode(text) => text.clone(),
        }
    }
}

} // verus!

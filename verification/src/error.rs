use vstd::prelude::*;

verus! {

/// The error reported by a builder when an input is rejected, or by a
/// decoder when a response cannot be read.
#[derive(Debug)]
#[allow(inconsistent_fields)]
pub enum Error {
    /// An input or a combination of inputs is not acceptable.
    InvalidConfig { message: String },
    /// The service answered with an S3 error document.
    Api { status: u16, code: Option<String>, message: Option<String>, request_id: Option<String> },
    /// A response body is not what the operation answers.
    Decode { message: String },
}

/// True when `e` is a configuration error whose message is `msg`.
pub open spec fn is_config_error(e: Error, msg: Seq<char>) -> bool {
    match e {
        Error::InvalidConfig { message } => message@ == msg,
        _ => false,
    }
}

/// True when `e` is a decode error whose message is `msg`.
pub open spec fn is_decode_error(e: Error, msg: Seq<char>) -> bool {
    match e {
        Error::Decode { message } => message@ == msg,
        _ => false,
    }
}

/// The text that describes an error: the message it carries, or for a
/// service error without a message its code, or nothing.
pub open spec fn error_text(e: Error) -> Seq<char> {
    match e {
        Error::InvalidConfig { message } => message@,
        Error::Decode { message } => message@,
        Error::Api { code, message, .. } => match message {
            Some(m) => m@,
            None => match code {
                Some(c) => c@,
                None => Seq::empty(),
            },
        },
    }
}

impl Error {
    /// Builds a configuration error carrying `message`.
    pub fn invalid_config(message: &str) -> (e: Error)
        ensures
            is_config_error(e, message@),
    {
        Error::InvalidConfig { message: String::from_str(message) }
    }

    /// Builds a decode error carrying `message`.
    pub fn decode(message: &str) -> (e: Error)
        ensures
            is_decode_error(e, message@),
    {
        Error::Decode { message: String::from_str(message) }
    }

    /// The error's text, as `error_text` says.
    pub fn message(&self) -> (m: &str)
        ensures
            m@ == error_text(*self),
    {
        match self {
            Error::InvalidConfig { message } => message.as_str(),
            Error::Decode { message } => message.as_str(),
            Error::Api { code, message, .. } => match message {
                Some(m) => m.as_str(),
                None => match code {
                    Some(c) => c.as_str(),
                    None => {
                        proof {
                            reveal_strlit("");
                        }
                        ""
                    },
                },
            },
        }
    }
}

} // verus!

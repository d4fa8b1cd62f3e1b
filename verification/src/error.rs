//! Errors of the trading core.
//!
//! [`MintError`] is the one error type that crosses the library's boundary. Most of its
//! variants carry an error of another crate, which the library holds without looking inside.

use kucoin_rs::failure::Error as ClientFailure;
use kucoin_rs::kucoin::error::APIError;
use vstd::prelude::*;
use vstd::std_specs::convert::FromSpec;

verus! {

/// `kucoin_rs::kucoin::error::APIError`, held as an opaque value.
#[verifier::external_type_specification]
#[verifier::external_body]
pub struct ExAPIError(APIError);

/// `failure::Error`, as `kucoin_rs` exports it, held as an opaque value.
#[verifier::external_type_specification]
#[verifier::external_body]
pub struct ExClientFailure(ClientFailure);

/// `serde_json::Error`, held as an opaque value.
#[verifier::external_type_specification]
#[verifier::external_body]
pub struct ExSerdeError(serde_json::Error);

/// `std::io::Error`, held as an opaque value.
#[verifier::external_type_specification]
#[verifier::external_body]
pub struct ExIoError(std::io::Error);

/// `std::num::ParseFloatError`, held as an opaque value.
#[verifier::external_type_specification]
#[verifier::external_body]
pub struct ExParseFloatError(std::num::ParseFloatError);

/// `std::num::ParseIntError`, held as an opaque value.
#[verifier::external_type_specification]
#[verifier::external_body]
pub struct ExParseIntError(std::num::ParseIntError);

/// `std::time::SystemTimeError`, held as an opaque value.
#[verifier::external_type_specification]
#[verifier::external_body]
pub struct ExSystemTimeError(std::time::SystemTimeError);

/// An error that is nothing but a message.
#[derive(Debug)]
pub struct MiscError {
    msg: String,
}

impl MiscError {
    /// The message, as a sequence of characters.
    pub closed spec fn text(&self) -> Seq<char> {
        self.msg@
    }

    /// Returns a copy of the message and leaves the error as it was.
    pub fn get_fmt_error(&mut self) -> (text: String)
        ensures
            text@ == old(self).text(),
            *final(self) == *old(self),
    {
        self.msg.clone()
    }
}

impl From<String> for MiscError {
    fn from(msg: String) -> (e: MiscError)
        ensures
            e.text() == msg@,
    {
        MiscError { msg }
    }
}

/// The error that is made of a message carries that message.
pub proof fn lemma_misc_error_keeps_message(msg: String)
    ensures
        <MiscError as FromSpec<String>>::from_spec(msg).text() == msg@,
{
}

impl vstd::std_specs::convert::FromSpecImpl<String> for MiscError {
    open spec fn obeys_from_spec() -> bool {
        true
    }

    closed spec fn from_spec(msg: String) -> MiscError {
        MiscError { msg }
    }
}

/// An error that the venue's API reported.
#[derive(Debug)]
pub struct KucoinApiError {
    e: APIError,
}

/// Renders an `APIError` as the `Display` text of the cause that it holds: each arm of the
/// match hands the variant's payload to `format!`. Nothing is claimed of the text.
#[verifier::external_body]
fn api_error_text(e: &APIError) -> (text: String) {
    match e {
        APIError::Serde(e) => format!("{}", e),
        APIError::Websocket(e) => format!("{}", e),
        APIError::HTTP(e) => format!("{}", e),
        APIError::Other(e) => format!("{}", e),
    }
}

impl KucoinApiError {
    /// The text of the underlying cause.
    pub fn to_string(&self) -> (text: String) {
        api_error_text(&self.e)
    }
}

impl From<APIError> for KucoinApiError {
    fn from(e: APIError) -> (r: KucoinApiError) {
        KucoinApiError { e }
    }
}

impl vstd::std_specs::convert::FromSpecImpl<APIError> for KucoinApiError {
    open spec fn obeys_from_spec() -> bool {
        true
    }

    closed spec fn from_spec(e: APIError) -> KucoinApiError {
        KucoinApiError { e }
    }
}

/// An error that the venue's client raised before or after the call.
#[derive(Debug)]
pub struct KucoinClientError {
    e: ClientFailure,
}

impl KucoinClientError {
    /// Whether `text` is what the failure that the error holds gives as its own text.
    pub closed spec fn shown_as(&self, text: String) -> bool {
        vstd::string::to_string_from_display_ensures::<ClientFailure>(&self.e, text)
    }

    /// The text of the underlying failure.
    pub fn to_string(&self) -> (text: String)
        ensures
            self.shown_as(text),
    {
        self.e.to_string()
    }
}

impl From<ClientFailure> for KucoinClientError {
    fn from(e: ClientFailure) -> (r: KucoinClientError) {
        KucoinClientError { e }
    }
}

impl vstd::std_specs::convert::FromSpecImpl<ClientFailure> for KucoinClientError {
    open spec fn obeys_from_spec() -> bool {
        true
    }

    closed spec fn from_spec(e: ClientFailure) -> KucoinClientError {
        KucoinClientError { e }
    }
}

/// The two ways in which a call of the venue's client fails.
pub enum KucoinErrorKind {
    Api(APIError),
    Client(ClientFailure),
}

impl From<APIError> for KucoinErrorKind {
    fn from(e: APIError) -> (r: KucoinErrorKind) {
        KucoinErrorKind::Api(e)
    }
}

impl vstd::std_specs::convert::FromSpecImpl<APIError> for KucoinErrorKind {
    open spec fn obeys_from_spec() -> bool {
        true
    }

    open spec fn from_spec(e: APIError) -> KucoinErrorKind {
        KucoinErrorKind::Api(e)
    }
}

impl From<ClientFailure> for KucoinErrorKind {
    fn from(e: ClientFailure) -> (r: KucoinErrorKind) {
        KucoinErrorKind::Client(e)
    }
}

impl vstd::std_specs::convert::FromSpecImpl<ClientFailure> for KucoinErrorKind {
    open spec fn obeys_from_spec() -> bool {
        true
    }

    open spec fn from_spec(e: ClientFailure) -> KucoinErrorKind {
        KucoinErrorKind::Client(e)
    }
}

/// Every failure that the trading core reports.
#[derive(Debug)]
pub enum MintError {
    Serde(serde_json::Error),
    IoError(std::io::Error),
    ParseFloatError(std::num::ParseFloatError),
    ParseIntError(std::num::ParseIntError),
    KucoinApiError(KucoinApiError),
    KucoinClientError(KucoinClientError),
    Other(MiscError),
    SystemTimeError(std::time::SystemTimeError),
}

impl MintError {
    /// An error that carries `msg` and nothing else.
    pub fn from_str(msg: String) -> (e: MintError)
        ensures
            e matches MintError::Other(m) && m.text() == msg@,
    {
        MintError::Other(MiscError::from(msg))
    }

    /// Files a failure of the venue's client under the variant of its kind.
    pub fn from_kucoin_err(e: KucoinErrorKind) -> (r: MintError)
        ensures
            r == (match e {
                KucoinErrorKind::Api(a) => MintError::KucoinApiError(
                    KucoinApiError::from_spec(a),
                ),
                KucoinErrorKind::Client(c) => MintError::KucoinClientError(
                    KucoinClientError::from_spec(c),
                ),
            }),
    {
        match e {
            KucoinErrorKind::Api(e) => MintError::KucoinApiError(KucoinApiError::from(e)),
            KucoinErrorKind::Client(e) => MintError::KucoinClientError(
                KucoinClientError::from(e),
            ),
        }
    }

    /// The text of the error, which for [`MintError::Other`] is the message it was made
    /// with. The error is left as it was.
    pub fn get_fmt_error(&mut self) -> (text: String)
        ensures
            *final(self) == *old(self),
            *old(self) matches MintError::Other(m) ==> text@ == m.text(),
    {
        match self {
            MintError::Serde(e) => e.to_string(),
            MintError::IoError(e) => e.to_string(),
            MintError::ParseFloatError(e) => e.to_string(),
            MintError::Other(e) => e.get_fmt_error(),
            MintError::ParseIntError(e) => e.to_string(),
            MintError::KucoinApiError(e) => e.to_string(),
            MintError::KucoinClientError(e) => e.to_string(),
            MintError::SystemTimeError(e) => e.to_string(),
        }
    }
}

} // verus!

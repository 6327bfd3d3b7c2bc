//! The failures that the library reports.
//!
//! The components report an [`ErrorKind`]; the manager hands its callers a
//! [`PushError`]. Both carry the same cases, and contracts speak of either
//! through one view, [`ErrorView`]. What a failure is shown as is
//! [`display_of`] its view, and [`PushError::message`] writes it.

use vstd::prelude::*;
use vstd::std_specs::convert::FromSpecImpl;
use vstd::string::*;

verus! {

/// What a failure is, with its message as a sequence of characters.
pub enum ErrorView {
    GeneralError(Seq<char>),
    CryptoError(Seq<char>),
    CommunicationError(Seq<char>),
    CommunicationServerError(Seq<char>),
    AlreadyRegisteredError,
    StorageError(Seq<char>),
    RecordNotFoundError(Seq<char>),
    StorageSqlError(Seq<char>),
    MissingRegistrationTokenError,
    TranscodingError(Seq<char>),
    UrlParseError(Seq<char>),
    JSONDeserializeError(Seq<char>),
    UAIDNotRecognizedError(Seq<char>),
    RequestError(Seq<char>),
    OpenDatabaseError(Seq<char>),
}

/// A failure as the components of the library report it.
#[derive(Debug, Clone, PartialEq, Eq)]
pub enum ErrorKind {
    /// An unspecified failure.
    GeneralError(String),
    /// A cryptographic operation failed.
    CryptoError(String),
    /// No answer came back from the server.
    CommunicationError(String),
    /// The server answered with a failure.
    CommunicationServerError(String),
    /// The channel is registered already.
    AlreadyRegisteredError,
    /// The record store failed.
    StorageError(String),
    /// No record is held for this channel.
    RecordNotFoundError(String),
    /// A statement against the record store failed.
    StorageSqlError(String),
    /// No registration token is known.
    MissingRegistrationTokenError,
    /// Data could not be brought into or out of its stored form.
    TranscodingError(String),
    /// A URL could not be read.
    UrlParseError(String),
    /// A JSON body could not be read.
    JSONDeserializeError(String),
    /// The server does not know the identity.
    UAIDNotRecognizedError(String),
    /// A request could not be sent.
    RequestError(String),
    /// The record store could not be opened.
    OpenDatabaseError(String),
}

/// A failure as the callers of the library see it.
#[derive(Debug, Clone, PartialEq, Eq)]
pub enum PushError {
    /// An unspecified failure.
    GeneralError(String),
    /// A cryptographic operation failed.
    CryptoError(String),
    /// No answer came back from the server.
    CommunicationError(String),
    /// The server answered with a failure.
    CommunicationServerError(String),
    /// The channel is registered already; choose another channel id.
    AlreadyRegisteredError,
    /// The record store failed.
    StorageError(String),
    /// No record is held for this channel.
    RecordNotFoundError(String),
    /// A statement against the record store failed.
    StorageSqlError(String),
    /// No registration token is known.
    MissingRegistrationTokenError,
    /// Data could not be brought into or out of its stored form.
    TranscodingError(String),
    /// A URL could not be read.
    UrlParseError(String),
    /// A JSON body could not be read.
    JSONDeserializeError(String),
    /// The server does not know the identity.
    UAIDNotRecognizedError(String),
    /// A request could not be sent.
    RequestError(String),
    /// The record store could not be opened.
    OpenDatabaseError(String),
}

impl View for ErrorKind {
    type V = ErrorView;

    open spec fn view(&self) -> ErrorView {
        match self {
            ErrorKind::GeneralError(m) => ErrorView::GeneralError(m@),
            ErrorKind::CryptoError(m) => ErrorView::CryptoError(m@),
            ErrorKind::CommunicationError(m) => ErrorView::CommunicationError(m@),
            ErrorKind::CommunicationServerError(m) => ErrorView::CommunicationServerError(m@),
            ErrorKind::AlreadyRegisteredError => ErrorView::AlreadyRegisteredError,
            ErrorKind::StorageError(m) => ErrorView::StorageError(m@),
            ErrorKind::RecordNotFoundError(m) => ErrorView::RecordNotFoundError(m@),
            ErrorKind::StorageSqlError(m) => ErrorView::StorageSqlError(m@),
            ErrorKind::MissingRegistrationTokenError => ErrorView::MissingRegistrationTokenError,
            ErrorKind::TranscodingError(m) => ErrorView::TranscodingError(m@),
            ErrorKind::UrlParseError(m) => ErrorView::UrlParseError(m@),
            ErrorKind::JSONDeserializeError(m) => ErrorView::JSONDeserializeError(m@),
            ErrorKind::UAIDNotRecognizedError(m) => ErrorView::UAIDNotRecognizedError(m@),
            ErrorKind::RequestError(m) => ErrorView::RequestError(m@),
            ErrorKind::OpenDatabaseError(m) => ErrorView::OpenDatabaseError(m@),
        }
    }
}

impl View for PushError {
    type V = ErrorView;

    open spec fn view(&self) -> ErrorView {
        match self {
            PushError::GeneralError(m) => ErrorView::GeneralError(m@),
            PushError::CryptoError(m) => ErrorView::CryptoError(m@),
            PushError::CommunicationError(m) => ErrorView::CommunicationError(m@),
            PushError::CommunicationServerError(m) => ErrorView::CommunicationServerError(m@),
            PushError::AlreadyRegisteredError => ErrorView::AlreadyRegisteredError,
            PushError::StorageError(m) => ErrorView::StorageError(m@),
            PushError::RecordNotFoundError(m) => ErrorView::RecordNotFoundError(m@),
            PushError::StorageSqlError(m) => ErrorView::StorageSqlError(m@),
            PushError::MissingRegistrationTokenError => ErrorView::MissingRegistrationTokenError,
            PushError::TranscodingError(m) => ErrorView::TranscodingError(m@),
            PushError::UrlParseError(m) => ErrorView::UrlParseError(m@),
            PushError::JSONDeserializeError(m) => ErrorView::JSONDeserializeError(m@),
            PushError::UAIDNotRecognizedError(m) => ErrorView::UAIDNotRecognizedError(m@),
            PushError::RequestError(m) => ErrorView::RequestError(m@),
            PushError::OpenDatabaseError(m) => ErrorView::OpenDatabaseError(m@),
        }
    }
}

impl From<ErrorKind> for PushError {
    /// The failure that callers see for a failure of a component: the same
    /// case with the same message.
    fn from(err: ErrorKind) -> (public: PushError) {
        match err {
            ErrorKind::GeneralError(message) => PushError::GeneralError(message),
            ErrorKind::CryptoError(message) => PushError::CryptoError(message),
            ErrorKind::CommunicationError(message) => PushError::CommunicationError(message),
            ErrorKind::CommunicationServerError(message) => PushError::CommunicationServerError(
                message,
            ),
            ErrorKind::AlreadyRegisteredError => PushError::AlreadyRegisteredError,
            ErrorKind::StorageError(message) => PushError::StorageError(message),
            ErrorKind::RecordNotFoundError(chid) => PushError::RecordNotFoundError(chid),
            ErrorKind::StorageSqlError(message) => PushError::StorageSqlError(message),
            ErrorKind::MissingRegistrationTokenError => PushError::MissingRegistrationTokenError,
            ErrorKind::TranscodingError(message) => PushError::TranscodingError(message),
            ErrorKind::UrlParseError(message) => PushError::UrlParseError(message),
            ErrorKind::JSONDeserializeError(message) => PushError::JSONDeserializeError(message),
            ErrorKind::UAIDNotRecognizedError(message) => PushError::UAIDNotRecognizedError(
                message,
            ),
            ErrorKind::RequestError(message) => PushError::RequestError(message),
            ErrorKind::OpenDatabaseError(message) => PushError::OpenDatabaseError(message),
        }
    }
}

impl FromSpecImpl<ErrorKind> for PushError {
    open spec fn obeys_from_spec() -> bool {
        true
    }

    open spec fn from_spec(err: ErrorKind) -> PushError {
        match err {
            ErrorKind::GeneralError(message) => PushError::GeneralError(message),
            ErrorKind::CryptoError(message) => PushError::CryptoError(message),
            ErrorKind::CommunicationError(message) => PushError::CommunicationError(message),
            ErrorKind::CommunicationServerError(message) => PushError::CommunicationServerError(
                message,
            ),
            ErrorKind::AlreadyRegisteredError => PushError::AlreadyRegisteredError,
            ErrorKind::StorageError(message) => PushError::StorageError(message),
            ErrorKind::RecordNotFoundError(chid) => PushError::RecordNotFoundError(chid),
            ErrorKind::StorageSqlError(message) => PushError::StorageSqlError(message),
            ErrorKind::MissingRegistrationTokenError => PushError::MissingRegistrationTokenError,
            ErrorKind::TranscodingError(message) => PushError::TranscodingError(message),
            ErrorKind::UrlParseError(message) => PushError::UrlParseError(message),
            ErrorKind::JSONDeserializeError(message) => PushError::JSONDeserializeError(message),
            ErrorKind::UAIDNotRecognizedError(message) => PushError::UAIDNotRecognizedError(
                message,
            ),
            ErrorKind::RequestError(message) => PushError::RequestError(message),
            ErrorKind::OpenDatabaseError(message) => PushError::OpenDatabaseError(message),
        }
    }
}

/// A text in the quoted form in which some failures show their message:
/// between double quotes, with the characters that cannot stand there as
/// they are written as escapes. The form is that of the standard library,
/// and [`quote`] gives it.
pub uninterp spec fn quoted(text: Seq<char>) -> Seq<char>;

/// The text that a failure is shown as: a fixed text for the two cases
/// without a message, and otherwise a text that names the case, followed
/// by the message, as it is or quoted.
pub open spec fn display_of(error: ErrorView) -> Seq<char> {
    match error {
        ErrorView::GeneralError(message) => "General Error: "@ + quoted(message),
        ErrorView::CryptoError(message) => "Crypto error: "@ + message,
        ErrorView::CommunicationError(message) => "Communication Error: "@ + quoted(message),
        ErrorView::CommunicationServerError(message) => "Communication Server Error: "@
            + message,
        ErrorView::AlreadyRegisteredError => "Channel already registered."@,
        ErrorView::StorageError(message) => "Storage Error: "@ + quoted(message),
        ErrorView::RecordNotFoundError(channel_id) => "No record for chid "@ + quoted(
            channel_id,
        ),
        ErrorView::StorageSqlError(message) => "Error executing SQL: "@ + message,
        ErrorView::MissingRegistrationTokenError => "Missing Registration Token"@,
        ErrorView::TranscodingError(message) => "Transcoding Error: "@ + message,
        ErrorView::UrlParseError(message) => "URL parse error: "@ + quoted(message),
        ErrorView::JSONDeserializeError(message) => "Failed to parse json: "@ + message,
        ErrorView::UAIDNotRecognizedError(message) => "Unrecognized UAID: "@ + message,
        ErrorView::RequestError(message) => "Unable to send request to server: "@ + message,
        ErrorView::OpenDatabaseError(message) => "Error opening database: "@ + message,
    }
}

/// The quoted form of a text. This is the standard library's `Debug`
/// formatting of a `str`, reached through `format!`. Believed of it, and
/// not proved: that the text it writes depends on the characters of `text`
/// alone, so that [`quoted`] can name it. Nothing is claimed of what that
/// text is.
#[verifier::external_body]
fn quote(text: &str) -> (quoted_text: String)
    ensures
        quoted_text@ == quoted(text@),
{
    format!("{:?}", text)
}

/// `head` followed by `tail`.
fn joined(head: &str, tail: &str) -> (text: String)
    ensures
        text@ == head@ + tail@,
{
    let mut text = head.to_owned();
    text.append(tail);
    text
}

impl PushError {
    /// The text that the failure is shown as.
    pub fn message(&self) -> (text: String)
        ensures
            text@ == display_of(self@),
    {
        match self {
            PushError::GeneralError(message) => {
                let shown = quote(message.as_str());
                joined("General Error: ", shown.as_str())
            },
            PushError::CryptoError(message) => joined("Crypto error: ", message.as_str()),
            PushError::CommunicationError(message) => {
                let shown = quote(message.as_str());
                joined("Communication Error: ", shown.as_str())
            },
            PushError::CommunicationServerError(message) => joined(
                "Communication Server Error: ",
                message.as_str(),
            ),
            PushError::AlreadyRegisteredError => "Channel already registered.".to_owned(),
            PushError::StorageError(message) => {
                let shown = quote(message.as_str());
                joined("Storage Error: ", shown.as_str())
            },
            PushError::RecordNotFoundError(channel_id) => {
                let shown = quote(channel_id.as_str());
                joined("No record for chid ", shown.as_str())
            },
            PushError::StorageSqlError(message) => joined(
                "Error executing SQL: ",
                message.as_str(),
            ),
            PushError::MissingRegistrationTokenError => "Missing Registration Token".to_owned(),
            PushError::TranscodingError(message) => joined(
                "Transcoding Error: ",
                message.as_str(),
            ),
            PushError::UrlParseError(message) => {
                let shown = quote(message.as_str());
                joined("URL parse error: ", shown.as_str())
            },
            PushError::JSONDeserializeError(message) => joined(
                "Failed to parse json: ",
                message.as_str(),
            ),
            PushError::UAIDNotRecognizedError(message) => joined(
                "Unrecognized UAID: ",
                message.as_str(),
            ),
            PushError::RequestError(message) => joined(
                "Unable to send request to server: ",
                message.as_str(),
            ),
            PushError::OpenDatabaseError(message) => joined(
                "Error opening database: ",
                message.as_str(),
            ),
        }
    }
}

/// What a component's result holds: the view of the value or of the
/// failure.
pub open spec fn outcome_view<T: View>(outcome: Result<T, ErrorKind>) -> Result<T::V, ErrorView> {
    match outcome {
        Ok(value) => Ok(value@),
        Err(error) => Err(error@),
    }
}

/// What a result of the manager holds: the view of the value or of the
/// failure.
pub open spec fn result_view<T: View>(result: Result<T, PushError>) -> Result<T::V, ErrorView> {
    match result {
        Ok(value) => Ok(value@),
        Err(error) => Err(error@),
    }
}

/// What callers see of a component's failure is that failure: the case and
/// the message are kept.
pub proof fn law_from_keeps_view(err: ErrorKind)
    ensures
        <PushError as vstd::std_specs::convert::FromSpec<ErrorKind>>::from_spec(err)@ == err@,
{
}

/// What callers are shown for a component's failure is the text of that
/// failure.
pub proof fn law_from_keeps_display(err: ErrorKind)
    ensures
        display_of(
            <PushError as vstd::std_specs::convert::FromSpec<ErrorKind>>::from_spec(err)@,
        ) == display_of(err@),
{
}

/// Hands a component's failure to the caller.
pub fn surface(err: ErrorKind) -> (public: PushError)
    ensures
        public@ == err@,
{
    PushError::from(err)
}

} // verus!

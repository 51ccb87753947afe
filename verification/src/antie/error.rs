//! What can go wrong in the gateway.
use vstd::prelude::*;

verus! {

/// An error of the gateway. Each kind carries what there is to say about it.
#[derive(Debug)]
pub enum AntieError {
    /// A mail directory failed.
    MaildirError(String),
    /// A mail could not be read.
    EmailParseError(String),
    /// A request lacks a field or has an ill-formed one.
    InvalidPayload(String),
    /// The validator's core failed.
    CoreError(String),
    /// The core rejected a transaction.
    ValidationFailed(String),
    /// The ledger service could not be reached or answered out of turn.
    LambdaError(String),
    /// Input or output failed.
    IoError(String),
    /// The configuration does not hold up.
    ConfigError(String),
    /// A value could not be written.
    SerializationError(String),
    /// The core has outlived its term and must be started afresh.
    CoreTTLExpired(String),
    /// A wallet asked again too soon.
    RateLimited(String),
    /// A wallet is on the ban list.
    WalletBanned(String),
}

/// The mathematical value of an [`AntieError`].
pub enum ErrorView {
    MaildirError(Seq<char>),
    EmailParseError(Seq<char>),
    InvalidPayload(Seq<char>),
    CoreError(Seq<char>),
    ValidationFailed(Seq<char>),
    LambdaError(Seq<char>),
    IoError(Seq<char>),
    ConfigError(Seq<char>),
    SerializationError(Seq<char>),
    CoreTTLExpired(Seq<char>),
    RateLimited(Seq<char>),
    WalletBanned(Seq<char>),
}

impl View for AntieError {
    type V = ErrorView;

    open spec fn view(&self) -> ErrorView {
        match *self {
            AntieError::MaildirError(s) => ErrorView::MaildirError(s@),
            AntieError::EmailParseError(s) => ErrorView::EmailParseError(s@),
            AntieError::InvalidPayload(s) => ErrorView::InvalidPayload(s@),
            AntieError::CoreError(s) => ErrorView::CoreError(s@),
            AntieError::ValidationFailed(s) => ErrorView::ValidationFailed(s@),
            AntieError::LambdaError(s) => ErrorView::LambdaError(s@),
            AntieError::IoError(s) => ErrorView::IoError(s@),
            AntieError::ConfigError(s) => ErrorView::ConfigError(s@),
            AntieError::SerializationError(s) => ErrorView::SerializationError(s@),
            AntieError::CoreTTLExpired(s) => ErrorView::CoreTTLExpired(s@),
            AntieError::RateLimited(s) => ErrorView::RateLimited(s@),
            AntieError::WalletBanned(s) => ErrorView::WalletBanned(s@),
        }
    }
}

impl ErrorView {
    /// How the error reads: its kind, then what it carries. The last two kinds
    /// speak for themselves.
    pub open spec fn text(self) -> Seq<char> {
        match self {
            ErrorView::MaildirError(s) => "Maildir error: "@ + s,
            ErrorView::EmailParseError(s) => "Email parse error: "@ + s,
            ErrorView::InvalidPayload(s) => "Invalid payload: "@ + s,
            ErrorView::CoreError(s) => "Core error: "@ + s,
            ErrorView::ValidationFailed(s) => "Validation failed: "@ + s,
            ErrorView::LambdaError(s) => "Lambda error: "@ + s,
            ErrorView::IoError(s) => "IO error: "@ + s,
            ErrorView::ConfigError(s) => "Config error: "@ + s,
            ErrorView::SerializationError(s) => "Serialization error: "@ + s,
            ErrorView::CoreTTLExpired(s) => "Core TTL expired: "@ + s,
            ErrorView::RateLimited(s) => s,
            ErrorView::WalletBanned(s) => s,
        }
    }
}

/// `label`, then `s`.
pub fn labelled(label: &str, s: &str) -> (r: String)
    ensures
        r@ == label@ + s@,
{
    let mut out = String::from_str(label);
    out.append(s);
    out
}

impl AntieError {
    /// How the error reads.
    pub fn to_text(&self) -> (r: String)
        ensures
            r@ == self@.text(),
    {
        match self {
            AntieError::MaildirError(s) => labelled("Maildir error: ", s.as_str()),
            AntieError::EmailParseError(s) => labelled("Email parse error: ", s.as_str()),
            AntieError::InvalidPayload(s) => labelled("Invalid payload: ", s.as_str()),
            AntieError::CoreError(s) => labelled("Core error: ", s.as_str()),
            AntieError::ValidationFailed(s) => labelled("Validation failed: ", s.as_str()),
            AntieError::LambdaError(s) => labelled("Lambda error: ", s.as_str()),
            AntieError::IoError(s) => labelled("IO error: ", s.as_str()),
            AntieError::ConfigError(s) => labelled("Config error: ", s.as_str()),
            AntieError::SerializationError(s) => labelled("Serialization error: ", s.as_str()),
            AntieError::CoreTTLExpired(s) => labelled("Core TTL expired: ", s.as_str()),
            AntieError::RateLimited(s) => s.clone(),
            AntieError::WalletBanned(s) => s.clone(),
        }
    }

    /// An unreadable mail, for the given reason.
    pub fn mail(s: &str) -> (r: AntieError)
        ensures
            r@ == ErrorView::EmailParseError(s@),
    {
        AntieError::EmailParseError(String::from_str(s))
    }

    /// An ill-formed request, for the given reason.
    pub fn payload(s: &str) -> (r: AntieError)
        ensures
            r@ == ErrorView::InvalidPayload(s@),
    {
        AntieError::InvalidPayload(String::from_str(s))
    }
}


/// The text of an error is a word on its kind and then what is said of it; where a wallet is
/// turned away, only what is said.
pub proof fn law_error_text_says_its_kind(s: Seq<char>)
    ensures
        ErrorView::MaildirError(s).text() == "Maildir error: "@ + s,
        ErrorView::EmailParseError(s).text() == "Email parse error: "@ + s,
        ErrorView::InvalidPayload(s).text() == "Invalid payload: "@ + s,
        ErrorView::CoreError(s).text() == "Core error: "@ + s,
        ErrorView::ValidationFailed(s).text() == "Validation failed: "@ + s,
        ErrorView::LambdaError(s).text() == "Lambda error: "@ + s,
        ErrorView::IoError(s).text() == "IO error: "@ + s,
        ErrorView::ConfigError(s).text() == "Config error: "@ + s,
        ErrorView::SerializationError(s).text() == "Serialization error: "@ + s,
        ErrorView::CoreTTLExpired(s).text() == "Core TTL expired: "@ + s,
        ErrorView::RateLimited(s).text() == s,
        ErrorView::WalletBanned(s).text() == s,
{
}

} // verus!

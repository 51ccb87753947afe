//! Errors in the structured form that remote callers get.
use vstd::prelude::*;
use crate::antie::error::{labelled, AntieError, ErrorView};
use crate::json;
use crate::json::{Json, JsonValue};

verus! {

/// Who is to act on an error.
#[derive(Debug, Clone, Copy, PartialEq, Eq, Structural)]
pub enum ErrorCategory {
    /// The caller sent something ill-formed.
    ClientBug,
    /// The protocol forbids it.
    ProtocolReject,
    /// Something around the gateway failed; trying again may help.
    Operational,
    /// The gateway itself failed.
    Internal,
}

impl ErrorCategory {
    /// The name of the category on the wire.
    pub open spec fn wire(self) -> Seq<char> {
        match self {
            ErrorCategory::ClientBug => "client_bug"@,
            ErrorCategory::ProtocolReject => "protocol_reject"@,
            ErrorCategory::Operational => "operational"@,
            ErrorCategory::Internal => "internal"@,
        }
    }

    /// The name of the category on the wire.
    pub fn wire_name(self) -> (r: String)
        ensures
            r@ == self.wire(),
    {
        match self {
            ErrorCategory::ClientBug => String::from_str("client_bug"),
            ErrorCategory::ProtocolReject => String::from_str("protocol_reject"),
            ErrorCategory::Operational => String::from_str("operational"),
            ErrorCategory::Internal => String::from_str("internal"),
        }
    }
}

/// A structured error.
pub struct ErrorResponse {
    pub code: String,
    pub category: ErrorCategory,
    pub message: String,
}

/// The version of the structured form.
pub const ERROR_FORMAT_VERSION: u64 = 1;

/// The code that stands for an error.
pub open spec fn code_of(e: ErrorView) -> Seq<char> {
    match e {
        ErrorView::MaildirError(_) => "E_ANTIE_MAILDIR_ERROR"@,
        ErrorView::EmailParseError(_) => "E_ANTIE_EMAIL_PARSE_ERROR"@,
        ErrorView::InvalidPayload(_) => "E_ANTIE_INVALID_PAYLOAD"@,
        ErrorView::CoreError(_) => "E_ANTIE_CORE_ERROR"@,
        ErrorView::ValidationFailed(_) => "E_ANTIE_VALIDATION_FAILED"@,
        ErrorView::LambdaError(_) => "E_ANTIE_LAMBDA_ERROR"@,
        ErrorView::IoError(_) => "E_ANTIE_IO_ERROR"@,
        ErrorView::ConfigError(_) => "E_ANTIE_CONFIG_ERROR"@,
        ErrorView::SerializationError(_) => "E_ANTIE_SERIALIZATION"@,
        ErrorView::CoreTTLExpired(_) => "E_ANTIE_CORE_TTL_EXPIRED"@,
        ErrorView::RateLimited(_) => "E_ANTIE_RATE_LIMITED"@,
        ErrorView::WalletBanned(_) => "E_ANTIE_WALLET_BANNED"@,
    }
}

/// The category of an error.
pub open spec fn category_of(e: ErrorView) -> ErrorCategory {
    match e {
        ErrorView::MaildirError(_) => ErrorCategory::Operational,
        ErrorView::EmailParseError(_) => ErrorCategory::ClientBug,
        ErrorView::InvalidPayload(_) => ErrorCategory::ClientBug,
        ErrorView::CoreError(_) => ErrorCategory::Internal,
        ErrorView::ValidationFailed(_) => ErrorCategory::ProtocolReject,
        ErrorView::LambdaError(_) => ErrorCategory::Operational,
        ErrorView::IoError(_) => ErrorCategory::Internal,
        ErrorView::ConfigError(_) => ErrorCategory::Internal,
        ErrorView::SerializationError(_) => ErrorCategory::ClientBug,
        ErrorView::CoreTTLExpired(_) => ErrorCategory::Operational,
        ErrorView::RateLimited(_) => ErrorCategory::Operational,
        ErrorView::WalletBanned(_) => ErrorCategory::ProtocolReject,
    }
}

/// What the structured form says of an error: how it reads, except that the
/// two services behind the gateway are named in full.
pub open spec fn message_of(e: ErrorView) -> Seq<char> {
    match e {
        ErrorView::CoreError(s) => "Core IPC error: "@ + s,
        ErrorView::LambdaError(s) => "Lambda communication error: "@ + s,
        _ => e.text(),
    }
}

impl ErrorResponse {
    /// The structured form of an error.
    pub fn from_error(err: &AntieError) -> (r: ErrorResponse)
        ensures
            r.code@ == code_of(err@),
            r.category == category_of(err@),
            r.message@ == message_of(err@),
    {
        let (code, category) = match err {
            AntieError::MaildirError(_) => ("E_ANTIE_MAILDIR_ERROR", ErrorCategory::Operational),
            AntieError::EmailParseError(_) => ("E_ANTIE_EMAIL_PARSE_ERROR", ErrorCategory::ClientBug),
            AntieError::InvalidPayload(_) => ("E_ANTIE_INVALID_PAYLOAD", ErrorCategory::ClientBug),
            AntieError::CoreError(_) => ("E_ANTIE_CORE_ERROR", ErrorCategory::Internal),
            AntieError::ValidationFailed(_) => (
                "E_ANTIE_VALIDATION_FAILED",
                ErrorCategory::ProtocolReject,
            ),
            AntieError::LambdaError(_) => ("E_ANTIE_LAMBDA_ERROR", ErrorCategory::Operational),
            AntieError::IoError(_) => ("E_ANTIE_IO_ERROR", ErrorCategory::Internal),
            AntieError::ConfigError(_) => ("E_ANTIE_CONFIG_ERROR", ErrorCategory::Internal),
            AntieError::SerializationError(_) => ("E_ANTIE_SERIALIZATION", ErrorCategory::ClientBug),
            AntieError::CoreTTLExpired(_) => ("E_ANTIE_CORE_TTL_EXPIRED", ErrorCategory::Operational),
            AntieError::RateLimited(_) => ("E_ANTIE_RATE_LIMITED", ErrorCategory::Operational),
            AntieError::WalletBanned(_) => ("E_ANTIE_WALLET_BANNED", ErrorCategory::ProtocolReject),
        };
        let message = match err {
            AntieError::CoreError(s) => labelled("Core IPC error: ", s.as_str()),
            AntieError::LambdaError(s) => labelled("Lambda communication error: ", s.as_str()),
            _ => err.to_text(),
        };
        ErrorResponse { code: String::from_str(code), category, message }
    }
}

/// The JSON form of an error for callers of either generation: the bare
/// message, and the structured form beside it.
pub open spec fn dual_format(code: Seq<char>, category: ErrorCategory, message: Seq<char>) -> Json {
    Json::Object(
        json::object_of(
            seq![
                ("error"@, Json::Str(message)),
                ("error_response"@, structured(code, category, message)),
            ],
        ),
    )
}

/// The JSON form of a structured error.
pub open spec fn structured(code: Seq<char>, category: ErrorCategory, message: Seq<char>) -> Json {
    Json::Object(
        json::object_of(
            seq![
                ("version"@, Json::PosInt(ERROR_FORMAT_VERSION)),
                ("code"@, Json::Str(code)),
                ("category"@, Json::Str(category.wire())),
                ("message"@, Json::Str(message)),
            ],
        ),
    )
}

/// The JSON text of an error for callers of either generation.
pub fn dual_format_error_body(code: &str, category: ErrorCategory, message: &str) -> (r: String)
    ensures
        r@ == json::json_text(dual_format(code@, category, message@)),
{
    let mut inner: Vec<(String, JsonValue)> = Vec::new();
    inner.push((String::from_str("version"), JsonValue::PosInt(ERROR_FORMAT_VERSION)));
    inner.push((String::from_str("code"), JsonValue::Str(String::from_str(code))));
    inner.push((String::from_str("category"), JsonValue::Str(category.wire_name())));
    inner.push((String::from_str("message"), JsonValue::Str(String::from_str(message))));
    let ghost in_view = json::entries_view(inner@);
    assert(in_view == seq![
        ("version"@, Json::PosInt(ERROR_FORMAT_VERSION)),
        ("code"@, Json::Str(code@)),
        ("category"@, Json::Str(category.wire())),
        ("message"@, Json::Str(message@)),
    ]);
    let resp = JsonValue::object(inner);
    let mut outer: Vec<(String, JsonValue)> = Vec::new();
    outer.push((String::from_str("error"), JsonValue::Str(String::from_str(message))));
    outer.push((String::from_str("error_response"), resp));
    let ghost out_view = json::entries_view(outer@);
    assert(out_view == seq![
        ("error"@, Json::Str(message@)),
        ("error_response"@, structured(code@, category, message@)),
    ]);
    let body = JsonValue::object(outer);
    proof {
        json::lemma_object_of_valid(in_view);
        json::lemma_object_of_valid(out_view);
    }
    body.to_text()
}


/// Each kind of error has a code of its own.
pub proof fn law_codes_tell_errors_apart(e: ErrorView)
    ensures
        code_of(e) == "E_ANTIE_MAILDIR_ERROR"@ <==> e is MaildirError,
        code_of(e) == "E_ANTIE_EMAIL_PARSE_ERROR"@ <==> e is EmailParseError,
        code_of(e) == "E_ANTIE_INVALID_PAYLOAD"@ <==> e is InvalidPayload,
        code_of(e) == "E_ANTIE_CORE_ERROR"@ <==> e is CoreError,
        code_of(e) == "E_ANTIE_VALIDATION_FAILED"@ <==> e is ValidationFailed,
        code_of(e) == "E_ANTIE_LAMBDA_ERROR"@ <==> e is LambdaError,
        code_of(e) == "E_ANTIE_IO_ERROR"@ <==> e is IoError,
        code_of(e) == "E_ANTIE_CONFIG_ERROR"@ <==> e is ConfigError,
        code_of(e) == "E_ANTIE_SERIALIZATION"@ <==> e is SerializationError,
        code_of(e) == "E_ANTIE_CORE_TTL_EXPIRED"@ <==> e is CoreTTLExpired,
        code_of(e) == "E_ANTIE_RATE_LIMITED"@ <==> e is RateLimited,
        code_of(e) == "E_ANTIE_WALLET_BANNED"@ <==> e is WalletBanned,
{
    reveal_strlit("E_ANTIE_MAILDIR_ERROR");
    reveal_strlit("E_ANTIE_EMAIL_PARSE_ERROR");
    reveal_strlit("E_ANTIE_INVALID_PAYLOAD");
    reveal_strlit("E_ANTIE_CORE_ERROR");
    reveal_strlit("E_ANTIE_VALIDATION_FAILED");
    reveal_strlit("E_ANTIE_LAMBDA_ERROR");
    reveal_strlit("E_ANTIE_IO_ERROR");
    reveal_strlit("E_ANTIE_CONFIG_ERROR");
    reveal_strlit("E_ANTIE_SERIALIZATION");
    reveal_strlit("E_ANTIE_CORE_TTL_EXPIRED");
    reveal_strlit("E_ANTIE_RATE_LIMITED");
    reveal_strlit("E_ANTIE_WALLET_BANNED");
    assert("E_ANTIE_MAILDIR_ERROR"@.len() == 21 && "E_ANTIE_MAILDIR_ERROR"@[8] == 'M');
    assert("E_ANTIE_EMAIL_PARSE_ERROR"@.len() == 25 && "E_ANTIE_EMAIL_PARSE_ERROR"@[8] == 'E');
    assert("E_ANTIE_INVALID_PAYLOAD"@.len() == 23);
    assert("E_ANTIE_CORE_ERROR"@.len() == 18);
    assert("E_ANTIE_VALIDATION_FAILED"@.len() == 25 && "E_ANTIE_VALIDATION_FAILED"@[8] == 'V');
    assert("E_ANTIE_LAMBDA_ERROR"@.len() == 20 && "E_ANTIE_LAMBDA_ERROR"@[8] == 'L');
    assert("E_ANTIE_IO_ERROR"@.len() == 16);
    assert("E_ANTIE_CONFIG_ERROR"@.len() == 20 && "E_ANTIE_CONFIG_ERROR"@[8] == 'C');
    assert("E_ANTIE_SERIALIZATION"@.len() == 21 && "E_ANTIE_SERIALIZATION"@[8] == 'S');
    assert("E_ANTIE_CORE_TTL_EXPIRED"@.len() == 24);
    assert("E_ANTIE_RATE_LIMITED"@.len() == 20 && "E_ANTIE_RATE_LIMITED"@[8] == 'R');
    assert("E_ANTIE_WALLET_BANNED"@.len() == 21 && "E_ANTIE_WALLET_BANNED"@[8] == 'W');
}

/// Who is to act on an error: the caller on what is ill-formed, nobody on what the protocol
/// forbids, the operator on what may pass, and the maintainer on the rest.
pub proof fn law_categories_share_the_errors(e: ErrorView)
    ensures
        category_of(e) == ErrorCategory::ClientBug <==> e is EmailParseError || e is InvalidPayload || e is SerializationError,
        category_of(e) == ErrorCategory::ProtocolReject <==> e is ValidationFailed || e is WalletBanned,
        category_of(e) == ErrorCategory::Internal <==> e is CoreError || e is IoError || e is ConfigError,
        category_of(e) == ErrorCategory::Operational <==> e is MaildirError || e is LambdaError || e is CoreTTLExpired || e is RateLimited,
{
}

/// What a caller is told is the text of the error, but for two kinds that say what was talked to.
pub proof fn law_message_is_the_text(e: ErrorView, s: Seq<char>)
    ensures
        !(e is CoreError) && !(e is LambdaError) ==> message_of(e) == e.text(),
        message_of(ErrorView::CoreError(s)) == "Core IPC error: "@ + s,
        message_of(ErrorView::LambdaError(s)) == "Lambda communication error: "@ + s,
{
}

/// The categories have different names.
pub proof fn law_categories_have_names(c: ErrorCategory)
    ensures
        c.wire() == "client_bug"@ <==> c == ErrorCategory::ClientBug,
        c.wire() == "protocol_reject"@ <==> c == ErrorCategory::ProtocolReject,
        c.wire() == "operational"@ <==> c == ErrorCategory::Operational,
        c.wire() == "internal"@ <==> c == ErrorCategory::Internal,
{
    reveal_strlit("client_bug");
    reveal_strlit("protocol_reject");
    reveal_strlit("operational");
    reveal_strlit("internal");
    assert("client_bug"@.len() == 10);
    assert("protocol_reject"@.len() == 15);
    assert("operational"@.len() == 11);
    assert("internal"@.len() == 8);
}

/// An error in its structured form holds its parts under their names.
pub proof fn law_structured_error_holds_its_parts(code: Seq<char>, category: ErrorCategory, message: Seq<char>)
    ensures
        structured(code, category, message) is Object,
        json::lookup(structured(code, category, message)->Object_0, "version"@) == Some(Json::PosInt(1)),
        json::lookup(structured(code, category, message)->Object_0, "code"@) == Some(Json::Str(code)),
        json::lookup(structured(code, category, message)->Object_0, "category"@) == Some(Json::Str(category.wire())),
        json::lookup(structured(code, category, message)->Object_0, "message"@) == Some(Json::Str(message)),
{
    let e: Seq<(Seq<char>, Json)> = seq![
        ("version"@, Json::PosInt(1)),
        ("code"@, Json::Str(code)),
        ("category"@, Json::Str(category.wire())),
        ("message"@, Json::Str(message)),
    ];
    reveal_strlit("version");
    reveal_strlit("code");
    reveal_strlit("category");
    reveal_strlit("message");
    assert("version"@.len() == 7 && "version"@[0] == 'v');
    assert("code"@.len() == 4);
    assert("category"@.len() == 8);
    assert("message"@.len() == 7 && "message"@[0] == 'm');
    assert(json::no_key_twice(e));
    json::law_object_holds_its_entries(e, 0);
    json::law_object_holds_its_entries(e, 1);
    json::law_object_holds_its_entries(e, 2);
    json::law_object_holds_its_entries(e, 3);
}

/// The body of an error says the message as plain text and the whole in structured form.
pub proof fn law_error_body_holds_both_forms(code: Seq<char>, category: ErrorCategory, message: Seq<char>)
    ensures
        dual_format(code, category, message) is Object,
        json::lookup(dual_format(code, category, message)->Object_0, "error"@) == Some(Json::Str(message)),
        json::lookup(dual_format(code, category, message)->Object_0, "error_response"@) == Some(structured(code, category, message)),
{
    let e: Seq<(Seq<char>, Json)> = seq![
        ("error"@, Json::Str(message)),
        ("error_response"@, structured(code, category, message)),
    ];
    reveal_strlit("error");
    reveal_strlit("error_response");
    assert("error"@.len() == 5);
    assert("error_response"@.len() == 14);
    assert(json::no_key_twice(e));
    json::law_object_holds_its_entries(e, 0);
    json::law_object_holds_its_entries(e, 1);
}

} // verus!

//! The error a request handler answers with: an HTTP status, a message for
//! the caller, and optionally a machine-readable code and a retry delay.
use vstd::prelude::*;
use vstd::string::*;

verus! {

/// Malformed or unsupported input, an oversized artifact, or an extraction
/// that failed or ran out of time: the caller may change the request and retry.
pub const STATUS_BAD_REQUEST: u16 = 400;

/// The anti-bot check rejected the request.
pub const STATUS_FORBIDDEN: u16 = 403;

/// The caller's daily quota is used up.
pub const STATUS_TOO_MANY_REQUESTS: u16 = 429;

/// I/O, persistence or a missing external tool.
pub const STATUS_INTERNAL_SERVER_ERROR: u16 = 500;

/// The number of admitted downloads per client in any 24 hours.
pub const DOWNLOAD_LIMIT_PER_DAY: usize = 10;

/// Machine-readable error categories.
#[derive(Clone, Copy, Debug, PartialEq, Eq, Structural)]
pub enum ErrorCode {
    DailyLimitExceeded,
    BotCheckFailed,
}

impl ErrorCode {
    pub open spec fn label_spec(self) -> Seq<char> {
        match self {
            ErrorCode::DailyLimitExceeded => "DAILY_LIMIT_EXCEEDED"@,
            ErrorCode::BotCheckFailed => "BOT_CHECK_FAILED"@,
        }
    }

    /// The code as it appears in an error body.
    pub fn label(&self) -> (s: &'static str)
        ensures
            s@ == self.label_spec(),
    {
        match self {
            ErrorCode::DailyLimitExceeded => "DAILY_LIMIT_EXCEEDED",
            ErrorCode::BotCheckFailed => "BOT_CHECK_FAILED",
        }
    }
}

#[derive(Debug)]
pub struct ApiError {
    pub status: u16,
    pub message: String,
    pub code: Option<ErrorCode>,
    pub retry_after_seconds: Option<u64>,
}

/// An `ApiError` as plain values.
pub struct ApiErrorView {
    pub status: u16,
    pub message: Seq<char>,
    pub code: Option<ErrorCode>,
    pub retry_after_seconds: Option<u64>,
}

impl View for ApiError {
    type V = ApiErrorView;

    open spec fn view(&self) -> ApiErrorView {
        ApiErrorView {
            status: self.status,
            message: self.message@,
            code: self.code,
            retry_after_seconds: self.retry_after_seconds,
        }
    }
}

pub open spec fn bad_request_view(message: Seq<char>) -> ApiErrorView {
    ApiErrorView { status: STATUS_BAD_REQUEST, message, code: None, retry_after_seconds: None }
}

pub open spec fn internal_view(message: Seq<char>) -> ApiErrorView {
    ApiErrorView {
        status: STATUS_INTERNAL_SERVER_ERROR,
        message,
        code: None,
        retry_after_seconds: None,
    }
}

pub open spec fn bot_check_failed_view(message: Seq<char>) -> ApiErrorView {
    ApiErrorView {
        status: STATUS_FORBIDDEN,
        message,
        code: Some(ErrorCode::BotCheckFailed),
        retry_after_seconds: None,
    }
}

pub open spec fn daily_limit_message() -> Seq<char> {
    "Has superado el limite de 10 descargas por IP en 24 horas."@
}

pub open spec fn daily_limit_exceeded_view(retry_after_seconds: u64) -> ApiErrorView {
    ApiErrorView {
        status: STATUS_TOO_MANY_REQUESTS,
        message: daily_limit_message(),
        code: Some(ErrorCode::DailyLimitExceeded),
        retry_after_seconds: Some(retry_after_seconds),
    }
}

impl ApiError {
    pub fn bad_request(message: &str) -> (e: ApiError)
        ensures
            e@ == bad_request_view(message@),
    {
        ApiError {
            status: STATUS_BAD_REQUEST,
            message: message.to_owned(),
            code: None,
            retry_after_seconds: None,
        }
    }

    pub fn internal(message: &str) -> (e: ApiError)
        ensures
            e@ == internal_view(message@),
    {
        ApiError {
            status: STATUS_INTERNAL_SERVER_ERROR,
            message: message.to_owned(),
            code: None,
            retry_after_seconds: None,
        }
    }

    /// An internal failure whose message is `context` followed by the
    /// detail reported by the operating system or a collaborator.
    pub fn internal_with_detail(context: &str, detail: &str) -> (e: ApiError)
        ensures
            e@ == internal_view(context@ + detail@),
    {
        let message = context.to_owned().concat(detail);
        ApiError {
            status: STATUS_INTERNAL_SERVER_ERROR,
            message,
            code: None,
            retry_after_seconds: None,
        }
    }

    pub fn daily_limit_exceeded(retry_after_seconds: u64) -> (e: ApiError)
        ensures
            e@ == daily_limit_exceeded_view(retry_after_seconds),
    {
        ApiError {
            status: STATUS_TOO_MANY_REQUESTS,
            message: "Has superado el limite de 10 descargas por IP en 24 horas.".to_owned(),
            code: Some(ErrorCode::DailyLimitExceeded),
            retry_after_seconds: Some(retry_after_seconds),
        }
    }

    pub fn bot_check_failed(message: &str) -> (e: ApiError)
        ensures
            e@ == bot_check_failed_view(message@),
    {
        ApiError {
            status: STATUS_FORBIDDEN,
            message: message.to_owned(),
            code: Some(ErrorCode::BotCheckFailed),
            retry_after_seconds: None,
        }
    }

    /// A copy of this error.
    pub fn duplicate(&self) -> (e: ApiError)
        ensures
            e == *self,
    {
        ApiError {
            status: self.status,
            message: self.message.clone(),
            code: self.code,
            retry_after_seconds: self.retry_after_seconds,
        }
    }

    /// The value of the `Retry-After` header, when the error carries one.
    pub fn retry_after_header(&self) -> (h: Option<String>)
        ensures
            h is Some == self.retry_after_seconds is Some,
            h is Some ==> h->0@ == crate::text::decimal_digits(
                self.retry_after_seconds->0 as nat,
            ),
    {
        match self.retry_after_seconds {
            Some(seconds) => Some(crate::text::decimal_string(seconds)),
            None => None,
        }
    }
}

} // verus!

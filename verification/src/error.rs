//! The one error type of the library.

use vstd::prelude::*;
use vstd::string::*;
use crate::text::{append_decimal, decimal};

verus! {

/// Why an operation of the library failed.
#[derive(Debug)]
pub enum AppError {
    /// An uncategorised failure, with its message.
    General(String),
    /// A failed operation, with its message and the text of the underlying cause.
    GenWithMsgAndErr(String, String),
    /// A failure that is answered with a response code, with its message.
    GenWithCodeAndMsg(u16, String),
    /// The operation would have had to wait: try again later.
    WouldBlock,
    /// An ASN.1 value whose tag the decoder has no rendering for.
    UnsupportedTag(u32),
    /// An ASN.1 value of a supported tag whose content could not be decoded.
    Conversion,
}

impl AppError {
    /// Whether this is a `General` error with the given message.
    pub open spec fn is_general(self, message: Seq<char>) -> bool {
        self matches AppError::General(m) && m@ == message
    }

    /// Whether this is a `GenWithMsgAndErr` error with the given message and cause.
    pub open spec fn is_caused(self, message: Seq<char>, cause: Seq<char>) -> bool {
        self matches AppError::GenWithMsgAndErr(m, c) && m@ == message && c@ == cause
    }

    /// Whether this is a `GenWithCodeAndMsg` error with the given code and message.
    pub open spec fn is_coded(self, code: u16, message: Seq<char>) -> bool {
        self matches AppError::GenWithCodeAndMsg(c, m) && c == code && m@ == message
    }

    /// The text that `to_string` renders.
    pub open spec fn text(self) -> Seq<char> {
        match self {
            AppError::General(m) => m@,
            AppError::GenWithMsgAndErr(m, c) => m@ + ": "@ + c@,
            AppError::GenWithCodeAndMsg(_, m) => m@,
            AppError::WouldBlock => "Operation would block"@,
            AppError::UnsupportedTag(tag) => "unsupported tag "@ + decimal(tag as nat),
            AppError::Conversion => "Failed ASN value conversion"@,
        }
    }

    /// A `General` error with the given message.
    pub fn general(message: &str) -> (err: AppError)
        ensures
            err.is_general(message@),
    {
        AppError::General(String::from_str(message))
    }

    /// A `General` error whose message is `prefix` followed by `detail`.
    pub fn general_with(prefix: &str, detail: &str) -> (err: AppError)
        ensures
            err.is_general(prefix@ + detail@),
    {
        let mut message = String::from_str(prefix);
        message.append(detail);
        AppError::General(message)
    }

    /// A `GenWithMsgAndErr` error with the given message and cause.
    pub fn caused(message: &str, cause: &str) -> (err: AppError)
        ensures
            err.is_caused(message@, cause@),
    {
        AppError::GenWithMsgAndErr(String::from_str(message), String::from_str(cause))
    }

    /// The error as one line of text.
    pub fn to_string(&self) -> (text: String)
        ensures
            text@ == self.text(),
    {
        match self {
            AppError::General(m) => m.clone(),
            AppError::GenWithMsgAndErr(m, c) => {
                let mut text = m.clone();
                text.append(": ");
                text.append(c.as_str());
                text
            },
            AppError::GenWithCodeAndMsg(_, m) => m.clone(),
            AppError::WouldBlock => String::from_str("Operation would block"),
            AppError::UnsupportedTag(tag) => {
                let mut text = String::from_str("unsupported tag ");
                append_decimal(&mut text, *tag as u64);
                text
            },
            AppError::Conversion => String::from_str("Failed ASN value conversion"),
        }
    }
}

impl Clone for AppError {
    fn clone(&self) -> (copy: AppError)
        ensures
            copy == *self,
    {
        match self {
            AppError::General(m) => AppError::General(m.clone()),
            AppError::GenWithMsgAndErr(m, c) => AppError::GenWithMsgAndErr(m.clone(), c.clone()),
            AppError::GenWithCodeAndMsg(code, m) => AppError::GenWithCodeAndMsg(*code, m.clone()),
            AppError::WouldBlock => AppError::WouldBlock,
            AppError::UnsupportedTag(tag) => AppError::UnsupportedTag(*tag),
            AppError::Conversion => AppError::Conversion,
        }
    }
}

} // verus!

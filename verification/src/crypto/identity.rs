//! The user that a client certificate names.

use vstd::prelude::*;
use vstd::string::*;
use crate::error::AppError;
use crate::gateway::config::RESPCODE_0420_INVALID_CLIENT_CERTIFICATE;
use crate::text::{all_digits, digit_value, digits_value, lemma_digits_value_prefix};

verus! {

/// The place of the first colon at or after `from`; the length of the
/// text when there is none.
pub open spec fn first_colon(text: Seq<char>, from: int) -> int
    decreases text.len() - from,
{
    if from < 0 || from >= text.len() {
        text.len() as int
    } else if text[from] == ':' {
        from
    } else {
        first_colon(text, from + 1)
    }
}

/// The user that a text of the form `{user_id}:{user_name}` names: the id
/// is what stands before the first colon, one or more decimal digits whose
/// value fits 64 bits; the name is all that follows the colon.
pub open spec fn identity_of(text: Seq<char>) -> Option<(u64, Seq<char>)> {
    let at = first_colon(text, 0);
    let digits = text.subrange(0, at);
    if at < text.len() && digits.len() > 0 && all_digits(digits) && digits_value(digits)
        <= u64::MAX {
        Some((digits_value(digits) as u64, text.subrange(at + 1, text.len() as int)))
    } else {
        None
    }
}

/// The text that names the user of a certificate: the URI of its subject
/// alternative name when it has one, else its common name.
pub open spec fn identity_text(uri: Option<Seq<char>>, common_name: Option<Seq<char>>) -> Option<
    Seq<char>,
> {
    match uri {
        Some(text) => Some(text),
        None => common_name,
    }
}

/// Whether `result` is the user that `named` stands for, or the error that
/// refuses the certificate when it stands for none.
pub open spec fn identified(
    named: Option<(u64, Seq<char>)>,
    result: Result<(u64, String), AppError>,
) -> bool {
    match named {
        Some((user_id, name)) => result matches Ok(user) && user.0 == user_id && user.1@ == name,
        None => result matches Err(err) && err.is_coded(
            420,
            "[E0420] Invalid client certificate"@,
        ),
    }
}

/// The error that refuses a certificate.
fn invalid_certificate() -> (err: AppError)
    ensures
        err.is_coded(420, "[E0420] Invalid client certificate"@),
{
    AppError::GenWithCodeAndMsg(
        RESPCODE_0420_INVALID_CLIENT_CERTIFICATE,
        String::from_str("[E0420] Invalid client certificate"),
    )
}

/// The value of a decimal digit character, if it is one.
fn digit_of(c: char) -> (d: Option<u8>)
    ensures
        match d {
            Some(v) => digit_value(c) == Some(v as nat),
            None => digit_value(c) is None,
        },
{
    if c == '0' {
        Some(0)
    } else if c == '1' {
        Some(1)
    } else if c == '2' {
        Some(2)
    } else if c == '3' {
        Some(3)
    } else if c == '4' {
        Some(4)
    } else if c == '5' {
        Some(5)
    } else if c == '6' {
        Some(6)
    } else if c == '7' {
        Some(7)
    } else if c == '8' {
        Some(8)
    } else if c == '9' {
        Some(9)
    } else {
        None
    }
}

/// Reads the user out of a text of the form `{user_id}:{user_name}`.
pub fn parse_identity(text: &str) -> (result: Result<(u64, String), AppError>)
    ensures
        identified(identity_of(text@), result),
{
    let len = text.unicode_len();
    let mut at: usize = 0;
    while at < len && text.get_char(at) != ':'
        invariant
            at <= len,
            len == text@.len(),
            first_colon(text@, 0) == first_colon(text@, at as int),
        decreases len - at,
    {
        at = at + 1;
    }
    assert(first_colon(text@, 0) == at);
    if at == len || at == 0 {
        return Err(invalid_certificate());
    }
    let ghost digits = text@.subrange(0, at as int);
    let mut acc: u64 = 0;
    let mut i: usize = 0;
    assert(digits.subrange(0, 0) =~= Seq::<char>::empty());
    while i < at
        invariant
            i <= at,
            0 < at < len,
            len == text@.len(),
            first_colon(text@, 0) == at,
            digits == text@.subrange(0, at as int),
            all_digits(digits.subrange(0, i as int)),
            acc == digits_value(digits.subrange(0, i as int)),
        decreases at - i,
    {
        let c = text.get_char(i);
        assert(digits[i as int] == c);
        let ghost next = digits.subrange(0, i + 1);
        proof {
            assert(next.drop_last() =~= digits.subrange(0, i as int));
            assert(next.last() == c);
        }
        match digit_of(c) {
            None => {
                assert(!all_digits(digits));
                return Err(invalid_certificate());
            },
            Some(d) => {
                let grown: u128 = (acc as u128) * 10 + (d as u128);
                assert(grown == digits_value(next));
                if grown > u64::MAX as u128 {
                    proof {
                        lemma_digits_value_prefix(digits, i + 1);
                    }
                    return Err(invalid_certificate());
                }
                assert forall|j: int| 0 <= j < next.len() implies (#[trigger] digit_value(
                    next[j],
                )) is Some by {
                    if j < next.len() - 1 {
                        assert(next[j] == digits.subrange(0, i as int)[j]);
                    }
                }
                acc = grown as u64;
            },
        }
        i = i + 1;
    }
    assert(digits.subrange(0, i as int) =~= digits);
    let name = text.substring_char(at + 1, len);
    Ok((acc, String::from_str(name)))
}

/// The user that a certificate names, given the URI of its subject
/// alternative name and its common name, as far as it has them: the URI is
/// read when there is one, else the common name. A certificate that has
/// neither, or whose text names no user, is refused.
pub fn identify(uri: Option<&str>, common_name: Option<&str>) -> (result: Result<
    (u64, String),
    AppError,
>)
    ensures
        identified(
            match identity_text(
                match uri {
                    Some(text) => Some(text@),
                    None => None,
                },
                match common_name {
                    Some(text) => Some(text@),
                    None => None,
                },
            ) {
                Some(text) => identity_of(text),
                None => None,
            },
            result,
        ),
{
    match uri {
        Some(text) => parse_identity(text),
        None => match common_name {
            Some(text) => parse_identity(text),
            None => Err(invalid_certificate()),
        },
    }
}

} // verus!

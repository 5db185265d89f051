//! Renders the value of an X.509 attribute as text.

use vstd::prelude::*;
use vstd::string::*;
use vstd::utf8::{encode_utf8, valid_utf8};
use oid_registry::{format_oid, Oid as DerOid, OidRegistry};
use x509_parser::der_parser::asn1_rs::{Any, Tag};
use crate::error::AppError;
use crate::text::{decimal, hex, hex_string, i64_to_string, signed_decimal, u64_to_string};
use crate::text::{lemma_decimal_nonempty, lemma_hex_len};

verus! {

pub const TAG_BOOLEAN: u32 = 1;

pub const TAG_INTEGER: u32 = 2;

pub const TAG_OCTET_STRING: u32 = 4;

pub const TAG_OID: u32 = 6;

pub const TAG_ENUMERATED: u32 = 10;

pub const TAG_UTF8_STRING: u32 = 12;

pub const TAG_RELATIVE_OID: u32 = 13;

pub const TAG_PRINTABLE_STRING: u32 = 19;

pub const TAG_IA5_STRING: u32 = 22;

pub const TAG_UTC_TIME: u32 = 23;

pub const TAG_GENERALIZED_TIME: u32 = 24;

pub const TAG_GENERAL_STRING: u32 = 27;

/// An ASN.1 value of the universal class: the number of its tag, whether
/// its encoding is constructed, and its content octets.
#[derive(Debug, PartialEq)]
pub struct AsnValue {
    pub tag: u32,
    pub constructed: bool,
    pub data: Vec<u8>,
}

/// Whether the decoder renders values with this tag.
pub open spec fn is_supported_tag(tag: u32) -> bool {
    tag == TAG_BOOLEAN || tag == TAG_INTEGER || tag == TAG_OCTET_STRING || tag == TAG_OID || tag
        == TAG_ENUMERATED || tag == TAG_UTF8_STRING || tag == TAG_RELATIVE_OID || tag
        == TAG_PRINTABLE_STRING || tag == TAG_IA5_STRING || tag == TAG_UTC_TIME || tag
        == TAG_GENERALIZED_TIME || tag == TAG_GENERAL_STRING
}

/// Whether every byte is an ASCII character.
pub open spec fn all_ascii(data: Seq<u8>) -> bool {
    forall|i: int| 0 <= i < data.len() ==> #[trigger] data[i] < 128
}

/// Whether a byte is a character of a PrintableString: a letter, a digit,
/// a space or one of `'()+,-./:=?`.
pub open spec fn is_printable(b: u8) -> bool {
    (97 <= b <= 122) || (65 <= b <= 90) || (48 <= b <= 57) || b == 32 || b == 39 || b == 40 || b
        == 41 || b == 43 || b == 44 || b == 45 || b == 46 || b == 47 || b == 58 || b == 61 || b
        == 63
}

/// Whether every byte is a character of a PrintableString.
pub open spec fn all_printable(data: Seq<u8>) -> bool {
    forall|i: int| 0 <= i < data.len() ==> is_printable(#[trigger] data[i])
}

/// The number that octets stand for when the first counts most.
pub open spec fn big_endian(data: Seq<u8>) -> nat
    decreases data.len(),
{
    if data.len() == 0 {
        0
    } else {
        big_endian(data.drop_last()) * 256 + data.last() as nat
    }
}

/// The number that the content octets of an ENUMERATED value stand for:
/// their value when the first counts most, if it fits 32 bits.
pub open spec fn asn1_enumerated(data: Seq<u8>) -> Option<u32> {
    if big_endian(data) <= u32::MAX {
        Some(big_endian(data) as u32)
    } else {
        None
    }
}

/// 256 to the power of `n`.
pub open spec fn pow256(n: nat) -> nat
    decreases n,
{
    if n == 0 {
        1
    } else {
        256 * pow256((n - 1) as nat)
    }
}

/// The number that the content octets of an INTEGER value stand for. Octets
/// whose first bit is set stand for a negative number in two's complement,
/// which is taken from at most eight octets. Other octets stand for their
/// value when the first counts most, which is taken when it fits 63 bits.
pub open spec fn asn1_integer(data: Seq<u8>) -> Option<i64> {
    if data.len() > 0 && data[0] >= 128 {
        if data.len() <= 8 {
            Some((big_endian(data) - pow256(data.len())) as i64)
        } else {
            None
        }
    } else if big_endian(data) <= i64::MAX {
        Some(big_endian(data) as i64)
    } else {
        None
    }
}

/// The text of the GeneralizedTime that the content octets stand for, if
/// the outside decoder takes them for one.
pub uninterp spec fn asn1_generalized_time(data: Seq<u8>) -> Option<Seq<char>>;

/// The text of the UTCTime that the content octets stand for, if the
/// outside decoder takes them for one.
pub uninterp spec fn asn1_utc_time(data: Seq<u8>) -> Option<Seq<char>>;

/// The text of the object identifier that the content octets stand for.
pub uninterp spec fn asn1_oid_text(data: Seq<u8>) -> Seq<char>;

/// An optional text as an optional sequence of characters.
pub open spec fn text_view(text: Option<String>) -> Option<Seq<char>> {
    match text {
        Some(t) => Some(t@),
        None => None,
    }
}

/// Calls `Any::bool` on a BOOLEAN with the given content. The crate takes
/// content of exactly one octet, and reads any octet but zero as true.
#[verifier::external_body]
fn any_bool(data: &[u8]) -> (value: Option<bool>)
    ensures
        value == (if data@.len() == 1 {
            Some(data@[0] != 0)
        } else {
            None
        }),
{
    Any::from_tag_and_data(Tag::Boolean, data).bool().ok()
}

/// Calls `Any::enumerated` on a primitive ENUMERATED with the given
/// content. The crate reads the octets as one number, the first counting
/// most, and takes it when it fits 32 bits.
#[verifier::external_body]
fn any_enumerated(data: &[u8]) -> (value: Option<u32>)
    ensures
        value == asn1_enumerated(data@),
{
    Any::from_tag_and_data(Tag::Enumerated, data).enumerated().map(|v| v.0).ok()
}

/// Calls `Any::generalizedtime` on a GeneralizedTime with the given content
/// and renders the result with the crate's `Display`. The contract names
/// what the crate returns; its rendering always holds the digits of year,
/// month, day, hour, minute and second, so it is never empty.
#[verifier::external_body]
fn any_generalizedtime(data: &[u8]) -> (text: Option<String>)
    ensures
        text_view(text) == asn1_generalized_time(data@),
        text matches Some(t) ==> t@.len() > 0,
{
    Any::from_tag_and_data(Tag::GeneralizedTime, data).generalizedtime().map(|v| v.to_string()).ok()
}

/// Calls `Any::generalstring` on a GeneralString with the given content.
/// The crate takes content that is all ASCII, and hands it out as text.
#[verifier::external_body]
fn any_generalstring(data: &[u8]) -> (text: Option<String>)
    ensures
        text is Some <==> all_ascii(data@),
        text matches Some(t) ==> encode_utf8(t@) == data@,
{
    Any::from_tag_and_data(Tag::GeneralString, data).generalstring().map(|v| v.string()).ok()
}

/// Calls `Any::ia5string` on an IA5String with the given content. The crate
/// takes content that is all ASCII, and hands it out as text.
#[verifier::external_body]
fn any_ia5string(data: &[u8]) -> (text: Option<String>)
    ensures
        text is Some <==> all_ascii(data@),
        text matches Some(t) ==> encode_utf8(t@) == data@,
{
    Any::from_tag_and_data(Tag::Ia5String, data).ia5string().map(|v| v.string()).ok()
}

/// Calls `Any::integer` on an INTEGER with the given content, and
/// `Integer::as_i64` on the result. The crate sign-extends content whose
/// first bit is set, if it has at most eight octets; it strips leading zero
/// octets from other content and takes what is left if it has at most
/// eight octets and a value of at most `i64::MAX`.
#[verifier::external_body]
fn any_integer(data: &[u8]) -> (value: Option<i64>)
    ensures
        value == asn1_integer(data@),
{
    Any::from_tag_and_data(Tag::Integer, data).integer().and_then(|v| v.as_i64()).ok()
}

/// Calls `Any::octetstring` on an OCTET STRING with the given content. The
/// crate hands the content out as it is.
#[verifier::external_body]
fn any_octetstring(data: &[u8]) -> (octets: Option<Vec<u8>>)
    ensures
        octets is Some,
        octets matches Some(o) ==> o@ == data@,
{
    Any::from_tag_and_data(Tag::OctetString, data).octetstring().map(|v| v.as_ref().to_vec()).ok()
}

/// Calls `Any::oid` on a value with the given tag and content. The crate
/// takes any content for an object identifier, whatever the tag, and
/// `Oid::as_bytes` hands the content out as it is.
#[verifier::external_body]
fn any_oid(tag: u32, data: &[u8]) -> (octets: Option<Vec<u8>>)
    ensures
        octets is Some,
        octets matches Some(o) ==> o@ == data@,
{
    Any::from_tag_and_data(Tag(tag), data).oid().map(|v| v.as_bytes().to_vec()).ok()
}

/// Calls `oid_registry::format_oid` on the object identifier with the given
/// content and an empty registry. The contract names what the crate
/// returns; with content its rendering holds at least the first arc, so it
/// is not empty.
#[verifier::external_body]
fn format_oid_text(octets: &[u8]) -> (text: String)
    ensures
        text@ == asn1_oid_text(octets@),
        octets@.len() > 0 ==> text@.len() > 0,
{
    format_oid(&DerOid::new(octets.into()), &OidRegistry::default())
}

/// Calls `Any::printablestring` on a PrintableString with the given
/// content. The crate takes content made of the characters of a
/// PrintableString, and hands it out as text.
#[verifier::external_body]
fn any_printablestring(data: &[u8]) -> (text: Option<String>)
    ensures
        text is Some <==> all_printable(data@),
        text matches Some(t) ==> encode_utf8(t@) == data@,
{
    Any::from_tag_and_data(Tag::PrintableString, data).printablestring().map(|v| v.string()).ok()
}

/// Calls `Any::utctime` on a UTCTime with the given content and renders the
/// result with the crate's `Display`. The contract names what the crate
/// returns; its rendering always holds the digits of year, month, day,
/// hour, minute and second, so it is never empty.
#[verifier::external_body]
fn any_utctime(data: &[u8]) -> (text: Option<String>)
    ensures
        text_view(text) == asn1_utc_time(data@),
        text matches Some(t) ==> t@.len() > 0,
{
    Any::from_tag_and_data(Tag::UtcTime, data).utctime().map(|v| v.to_string()).ok()
}

/// Calls `Any::utf8string` on a UTF8String with the given content. The
/// crate takes content that is valid UTF-8, and hands it out as text.
#[verifier::external_body]
fn any_utf8string(data: &[u8]) -> (text: Option<String>)
    ensures
        text is Some <==> valid_utf8(data@),
        text matches Some(t) ==> encode_utf8(t@) == data@,
{
    Any::from_tag_and_data(Tag::Utf8String, data).utf8string().map(|v| v.string()).ok()
}

/// The text of a truth value.
pub open spec fn bool_text(value: bool) -> Seq<char> {
    if value {
        "true"@
    } else {
        "false"@
    }
}

/// Whether the content of a value with a supported tag can be decoded.
pub open spec fn convertible(tag: u32, constructed: bool, data: Seq<u8>) -> bool {
    if tag == TAG_BOOLEAN {
        data.len() == 1
    } else if tag == TAG_ENUMERATED {
        !constructed && asn1_enumerated(data) is Some
    } else if tag == TAG_GENERALIZED_TIME {
        asn1_generalized_time(data) is Some
    } else if tag == TAG_GENERAL_STRING || tag == TAG_IA5_STRING {
        all_ascii(data)
    } else if tag == TAG_INTEGER {
        asn1_integer(data) is Some
    } else if tag == TAG_PRINTABLE_STRING {
        all_printable(data)
    } else if tag == TAG_UTC_TIME {
        asn1_utc_time(data) is Some
    } else if tag == TAG_UTF8_STRING {
        valid_utf8(data)
    } else {
        true
    }
}

/// Whether `text` renders the value with the given supported tag and
/// content, which can be decoded.
pub open spec fn rendered(tag: u32, data: Seq<u8>, text: Seq<char>) -> bool {
    if tag == TAG_BOOLEAN {
        text == bool_text(data[0] != 0)
    } else if tag == TAG_ENUMERATED {
        text == decimal(asn1_enumerated(data)->0 as nat)
    } else if tag == TAG_GENERALIZED_TIME {
        Some(text) == asn1_generalized_time(data) && text.len() > 0
    } else if tag == TAG_INTEGER {
        text == signed_decimal(asn1_integer(data)->0 as int)
    } else if tag == TAG_OCTET_STRING {
        text == hex(data)
    } else if tag == TAG_OID || tag == TAG_RELATIVE_OID {
        text == asn1_oid_text(data) && (data.len() > 0 ==> text.len() > 0)
    } else if tag == TAG_UTC_TIME {
        Some(text) == asn1_utc_time(data) && text.len() > 0
    } else {
        encode_utf8(text) == data
    }
}

/// What `stringify_asn_value` answers for a value: its rendering when the
/// tag is supported and the content can be decoded, else the error that
/// says which of the two failed.
pub open spec fn stringified(
    tag: u32,
    constructed: bool,
    data: Seq<u8>,
    result: Result<String, AppError>,
) -> bool {
    match result {
        Ok(text) => is_supported_tag(tag) && convertible(tag, constructed, data) && rendered(
            tag,
            data,
            text@,
        ),
        Err(err) => if is_supported_tag(tag) {
            !convertible(tag, constructed, data) && err == AppError::Conversion
        } else {
            err == AppError::UnsupportedTag(tag)
        },
    }
}

/// The text of a decoded truth value; a failure when there is none.
pub fn stringify_bool(decoded: Option<bool>) -> (result: Result<String, AppError>)
    ensures
        match decoded {
            Some(value) => result matches Ok(text) && text@ == bool_text(value),
            None => result == Err::<String, AppError>(AppError::Conversion),
        },
{
    match decoded {
        Some(true) => Ok(String::from_str("true")),
        Some(false) => Ok(String::from_str("false")),
        None => Err(AppError::Conversion),
    }
}

/// The text of a decoded ENUMERATED; a failure when there is none.
pub fn stringify_enumerated(decoded: Option<u32>) -> (result: Result<String, AppError>)
    ensures
        match decoded {
            Some(value) => result matches Ok(text) && text@ == decimal(value as nat),
            None => result == Err::<String, AppError>(AppError::Conversion),
        },
{
    match decoded {
        Some(value) => Ok(u64_to_string(value as u64)),
        None => Err(AppError::Conversion),
    }
}

/// The text of a decoded INTEGER; a failure when there is none.
pub fn stringify_integer(decoded: Option<i64>) -> (result: Result<String, AppError>)
    ensures
        match decoded {
            Some(value) => result matches Ok(text) && text@ == signed_decimal(value as int),
            None => result == Err::<String, AppError>(AppError::Conversion),
        },
{
    match decoded {
        Some(value) => Ok(i64_to_string(value)),
        None => Err(AppError::Conversion),
    }
}

/// The decoded text; a failure when there is none.
pub fn stringify_text(decoded: Option<String>) -> (result: Result<String, AppError>)
    ensures
        match decoded {
            Some(value) => result == Ok::<String, AppError>(value),
            None => result == Err::<String, AppError>(AppError::Conversion),
        },
{
    match decoded {
        Some(value) => Ok(value),
        None => Err(AppError::Conversion),
    }
}

/// The decoded octets in hex; a failure when there are none.
pub fn stringify_octets(decoded: Option<Vec<u8>>) -> (result: Result<String, AppError>)
    ensures
        match decoded {
            Some(octets) => result matches Ok(text) && text@ == hex(octets@),
            None => result == Err::<String, AppError>(AppError::Conversion),
        },
{
    match decoded {
        Some(octets) => Ok(hex_string(octets.as_slice())),
        None => Err(AppError::Conversion),
    }
}

/// The text of decoded object identifier octets; a failure when there are none.
pub fn stringify_oid(decoded: Option<Vec<u8>>) -> (result: Result<String, AppError>)
    ensures
        match decoded {
            Some(octets) => result matches Ok(text) && text@ == asn1_oid_text(octets@) && (
            octets@.len() > 0 ==> text@.len() > 0),
            None => result == Err::<String, AppError>(AppError::Conversion),
        },
{
    match decoded {
        Some(octets) => Ok(format_oid_text(octets.as_slice())),
        None => Err(AppError::Conversion),
    }
}

/// Renders an ASN.1 value as text: a BOOLEAN as `true` or `false`; an
/// ENUMERATED or INTEGER in decimal; an OCTET STRING in lower-case hex; an
/// OBJECT IDENTIFIER or RELATIVE-OID as the outside registry formats it; a
/// time as the outside decoder renders it; a GeneralString, IA5String,
/// PrintableString or UTF8String as its characters. A value with any other
/// tag is not supported; content that cannot be decoded is a conversion
/// failure.
pub fn stringify_asn_value(asn_attr: &AsnValue) -> (result: Result<String, AppError>)
    ensures
        stringified(asn_attr.tag, asn_attr.constructed, asn_attr.data@, result),
{
    let tag = asn_attr.tag;
    let data = asn_attr.data.as_slice();
    if tag == TAG_BOOLEAN {
        stringify_bool(any_bool(data))
    } else if tag == TAG_ENUMERATED {
        if asn_attr.constructed {
            Err(AppError::Conversion)
        } else {
            stringify_enumerated(any_enumerated(data))
        }
    } else if tag == TAG_GENERALIZED_TIME {
        stringify_text(any_generalizedtime(data))
    } else if tag == TAG_GENERAL_STRING {
        stringify_text(any_generalstring(data))
    } else if tag == TAG_IA5_STRING {
        stringify_text(any_ia5string(data))
    } else if tag == TAG_INTEGER {
        stringify_integer(any_integer(data))
    } else if tag == TAG_OCTET_STRING {
        stringify_octets(any_octetstring(data))
    } else if tag == TAG_OID || tag == TAG_RELATIVE_OID {
        stringify_oid(any_oid(tag, data))
    } else if tag == TAG_PRINTABLE_STRING {
        stringify_text(any_printablestring(data))
    } else if tag == TAG_UTC_TIME {
        stringify_text(any_utctime(data))
    } else if tag == TAG_UTF8_STRING {
        stringify_text(any_utf8string(data))
    } else {
        Err(AppError::UnsupportedTag(tag))
    }
}

/// The decoder answers for every value: with `UnsupportedTag` exactly when
/// the tag is not supported, and else with a text or a conversion failure.
/// The text is not empty when the value is a BOOLEAN, an ENUMERATED, an
/// INTEGER or a time, and when it is a string, an OCTET STRING or an object
/// identifier with content.
pub proof fn lemma_stringified(
    tag: u32,
    constructed: bool,
    data: Seq<u8>,
    result: Result<String, AppError>,
)
    requires
        stringified(tag, constructed, data, result),
    ensures
        !is_supported_tag(tag) <==> result == Err::<String, AppError>(
            AppError::UnsupportedTag(tag),
        ),
        is_supported_tag(tag) ==> (result is Ok <==> convertible(tag, constructed, data)),
        result matches Ok(text) ==> (tag == TAG_BOOLEAN || tag == TAG_ENUMERATED || tag
            == TAG_INTEGER || tag == TAG_UTC_TIME || tag == TAG_GENERALIZED_TIME || data.len()
            > 0) ==> text@.len() > 0,
{
    reveal_strlit("true");
    reveal_strlit("false");
    if let Ok(text) = result {
        if tag == TAG_ENUMERATED {
            lemma_decimal_nonempty(asn1_enumerated(data)->0 as nat);
        } else if tag == TAG_INTEGER {
            let v = asn1_integer(data)->0 as int;
            if v < 0 {
                lemma_decimal_nonempty((-v) as nat);
            } else {
                lemma_decimal_nonempty(v as nat);
            }
        } else if tag == TAG_OCTET_STRING {
            lemma_hex_len(data);
        } else if tag == TAG_BOOLEAN || tag == TAG_UTC_TIME || tag == TAG_GENERALIZED_TIME
            || tag == TAG_OID || tag == TAG_RELATIVE_OID {
        } else if data.len() > 0 {
            assert(encode_utf8(text@) == data);
            if text@.len() == 0 {
                assert(encode_utf8(text@) =~= Seq::<u8>::empty());
            }
        }
    }
}

} // verus!

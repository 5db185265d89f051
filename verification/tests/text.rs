use trust0::error::AppError;
use trust0::model::user::{Status, User};
use trust0::proxy::event::ProxyExecutorEvent;
use trust0::proxy::registry::ProxyKeyTable;
use trust0::text::{
    append_decimal, append_decimal_ascii, append_joined, append_optional_id, hex_string,
    i64_to_string, parse_u16, u64_to_string,
};

#[test]
fn user_new() {
    let user = User::new(100, "user100", Status::Inactive);

    assert_eq!(user.user_id, 100);
    assert_eq!(user.name, "user100");
    assert!(user.status == Status::Inactive);
    assert!(Status::default() == Status::Active);
    assert_eq!(user.clone(), user);
}

#[test]
fn text_decimal() {
    assert_eq!(u64_to_string(0), "0");
    assert_eq!(u64_to_string(9), "9");
    assert_eq!(u64_to_string(10), "10");
    assert_eq!(u64_to_string(1234567890), "1234567890");
    assert_eq!(u64_to_string(u64::MAX), "18446744073709551615");
    assert_eq!(i64_to_string(0), "0");
    assert_eq!(i64_to_string(-1), "-1");
    assert_eq!(i64_to_string(i64::MAX), "9223372036854775807");
    assert_eq!(i64_to_string(i64::MIN), "-9223372036854775808");
    let mut text = "n=".to_string();
    append_decimal(&mut text, 405);
    assert_eq!(text, "n=405");
    let mut bytes = b"T0SRV".to_vec();
    append_decimal_ascii(&mut bytes, 1090);
    assert_eq!(bytes, b"T0SRV1090".to_vec());
}

#[test]
fn text_hex() {
    assert_eq!(hex_string(&[]), "");
    assert_eq!(hex_string(&[0x00]), "00");
    assert_eq!(hex_string(&[0x01, 0x23, 0x45, 0x67, 0x89, 0xab, 0xcd, 0xef]), "0123456789abcdef");
}

#[test]
fn text_parse_u16() {
    assert_eq!(parse_u16("0"), Some(0));
    assert_eq!(parse_u16("20"), Some(20));
    assert_eq!(parse_u16("+20"), Some(20));
    assert_eq!(parse_u16("00020"), Some(20));
    assert_eq!(parse_u16("65535"), Some(65535));
    assert_eq!(parse_u16("65536"), None);
    assert_eq!(parse_u16("99999999999999999999999"), None);
    assert_eq!(parse_u16(""), None);
    assert_eq!(parse_u16("+"), None);
    assert_eq!(parse_u16("-1"), None);
    assert_eq!(parse_u16("++1"), None);
    assert_eq!(parse_u16("1+"), None);
    assert_eq!(parse_u16(" 1"), None);
    assert_eq!(parse_u16("1_0"), None);
    assert_eq!(parse_u16("NAN"), None);
    assert_eq!(parse_u16("\u{663}"), None);
    for text in ["0", "7", "+7", "080", "65535", "65536", "", "+", "-0", "12a"] {
        assert_eq!(parse_u16(text), text.parse::<u16>().ok());
    }
}

#[test]
fn text_joined_and_optional_id() {
    let mut text = String::new();
    append_joined(&mut text, &vec![]);
    assert_eq!(text, "");
    append_joined(&mut text, &vec!["a".to_string()]);
    assert_eq!(text, "a");
    append_joined(&mut text, &vec!["b".to_string(), "".to_string(), "c".to_string()]);
    assert_eq!(text, "ab,,c");
    let mut text = "id=".to_string();
    append_optional_id(&mut text, None);
    append_optional_id(&mut text, Some(0));
    assert_eq!(text, "id=NoneSome(0)");
}

#[test]
fn error_texts() {
    let general = AppError::general("plain");
    assert_eq!(general.to_string(), "plain");
    assert_eq!(general.clone().to_string(), "plain");
    assert_eq!(AppError::general_with("val=", "7").to_string(), "val=7");
    assert_eq!(AppError::caused("read failed", "reset").to_string(), "read failed: reset");
    assert_eq!(
        AppError::GenWithCodeAndMsg(425, "[E0425] Inactive service proxy".to_string()).to_string(),
        "[E0425] Inactive service proxy"
    );
    assert_eq!(AppError::WouldBlock.to_string(), "Operation would block");
}

#[test]
fn proxy_key_table_holds_each_key_once() {
    let mut table = ProxyKeyTable::new();

    assert!(table.is_empty());
    assert!(table.insert("k1", 200));
    assert!(table.insert("k2", 201));
    assert!(!table.insert("k1", 999));

    assert_eq!(table.len(), 2);
    assert_eq!(table.get("k1"), Some(200));
    assert_eq!(table.get("k2"), Some(201));
    assert_eq!(table.get("k3"), None);
    assert!(table.contains_key("k2"));
    assert_eq!(table.entry(0), ("k1", 200));
    assert_eq!(table.entry(1), ("k2", 201));

    assert_eq!(table.remove("k1"), Some(200));
    assert_eq!(table.remove("k1"), None);
    assert_eq!(table.len(), 1);
    assert_eq!(table.entry(0), ("k2", 201));
    assert!(!table.contains_key("k1"));
}

#[test]
fn proxy_executor_event_key() {
    assert_eq!(ProxyExecutorEvent::OpenTcp("a".to_string()).proxy_key(), "a");
    assert_eq!(ProxyExecutorEvent::OpenUdp("b".to_string()).proxy_key(), "b");
    assert_eq!(ProxyExecutorEvent::Close("c".to_string()).proxy_key(), "c");
}

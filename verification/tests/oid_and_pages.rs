use docstore::errors::Error;
use docstore::model::trim_str;
use docstore::oid::{to_object_id, ObjectId};
use docstore::pages::{html_shell, SHELL_MIDDLE, SHELL_PREFIX, SHELL_SUFFIX};
use docstore::settings::{is_truthy_flag, Settings};

#[test]
fn to_hex_renders_exact_digits() {
    let id = ObjectId { hi: 0, lo: 255 };
    assert_eq!(id.to_hex(), "0000000000000000000000ff");
    let id2 = ObjectId { hi: 0x0102_030a, lo: 0xdead_beef_0000_0001 };
    assert_eq!(id2.to_hex(), "0102030adeadbeef00000001");
}

#[test]
fn parse_inverts_rendering() {
    let id = ObjectId { hi: 7, lo: 123_456_789 };
    let hex = id.to_hex();
    let back = to_object_id(&hex).unwrap();
    assert_eq!(back, id);
    let again = to_object_id("0102030adeadbeef00000001").unwrap();
    assert_eq!(again.to_hex(), "0102030adeadbeef00000001");
}

#[test]
fn malformed_ids_are_bad_requests() {
    for bad in [
        "",
        "123",
        "0102030adeadbeef0000000",    // 23 chars
        "0102030adeadbeef000000011",  // 25 chars
        "0102030ADEADBEEF00000001",   // uppercase
        "0102030adeadbeef0000000g",   // not a hex digit
        "0102030adeadbeef0000000 ",   // blank
    ] {
        match to_object_id(bad) {
            Err(Error::BadRequest { .. }) => {}
            other => panic!("expected BadRequest for {:?}, got {:?}", bad, other.is_ok()),
        }
    }
}

#[test]
fn trim_strips_both_ends() {
    assert_eq!(trim_str("  Rex\t\n"), "Rex");
    assert_eq!(trim_str("Rex"), "Rex");
    assert_eq!(trim_str(" \t\r\n "), "");
    assert_eq!(trim_str(""), "");
    assert_eq!(trim_str(" a b "), "a b");
}

#[test]
fn html_shell_is_the_template_around_title_and_body() {
    let page = html_shell("My Title", "<p>hello</p>");
    let expected = format!(
        "{}My Title{}<p>hello</p>{}",
        SHELL_PREFIX, SHELL_MIDDLE, SHELL_SUFFIX
    );
    assert_eq!(page, expected);
    assert!(page.starts_with("<!doctype html>"));
    assert!(page.contains("<title>My Title</title>"));
    assert!(page.ends_with("</html>"));
}

#[test]
fn settings_defaults_match_the_documented_values() {
    let s = Settings::default();
    assert_eq!(s.environment, "development");
    assert_eq!(s.server.port, 8080);
    assert_eq!(s.logger.level, "info");
    assert_eq!(s.database.uri, "mongodb://localhost:27017");
    assert_eq!(s.database.name, "app");
    assert_eq!(s.server.base_url(), "http://localhost:8080");
}

#[test]
fn truthy_flags() {
    assert!(is_truthy_flag("1"));
    assert!(is_truthy_flag("true"));
    assert!(is_truthy_flag("TRUE"));
    assert!(is_truthy_flag("yes"));
    assert!(is_truthy_flag("YES"));
    assert!(!is_truthy_flag("0"));
    assert!(!is_truthy_flag("false"));
    assert!(!is_truthy_flag(""));
    assert!(!is_truthy_flag("True"));
}

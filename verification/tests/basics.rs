use cursor_server::collections::{IdMap, NameMap};
use cursor_server::cursor::tools::mcp_result::format_mcp_output;
use cursor_server::digest::fingerprint;
use cursor_server::ident::short_random_id;
use cursor_server::json;
use cursor_server::json::{Json, Number};
use cursor_server::search::outline::outline_language;
use cursor_server::text;

#[test]
fn json_is_read_and_compared() {
    let value = json::parse(r#"{"a": [1, -2, 2.5, null, true, "x"], "b": {}}"#).unwrap();
    let items = value.get("a").unwrap().as_array().unwrap();
    assert_eq!(items[0].as_u64(), Some(1));
    assert_eq!(items[1].as_i64(), Some(-2));
    assert!(matches!(items[2], Json::Number(Number::Float(bits)) if f64::from_bits(bits) == 2.5));
    assert_eq!(items[4].as_bool(), Some(true));
    assert!(value.equals(&value.copy()));
    assert!(!value.equals(&Json::Null));
    assert!(json::parse("{").is_none());
    let mut object = json::parse("{}").unwrap();
    object.set("k", Json::Bool(true));
    object.set("k", Json::Bool(false));
    assert_eq!(object.get("k").unwrap().as_bool(), Some(false));
    let once = object.copy();
    object.set("k", Json::Bool(false));
    assert!(object.equals(&once));
}

#[test]
fn json_is_compared_by_what_it_says() {
    let read = |text: &str| json::parse(text).unwrap();
    let object = |members: Vec<(&str, Json)>| {
        Json::Object(members.into_iter().map(|(name, value)| (name.to_owned(), value)).collect())
    };
    let one = object(vec![("a", read("[1, {}]")), ("b", Json::Null)]);
    let other = object(vec![("b", Json::Null), ("a", read("[1, {}]"))]);
    assert!(one.equals(&other) && other.equals(&one));
    assert!(!one.equals(&object(vec![("a", read("[1, {}]"))])));
    assert!(!object(vec![("a", read("[1, {}]"))]).equals(&one));
    assert!(!one.equals(&object(vec![("a", read("[{}, 1]")), ("b", Json::Null)])));
    assert!(read("[0.0]").equals(&read("[-0.0]")));
    assert!(!read("0.0").equals(&read("0")));
    assert!(!read("0.5").equals(&read("-0.5")));
}

#[test]
fn unknown_output_is_shown_as_json() {
    let value = json::parse(r#"{"answer": 42}"#).unwrap();
    assert!(format_mcp_output(&value).contains("42"));
    let rendered = json::parse(r#"{"rendered": "as it is"}"#).unwrap();
    assert!(format_mcp_output(&rendered).contains("as it is"));
}

#[test]
fn fingerprints_are_the_digits_of_the_digest() {
    assert_eq!(
        fingerprint(b"abc"),
        "ba7816bf8f01cfea414140de5dae2223b00361a396177a9cb410ff61f20015ad"
    );
}

#[test]
fn random_ids_are_short_and_differ() {
    let a = short_random_id();
    assert_eq!(a.len(), 8);
    assert!(a.chars().all(|c| c.is_ascii_hexdigit()));
    assert_ne!(a, short_random_id());
}

#[test]
fn texts_are_taken_apart() {
    assert_eq!(text::lines("a\r\nb\n\nc"), vec!["a", "b", "", "c"]);
    assert_eq!(text::split("a,b,", ','), vec!["a", "b", ""]);
    assert_eq!(text::split_text("a--b", "--"), vec!["a", "b"]);
    assert_eq!(text::trim(" \u{a0}x\n"), "x");
    assert_eq!(text::strip_prefixes("user-user-x", "user-"), "x");
    assert_eq!(text::strip_trailing("a//", '/'), "a");
    assert_eq!(text::normalized("Call_Mcp-Tool 2"), "callmcptool2");
    assert_eq!(text::parse_i32("-12"), Some(-12));
    assert_eq!(text::parse_i32("2147483648"), None);
    assert_eq!(text::parse_u64("+7"), Some(7));
    assert_eq!(text::decimal_i64(i64::MIN), "-9223372036854775808");
    assert!(text::is_before("a", "ab"));
    assert!(!text::is_before("b", "ab"));
    assert!(text::eq_ignore_case("ShElL", "shell"));
    assert_eq!(text::byte_len("界"), 3);
}

#[test]
fn maps_keep_the_latest_value() {
    let mut ids: IdMap<&str> = IdMap::new();
    ids.insert(2, "two");
    ids.insert(1, "one");
    ids.insert(2, "zwei");
    assert_eq!(ids.ids(), vec![1, 2]);
    assert_eq!(ids.get(2), Some(&"zwei"));
    assert_eq!(ids.remove(1), Some("one"));
    assert!(!ids.contains(1));
    let mut names: NameMap<u8> = NameMap::new();
    names.insert("a".into(), 1);
    names.insert("a".into(), 2);
    assert_eq!(names.get("a"), Some(&2));
    assert_eq!(names.remove("a"), Some(2));
    assert_eq!(names.get("a"), None);
}

#[test]
fn a_language_that_was_asked_for_goes_first() {
    let rust = || Some("rust".to_string());
    let python = || Some("python".to_string());
    assert_eq!(outline_language(rust(), python()), rust());
    assert_eq!(outline_language(None, python()), python());
    assert_eq!(outline_language(None, None), None);
}

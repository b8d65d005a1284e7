use claude_agent_sdk_rs::json::{Json, JsonNumber};

fn text(s: &str) -> Json {
    Json::String(s.to_string())
}

#[test]
fn get_finds_a_member_of_an_object() {
    let data = Json::Object(vec![
        ("a".to_string(), Json::Bool(true)),
        ("type".to_string(), text("system")),
    ]);
    assert_eq!(data.get("type"), Some(&text("system")));
    assert_eq!(data.get("a"), Some(&Json::Bool(true)));
    assert_eq!(data.get("b"), None);
}

#[test]
fn get_finds_a_member_wherever_it_stands() {
    let data = Json::Object(vec![
        ("b".to_string(), Json::Null),
        ("c".to_string(), Json::Null),
        ("type".to_string(), text("user")),
    ]);
    assert_eq!(data.get("type"), Some(&text("user")));
}

#[test]
fn get_takes_the_first_of_equal_names() {
    let data = Json::Object(vec![
        ("type".to_string(), text("first")),
        ("type".to_string(), text("second")),
    ]);
    assert_eq!(data.get("type"), Some(&text("first")));
}

#[test]
fn get_on_other_values_finds_nothing() {
    assert_eq!(Json::Null.get("type"), None);
    assert_eq!(text("type").get("type"), None);
    assert_eq!(Json::Array(vec![text("type")]).get("type"), None);
    assert_eq!(Json::Number(JsonNumber::NegInt(-3)).get("type"), None);
}

#[test]
fn as_str_gives_the_text_of_strings_only() {
    assert_eq!(text("user").as_str(), Some("user"));
    assert_eq!(Json::Bool(false).as_str(), None);
    assert_eq!(Json::Number(JsonNumber::Float(0.85f64.to_bits())).as_str(), None);
    assert_eq!(Json::Object(vec![]).as_str(), None);
}

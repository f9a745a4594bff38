use lingxi_ascendc::agent::engine_event::read_event;
use lingxi_ascendc::agent::line_document::{read_layer, Layer};
use lingxi_ascendc::json::{Json, JsonNumber};
use lingxi_ascendc::raw_json::{split_list, split_object, starts};

fn pairs(parts: &[(&str, &str)]) -> Option<Vec<(String, String)>> {
    Some(parts.iter().map(|(key, value)| ((*key).to_owned(), (*value).to_owned())).collect())
}

fn texts(parts: &[&str]) -> Option<Vec<String>> {
    Some(parts.iter().map(|part| (*part).to_owned()).collect())
}

#[test]
fn objects_are_split_into_their_members() {
    assert_eq!(split_object("{}"), pairs(&[]));
    assert_eq!(split_object(" { \n} "), pairs(&[]));
    assert_eq!(
        split_object(r#"{"a":1,"b":{"c":[1,2]},"a":"}"}"#),
        pairs(&[("a", "1"), ("b", r#"{"c":[1,2]}"#), ("a", r#""}""#)])
    );
    assert_eq!(split_object("{\"\\u00e9\\n\" : true }"), pairs(&[("\u{e9}\n", " true")]));
    assert_eq!(split_object("{\"\u{e9}\":\"\u{20ac}\"}"), pairs(&[("\u{e9}", "\"\u{20ac}\"")]));
    for text in ["", "{", "{,}", "{\"a\"}", "{\"a\":}", "{\"a\":1,}", "{\"a\":1}}", "[]", "1"] {
        assert_eq!(split_object(text), None, "text = {text}");
    }
}

#[test]
fn lists_are_split_into_their_items() {
    assert_eq!(split_list("[]"), texts(&[]));
    assert_eq!(split_list(" [ ] "), texts(&[]));
    assert_eq!(split_list("[1,[2,3],\"]\"]"), texts(&["1", "[2,3]", "\"]\""]));
    assert_eq!(split_list("[ null , 1.5e3 ]"), texts(&["null", "1.5e3"]));
    for text in ["", "[", "[,]", "[1 2]", "[1,]", "[1]]", "{}", "1"] {
        assert_eq!(split_list(text), None, "text = {text}");
    }
}

#[test]
fn the_first_mark_stands_behind_white_space() {
    assert!(starts(" \t\r\n{}", '{'));
    assert!(!starts("x{}", '{'));
    assert!(!starts("", '{'));
}

#[test]
fn layers_keep_what_values_merge() {
    let one = || Json::Number(JsonNumber::Unsigned(1));
    let two = || Json::Number(JsonNumber::Unsigned(2));
    assert_eq!(
        read_layer(r#"{"a":1,"a":{"b":1,"b":2}}"#, Layer::Record),
        Some(Json::Object(vec![
            ("a".to_owned(), one()),
            ("a".to_owned(), Json::Object(vec![("b".to_owned(), two())])),
        ]))
    );
    assert_eq!(
        read_layer(r#"{"name":"n","x":1e999}"#, Layer::Stream),
        Some(Json::Object(vec![
            ("name".to_owned(), Json::Text("n".to_owned())),
            ("x".to_owned(), Json::Null),
        ]))
    );
    assert_eq!(read_layer(r#"{"x":1e999}"#, Layer::Record), None);
    assert_eq!(read_layer("2", Layer::Event), Some(two()));
}

#[test]
fn records_refuse_a_field_that_is_given_twice() {
    let json = |key: &str| {
        Json::Object(vec![
            ("type".to_owned(), Json::Text("workflow_done".to_owned())),
            ("reason".to_owned(), Json::Text("r".to_owned())),
            (key.to_owned(), Json::Text("s".to_owned())),
        ])
    };
    assert!(read_event(&json("reason")).is_none());
    assert!(read_event(&json("workflow")).is_some());
}

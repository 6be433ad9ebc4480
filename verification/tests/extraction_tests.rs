use aigenda::extractor::JsonParser;

#[test]
fn extracts_disjoint_objects_in_order() {
    let p = JsonParser::new();
    let text = "intro {\"a\": 1} middle {\"b\": {\"c\": 2}} outro";
    let got = p.extract_all_json(text);
    assert_eq!(got.len(), 2);
    assert_eq!(got[0], "{\"a\": 1}");
    assert_eq!(got[1], "{\"b\": {\"c\": 2}}");
}

#[test]
fn braces_inside_strings_do_not_count() {
    let p = JsonParser::new();
    let text = "x {\"t\": \"a } b { c\"} y";
    let got = p.extract_all_json(text);
    assert_eq!(got.len(), 1);
    assert_eq!(got[0], "{\"t\": \"a } b { c\"}");
}

#[test]
fn escaped_quotes_inside_strings_do_not_toggle() {
    let p = JsonParser::new();
    let text = "{\"t\": \"say \\\"}\\\" ok\"}";
    let got = p.extract_all_json(text);
    assert_eq!(got.len(), 1);
    assert_eq!(got[0], text);
}

#[test]
fn trailing_open_brace_adds_nothing() {
    let p = JsonParser::new();
    let with_tail = "{\"a\": 1} tail {";
    let without_tail = "{\"a\": 1} tail ";
    assert_eq!(p.extract_all_json(with_tail), p.extract_all_json(without_tail));
    assert_eq!(p.extract_all_json(with_tail).len(), 1);
}

#[test]
fn unbalanced_only_yields_nothing() {
    let p = JsonParser::new();
    assert_eq!(p.extract_all_json("{ \"a\": 1").len(), 0);
    assert_eq!(p.extract_all_json("no json at all").len(), 0);
}

#[test]
fn first_json_is_the_first_candidate() {
    let p = JsonParser::new();
    assert_eq!(p.extract_first_json("a {\"x\":1} b {\"y\":2}"), Some("{\"x\":1}".to_string()));
    assert_eq!(p.extract_first_json("plain prose"), None);
}

#[test]
fn deeply_nested_object_is_one_candidate() {
    let p = JsonParser::new();
    let text = "{\"a\": {\"b\": {\"c\": {\"d\": 1}}}}";
    let got = p.extract_all_json(text);
    assert_eq!(got.len(), 1);
    assert_eq!(got[0], text);
}

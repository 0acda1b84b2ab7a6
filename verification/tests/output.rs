use rule_engine::output::{build_output, set_output_value};
use serde_json::{Number, Value};

fn s(text: &str) -> Value {
    Value::String(text.to_string())
}

fn list(items: &[&str]) -> Value {
    Value::Array(items.iter().map(|i| s(i)).collect())
}

fn flat(entries: Vec<(&str, Value)>) -> Vec<(String, Value)> {
    entries.into_iter().map(|(k, v)| (k.to_string(), v)).collect()
}

fn document(text: &str) -> serde_json::Map<String, Value> {
    match serde_json::from_str(text).unwrap() {
        Value::Object(m) => m,
        _ => panic!("not an object"),
    }
}

fn written(m: &serde_json::Map<String, Value>) -> String {
    serde_json::to_string(m).unwrap()
}

#[test]
fn test_build_output() {
    // Setup the input data.
    let mut map1 = Vec::new();
    map1.push(("file.priority".to_string(), Value::String("low".to_string())));

    let mut map2 = Vec::new();
    map2.push(("file.priority".to_string(), Value::String("high".to_string())));

    let mut map3 = Vec::new();
    map3.push(("nested.value.here".to_string(), Value::String("A".to_string())));

    let mut map4 = Vec::new();
    map4.push((
        "nested.slice.here".to_string(),
        Value::Array(vec![
            Value::String("A".to_string()),
            Value::String("B".to_string()),
            Value::String("C".to_string()),
        ]),
    ));

    let mut map5 = Vec::new();
    map5.push((
        "nested.slice.here".to_string(),
        Value::Array(vec![Value::String("D".to_string()), Value::String("E".to_string())]),
    ));

    let mut map6 = Vec::new();
    map6.push((
        "nested.slice.here".to_string(),
        Value::Array(vec![Value::String("F".to_string()), Value::String("G".to_string())]),
    ));

    let mut map7 = Vec::new();
    map7.push((
        "numbers.here".to_string(),
        Value::Array(vec![Value::Number(Number::from(11)), Value::Number(Number::from(22))]),
    ));

    let mut map8 = Vec::new();
    map8.push((
        "numbers.here".to_string(),
        Value::Array(vec![Value::Number(Number::from(33)), Value::Number(Number::from(44))]),
    ));

    let results = vec![map1, map2, map3, map4, map5, map6, map7, map8];

    // Define the expected YAML output as a string: the keys stand in the
    // order in which they were first inserted.
    let expected_yaml_output = r#"---
file:
  priority: high
nested:
  value:
    here: A
  slice:
    here:
      - A
      - B
      - C
      - D
      - E
      - F
      - G
numbers:
  here:
    - 11
    - 22
    - 33
    - 44
"#;

    // Call the build_output function to process the results.
    let output = build_output(results).expect("expected no error when building output");

    println!("{:?}", output);

    // Serialize the output to YAML.
    let mut yaml_output = serde_yaml::to_string(&output)
        .expect("expected no error when marshaling output into YAML");
    if !yaml_output.starts_with("---") {
        yaml_output.insert_str(0, "---\n");
    }

    println!("{:?}", yaml_output);

    // Compare the actual output with the expected output.
    assert_eq!(expected_yaml_output, yaml_output, "expected yaml output to be as the defined one");
}

#[test]
fn a_later_scalar_overwrites_an_earlier_one() {
    let output = build_output(vec![
        flat(vec![("file.priority", s("low"))]),
        flat(vec![("file.priority", s("high"))]),
    ])
    .unwrap();
    assert_eq!(output, document(r#"{"file": {"priority": "high"}}"#));
}

#[test]
fn lists_are_concatenated_in_input_order() {
    let output = build_output(vec![
        flat(vec![("nested.slice.here", list(&["A", "B", "C"]))]),
        flat(vec![("nested.slice.here", list(&["D", "E"]))]),
        flat(vec![("nested.slice.here", list(&["F", "G"]))]),
    ])
    .unwrap();
    assert_eq!(
        written(&output),
        r#"{"nested":{"slice":{"here":["A","B","C","D","E","F","G"]}}}"#
    );
}

#[test]
fn a_scalar_is_appended_to_a_list() {
    let output = build_output(vec![
        flat(vec![("a.b", list(&["A"]))]),
        flat(vec![("a.b", s("B"))]),
        flat(vec![("a.b", Value::Bool(true))]),
    ])
    .unwrap();
    assert_eq!(written(&output), r#"{"a":{"b":["A","B",true]}}"#);
}

#[test]
fn an_object_is_appended_to_a_list_as_one_element() {
    let output = build_output(vec![
        flat(vec![("a", list(&["A"]))]),
        flat(vec![("a", Value::Object(document(r#"{"k": 1}"#)))]),
    ])
    .unwrap();
    assert_eq!(written(&output), r#"{"a":["A",{"k":1}]}"#);
}

#[test]
fn a_list_overwrites_a_scalar() {
    let output = build_output(vec![
        flat(vec![("a.b", s("B"))]),
        flat(vec![("a.b", list(&["A"]))]),
    ])
    .unwrap();
    assert_eq!(written(&output), r#"{"a":{"b":["A"]}}"#);
}

#[test]
fn a_value_overwrites_an_object_at_its_key() {
    let output = build_output(vec![
        flat(vec![("a.b.c", s("deep"))]),
        flat(vec![("a.b", s("flat"))]),
    ])
    .unwrap();
    assert_eq!(written(&output), r#"{"a":{"b":"flat"}}"#);
}

#[test]
fn a_path_through_a_value_that_is_no_object_changes_nothing() {
    let output = build_output(vec![
        flat(vec![("a.b", s("flat"))]),
        flat(vec![("a.b.c", s("deep"))]),
        flat(vec![("a.b.c.d", list(&["x"]))]),
    ])
    .unwrap();
    assert_eq!(written(&output), r#"{"a":{"b":"flat"}}"#);
}

#[test]
fn keys_keep_the_order_of_their_first_insertion() {
    let output = build_output(vec![
        flat(vec![("z", s("1")), ("a", s("2"))]),
        flat(vec![("m.y", s("3")), ("m.b", s("4")), ("z", s("5"))]),
        flat(vec![("a", s("6")), ("m.y", s("7"))]),
    ])
    .unwrap();
    assert_eq!(written(&output), r#"{"z":"5","a":"6","m":{"y":"7","b":"4"}}"#);
}

#[test]
fn the_entries_of_one_map_are_merged_in_their_order() {
    let output = build_output(vec![flat(vec![
        ("a", list(&["1"])),
        ("a", s("2")),
        ("a", list(&["3", "4"])),
    ])])
    .unwrap();
    assert_eq!(written(&output), r#"{"a":["1","2","3","4"]}"#);
}

#[test]
fn no_results_build_an_empty_document() {
    assert_eq!(build_output(vec![]).unwrap(), serde_json::Map::new());
    assert_eq!(build_output(vec![vec![], vec![]]).unwrap(), serde_json::Map::new());
}

#[test]
fn a_path_without_a_dot_is_one_key() {
    let output = build_output(vec![flat(vec![("plain", s("v"))])]).unwrap();
    assert_eq!(written(&output), r#"{"plain":"v"}"#);
}

#[test]
fn every_dot_splits_the_path() {
    let output = build_output(vec![
        flat(vec![("a..b", s("1"))]),
        flat(vec![("c.", s("2"))]),
        flat(vec![(".d", s("3"))]),
        flat(vec![("", s("4"))]),
    ])
    .unwrap();
    assert_eq!(written(&output), r#"{"a":{"":{"b":"1"}},"c":{"":"2"},"":"4"}"#);
}

#[test]
fn set_output_value_merges_into_the_document_it_is_given() {
    let mut m = document(r#"{"keep": 1, "list": [1], "node": {"x": "old"}}"#);
    set_output_value(&mut m, "list", Value::Array(vec![Value::from(2), Value::from(3)]));
    set_output_value(&mut m, "node.x", s("new"));
    set_output_value(&mut m, "node.y.z", Value::Null);
    set_output_value(&mut m, "keep.x", s("dropped"));
    assert_eq!(
        written(&m),
        r#"{"keep":1,"list":[1,2,3],"node":{"x":"new","y":{"z":null}}}"#
    );
}

#[test]
fn a_list_below_a_list_is_flattened_by_one_level_only() {
    let mut m = serde_json::Map::new();
    set_output_value(&mut m, "a", list(&["x"]));
    set_output_value(&mut m, "a", Value::Array(vec![list(&["y"]), s("z")]));
    assert_eq!(written(&m), r#"{"a":["x",["y"],"z"]}"#);
}

#[test]
fn paths_are_split_between_characters_of_any_width() {
    let output = build_output(vec![
        flat(vec![("\u{e9}t\u{e9}.\u{fc}ber.\u{4e16}\u{754c}", s("1"))]),
        flat(vec![("\u{e9}t\u{e9}.\u{fc}ber.x", s("2"))]),
    ])
    .unwrap();
    assert_eq!(
        written(&output),
        "{\"\u{e9}t\u{e9}\":{\"\u{fc}ber\":{\"\u{4e16}\u{754c}\":\"1\",\"x\":\"2\"}}}"
    );
}

use co2_sensor::error::ParseError;
use co2_sensor::extract::{extract_reading, lookup_field, reading_from_lookup, FieldLookup};

#[test]
fn reading_under_the_key_is_returned() {
    assert_eq!(extract_reading("{\"co2\":\"415\"}", "co2"), Ok(415));
}

#[test]
fn absent_key_is_reported_as_missing() {
    assert_eq!(extract_reading("{\"co2\":\"415\"}", "ppm"), Err(ParseError::MissingKey));
}

#[test]
fn text_that_is_no_number_is_a_numeric_error() {
    assert_eq!(extract_reading("{\"co2\":\"abc\"}", "co2"), Err(ParseError::Numeric));
    assert_eq!(extract_reading("{\"co2\":\"70000\"}", "co2"), Err(ParseError::Numeric));
    assert_eq!(extract_reading("{\"co2\":\"\"}", "co2"), Err(ParseError::Numeric));
}

#[test]
fn member_of_another_kind_is_a_type_error() {
    assert_eq!(extract_reading("{\"co2\":415}", "co2"), Err(ParseError::WrongType));
    assert_eq!(extract_reading("{\"co2\":null}", "co2"), Err(ParseError::WrongType));
    assert_eq!(extract_reading("{\"co2\":[\"415\"]}", "co2"), Err(ParseError::WrongType));
    assert_eq!(extract_reading("{\"co2\":{\"co2\":\"415\"}}", "co2"), Err(ParseError::WrongType));
}

#[test]
fn body_that_is_no_json_is_a_json_error() {
    assert_eq!(extract_reading("", "co2"), Err(ParseError::Json));
    assert_eq!(extract_reading("co2=415", "co2"), Err(ParseError::Json));
    assert_eq!(extract_reading("{\"co2\":\"415\"", "co2"), Err(ParseError::Json));
    assert_eq!(extract_reading("{\"co2\":\"415\"} trailing", "co2"), Err(ParseError::Json));
}

#[test]
fn document_that_is_no_object_has_no_members() {
    assert_eq!(extract_reading("[\"415\"]", "co2"), Err(ParseError::MissingKey));
    assert_eq!(extract_reading("\"415\"", "co2"), Err(ParseError::MissingKey));
    assert_eq!(extract_reading("415", "0"), Err(ParseError::MissingKey));
}

#[test]
fn only_the_top_level_is_searched() {
    assert_eq!(extract_reading("{\"data\":{\"co2\":\"415\"}}", "co2"), Err(ParseError::MissingKey));
}

#[test]
fn other_members_and_white_space_do_not_matter() {
    let body = " {\n \"temp\": 21.5, \"co2\" : \"612\", \"ok\": true }\n";
    assert_eq!(extract_reading(body, "co2"), Ok(612));
}

#[test]
fn escapes_in_keys_and_texts_are_resolved() {
    assert_eq!(extract_reading("{\"c\\u006f2\":\"4\\u00315\"}", "co2"), Ok(415));
}

#[test]
fn lookup_tells_the_four_cases_apart() {
    assert_eq!(lookup_field("{\"co2\":\"415\"}", "co2"), FieldLookup::Text("415".to_string()));
    assert_eq!(lookup_field("{\"co2\":\"abc\"}", "co2"), FieldLookup::Text("abc".to_string()));
    assert_eq!(lookup_field("{\"co2\":415}", "co2"), FieldLookup::NotText);
    assert_eq!(lookup_field("{\"co2\":\"415\"}", "ppm"), FieldLookup::Absent);
    assert_eq!(lookup_field("{", "co2"), FieldLookup::NotJson);
}

#[test]
fn lookup_hands_out_the_member_and_not_the_body() {
    let body = "{\"co2\":\"415\"}";
    match lookup_field(body, "co2") {
        FieldLookup::Text(text) => {
            assert_eq!(text, "415");
            assert_ne!(text, body);
        }
        other => panic!("unexpected lookup {:?}", other),
    }
}

#[test]
fn each_lookup_has_its_reading_or_its_error() {
    assert_eq!(reading_from_lookup(&FieldLookup::Text("415".to_string())), Ok(415));
    assert_eq!(reading_from_lookup(&FieldLookup::Text("abc".to_string())), Err(ParseError::Numeric));
    assert_eq!(reading_from_lookup(&FieldLookup::NotText), Err(ParseError::WrongType));
    assert_eq!(reading_from_lookup(&FieldLookup::Absent), Err(ParseError::MissingKey));
    assert_eq!(reading_from_lookup(&FieldLookup::NotJson), Err(ParseError::Json));
}

use entry::errors::EntryError;
use entry::schema::{
    EmptyInput, FieldValue, Scalar, Schema, SchemaCount, SchemaDataType, SchemaType, StoredSchema,
};
use serde_json::{Number, Value};
use std::str::FromStr;

fn scalar_to_json(item: &Scalar) -> Value {
    match item {
        Scalar::String(text) => Value::String(text.clone()),
        Scalar::Number(literal) => Value::Number(Number::from_str(literal).unwrap()),
    }
}

fn to_json(value: &FieldValue) -> Value {
    match value {
        FieldValue::One(item) => scalar_to_json(item),
        FieldValue::Many(items) => Value::Array(items.iter().map(scalar_to_json).collect()),
    }
}

fn one(data_type: SchemaDataType) -> SchemaType {
    SchemaType { count: SchemaCount::One, data_type }
}

fn many(data_type: SchemaDataType) -> SchemaType {
    SchemaType { count: SchemaCount::Many, data_type }
}

fn text(value: &str) -> Scalar {
    Scalar::String(value.to_string())
}

#[test]
fn schema_types_can_parse_individual_data_types() {
    let data_types = [
        (
            SchemaDataType::Date,
            "2021/04/25",
            Value::String("2021/04/25".to_string()),
        ),
        (
            SchemaDataType::DateTime,
            "2021/04/25 11:17:00",
            Value::String("2021/04/25 11:17:00".to_string()),
        ),
        (
            SchemaDataType::Number,
            "20.5",
            Value::Number(Number::from_f64(20.5).unwrap()),
        ),
        (
            SchemaDataType::String,
            "anything531",
            Value::String("anything531".to_string()),
        ),
    ];

    for (data_type, input, value) in data_types.iter() {
        let schema_type = SchemaType {
            count: SchemaCount::One,
            data_type: *data_type,
        };
        assert_eq!(to_json(&schema_type.parse(*input).unwrap()), value.clone());
    }
}

#[test]
fn a_number_is_kept_as_its_literal() {
    assert_eq!(
        one(SchemaDataType::Number).parse("20.5"),
        Some(FieldValue::One(Scalar::Number("20.5".to_string())))
    );
    assert_eq!(
        one(SchemaDataType::Number).parse("  -3e2 "),
        Some(FieldValue::One(Scalar::Number("-3e2".to_string())))
    );
}

#[test]
fn a_number_field_turns_down_what_is_no_json_number() {
    let number = one(SchemaDataType::Number);
    assert_eq!(number.parse("abc"), None);
    assert_eq!(number.parse("20.5kg"), None);
    assert_eq!(number.parse("01"), None);
    assert_eq!(number.parse("1e999"), None);
    assert_eq!(number.parse("."), None);
}

#[test]
fn date_accepts_slashes_and_dashes_and_rejects_an_impossible_date() {
    let date = one(SchemaDataType::Date);
    assert_eq!(
        date.parse("2021/04/25"),
        Some(FieldValue::One(text("2021/04/25")))
    );
    assert_eq!(
        date.parse("2021-04-25"),
        Some(FieldValue::One(text("2021-04-25")))
    );
    assert_eq!(date.parse("2021-13-40"), None);
    assert_eq!(date.parse("2021/02/30"), None);
    assert_eq!(date.parse("tomorrow"), None);
}

#[test]
fn a_date_is_stored_as_it_was_entered() {
    assert_eq!(
        one(SchemaDataType::Date).parse(" 2021-4-5 "),
        Some(FieldValue::One(text("2021-4-5")))
    );
}

#[test]
fn datetime_accepts_each_of_its_formats() {
    let datetime = one(SchemaDataType::DateTime);
    for input in [
        "Tue, 1 Jul 2003 10:52:37 +0200",
        "1996-12-19T16:39:57-08:00",
        "2021-04-25 11:17:00",
        "2021/04/25 11:17:00",
        "2021-04-25 11:17",
        "2021/04/25 11:17",
    ] {
        assert_eq!(datetime.parse(input), Some(FieldValue::One(text(input))));
    }
}

#[test]
fn datetime_rejects_a_date_without_a_time() {
    let datetime = one(SchemaDataType::DateTime);
    assert_eq!(datetime.parse("2021-04-25"), None);
    assert_eq!(datetime.parse("2021-04-25 25:00"), None);
    assert_eq!(datetime.parse("yesterday"), None);
}

#[test]
fn a_date_field_does_not_take_a_datetime() {
    assert_eq!(one(SchemaDataType::Date).parse("2021-04-25 11:17"), None);
}

#[test]
fn string_accepts_any_text_that_is_not_empty() {
    let string = one(SchemaDataType::String);
    assert_eq!(
        string.parse("  hello, world \n"),
        Some(FieldValue::One(text("hello, world")))
    );
    assert_eq!(string.parse(""), None);
    assert_eq!(string.parse("   \t\n"), None);
}

#[test]
fn many_strings_are_split_on_commas() {
    let parsed = many(SchemaDataType::String).parse("a,b,c");
    assert_eq!(
        parsed,
        Some(FieldValue::Many(vec![text("a"), text("b"), text("c")]))
    );
    match parsed {
        Some(FieldValue::Many(items)) => assert_eq!(items.len(), 3),
        _ => panic!("an array was expected"),
    }
}

#[test]
fn many_keeps_each_piece_as_it_stands() {
    assert_eq!(
        many(SchemaDataType::String).parse(" a, b ,,c, "),
        Some(FieldValue::Many(vec![
            text("a"),
            text(" b "),
            text(""),
            text("c"),
            text("")
        ]))
    );
}

#[test]
fn many_of_an_empty_input_is_an_empty_array() {
    for data_type in [
        SchemaDataType::String,
        SchemaDataType::Number,
        SchemaDataType::Date,
        SchemaDataType::DateTime,
    ] {
        assert_eq!(many(data_type).parse(""), Some(FieldValue::Many(vec![])));
        assert_eq!(many(data_type).parse("  \n"), Some(FieldValue::Many(vec![])));
        assert_eq!(
            many(data_type).parse_with("", EmptyInput::EmptyArray),
            Some(FieldValue::Many(vec![]))
        );
    }
}

#[test]
fn many_of_an_empty_input_fails_under_the_strict_policy() {
    assert_eq!(
        many(SchemaDataType::String).parse_with("", EmptyInput::Failure),
        None
    );
    assert_eq!(
        many(SchemaDataType::String).parse_with("a,b", EmptyInput::Failure),
        Some(FieldValue::Many(vec![text("a"), text("b")]))
    );
}

#[test]
fn one_of_an_empty_input_fails_under_either_policy() {
    assert_eq!(
        one(SchemaDataType::String).parse_with(" ", EmptyInput::EmptyArray),
        None
    );
    assert_eq!(
        one(SchemaDataType::String).parse_with(" ", EmptyInput::Failure),
        None
    );
}

#[test]
fn many_fails_when_one_piece_fails() {
    assert_eq!(many(SchemaDataType::Number).parse("1,2,x"), None);
    assert_eq!(many(SchemaDataType::Number).parse("1,,2"), None);
    assert_eq!(many(SchemaDataType::Number).parse("1, 2"), None);
    assert_eq!(many(SchemaDataType::Date).parse("2021-04-25,2021-13-40"), None);
    assert_eq!(
        many(SchemaDataType::Number).parse("1,2.5,-3"),
        Some(FieldValue::Many(vec![
            Scalar::Number("1".to_string()),
            Scalar::Number("2.5".to_string()),
            Scalar::Number("-3".to_string())
        ]))
    );
}

#[test]
fn many_numbers_become_a_json_array() {
    let parsed = many(SchemaDataType::Number).parse("1,2.5").unwrap();
    assert_eq!(
        to_json(&parsed),
        Value::Array(vec![
            Value::Number(Number::from(1u64)),
            Value::Number(Number::from_f64(2.5).unwrap())
        ])
    );
}

fn string_form(value: &FieldValue) -> String {
    let plain = |item: &Scalar| match item {
        Scalar::String(text) => text.clone(),
        Scalar::Number(literal) => literal.clone(),
    };
    match value {
        FieldValue::One(item) => plain(item),
        FieldValue::Many(items) => items.iter().map(plain).collect::<Vec<String>>().join(","),
    }
}

#[test]
fn parsing_the_string_form_of_a_parsed_value_gives_the_same_value() {
    for field in [one(SchemaDataType::String), many(SchemaDataType::String)] {
        for input in ["anything531", "  a, b ,c  ", "a,,", "", ",", " x "] {
            if let Some(value) = field.parse(input) {
                assert_eq!(field.parse(&string_form(&value)), Some(value));
            }
        }
    }
}

#[test]
fn parse_individual_reads_a_piece_without_trimming_it() {
    assert_eq!(
        one(SchemaDataType::String).parse_individual(" a "),
        Some(text(" a "))
    );
    assert_eq!(one(SchemaDataType::Number).parse_individual(" 1"), None);
    assert_eq!(
        one(SchemaDataType::Number).parse_individual("1"),
        Some(Scalar::Number("1".to_string()))
    );
}

#[test]
fn keep_follows_the_answer_it_is_given() {
    assert_eq!(SchemaDataType::Date.keep("not a date", true), Some(text("not a date")));
    assert_eq!(
        SchemaDataType::Number.keep("12", true),
        Some(Scalar::Number("12".to_string()))
    );
    assert_eq!(SchemaDataType::Number.keep("12", false), None);
    assert_eq!(SchemaDataType::String.keep("x", false), None);
}

#[test]
fn check_tells_values_of_a_kind_from_others() {
    assert!(SchemaDataType::Date.check("2021/04/25"));
    assert!(!SchemaDataType::Date.check("2021-13-40"));
    assert!(SchemaDataType::DateTime.check("2021/04/25 11:17:00"));
    assert!(!SchemaDataType::DateTime.check("2021/04/25"));
    assert!(SchemaDataType::Number.check("20.5"));
    assert!(!SchemaDataType::Number.check("twenty"));
    assert!(SchemaDataType::String.check(""));
}

#[test]
fn a_data_type_is_named_in_any_case() {
    assert_eq!(SchemaDataType::from_str("date"), Ok(SchemaDataType::Date));
    assert_eq!(SchemaDataType::from_str("DATE"), Ok(SchemaDataType::Date));
    assert_eq!(SchemaDataType::from_str("Number"), Ok(SchemaDataType::Number));
    assert_eq!(SchemaDataType::from_str("sTrInG"), Ok(SchemaDataType::String));
}

#[test]
fn an_unknown_data_type_name_is_a_parse_error() {
    assert_eq!(
        SchemaDataType::from_str("datetime"),
        Err(EntryError::SchemaParseError)
    );
    assert_eq!(
        SchemaDataType::from_str("bool"),
        Err(EntryError::SchemaParseError)
    );
    assert_eq!(SchemaDataType::from_str(""), Err(EntryError::SchemaParseError));
    assert_eq!(
        SchemaDataType::from_str(" date"),
        Err(EntryError::SchemaParseError)
    );
    assert_eq!(
        SchemaDataType::from_lowercase("DATE"),
        Err(EntryError::SchemaParseError)
    );
    assert_eq!(SchemaDataType::from_lowercase("date"), Ok(SchemaDataType::Date));
}

#[test]
fn types_render_for_prompting() {
    assert_eq!(SchemaDataType::String.to_string(), "string");
    assert_eq!(SchemaDataType::Number.to_string(), "number");
    assert_eq!(SchemaDataType::Date.to_string(), "date");
    assert_eq!(SchemaDataType::DateTime.to_string(), "datetime");
    assert_eq!(one(SchemaDataType::Number).to_string(), "number");
    assert_eq!(many(SchemaDataType::Date).to_string(), "array of dates");
    assert_eq!(many(SchemaDataType::String).to_string(), "array of strings");
}

#[test]
fn a_new_schema_is_empty() {
    let schema = Schema::new();
    assert!(schema.is_empty());
    assert_eq!(schema.len(), 0);
    assert!(Schema::default().is_empty());
    assert_eq!(schema.into_entries(), vec![]);
}

#[test]
fn insert_keeps_field_names_unique_and_in_order() {
    let mut schema = Schema::new();
    schema.insert("title".to_string(), one(SchemaDataType::String));
    schema.insert("date".to_string(), one(SchemaDataType::Date));
    schema.insert("tags".to_string(), many(SchemaDataType::String));
    schema.insert("date".to_string(), one(SchemaDataType::DateTime));
    assert!(!schema.is_empty());
    assert_eq!(schema.len(), 3);
    assert_eq!(schema.get("date"), Some(one(SchemaDataType::DateTime)));
    assert_eq!(schema.get("tags"), Some(many(SchemaDataType::String)));
    assert_eq!(schema.get("absent"), None);
    assert_eq!(
        schema.into_entries(),
        vec![
            ("date".to_string(), one(SchemaDataType::DateTime)),
            ("tags".to_string(), many(SchemaDataType::String)),
            ("title".to_string(), one(SchemaDataType::String)),
        ]
    );
}

#[test]
fn fields_come_out_in_the_order_of_a_sorted_map() {
    let names = ["b", "a", "", "ab", "B", "é", "z", "a b", "aa", "€", "\u{10000}"];
    let mut schema = Schema::new();
    let mut map = std::collections::BTreeMap::new();
    for name in names {
        schema.insert(name.to_string(), one(SchemaDataType::String));
        map.insert(name.to_string(), one(SchemaDataType::String));
    }
    let expected: Vec<(String, SchemaType)> = map.into_iter().collect();
    assert_eq!(schema.into_entries(), expected);
}

#[test]
fn a_schema_comes_back_from_its_entries() {
    let mut schema = Schema::new();
    schema.insert("title".to_string(), one(SchemaDataType::String));
    schema.insert("when".to_string(), one(SchemaDataType::DateTime));
    schema.insert("amounts".to_string(), many(SchemaDataType::Number));
    let entries = schema.into_entries();
    let again = Schema::from_entries(entries.clone());
    assert_eq!(again.len(), 3);
    assert_eq!(again.get("amounts"), Some(many(SchemaDataType::Number)));
    assert_eq!(again.into_entries(), entries);
}

#[test]
fn from_entries_lets_the_later_of_two_equal_names_stay() {
    let schema = Schema::from_entries(vec![
        ("b".to_string(), one(SchemaDataType::String)),
        ("a".to_string(), one(SchemaDataType::Date)),
        ("b".to_string(), many(SchemaDataType::Number)),
    ]);
    assert_eq!(
        schema.into_entries(),
        vec![
            ("a".to_string(), one(SchemaDataType::Date)),
            ("b".to_string(), many(SchemaDataType::Number)),
        ]
    );
}

#[test]
fn a_schema_is_stored_under_its_name() {
    assert_eq!(
        Schema::file_path("/data/schema", "book"),
        "/data/schema/book.json"
    );
    assert_eq!(Schema::file_path("", ""), "/.json");
}

#[test]
fn list_gives_the_base_names_of_json_files() {
    let files = vec![
        "book.json".to_string(),
        "notes.txt".to_string(),
        "film.json".to_string(),
        ".json".to_string(),
        "json".to_string(),
        "a.json.bak".to_string(),
        "über.json".to_string(),
    ];
    assert_eq!(
        Schema::list(&files),
        vec![
            "book".to_string(),
            "film".to_string(),
            "".to_string(),
            "über".to_string()
        ]
    );
    assert_eq!(Schema::list(&vec![]), Vec::<String>::new());
}

#[test]
fn load_tells_a_missing_file_from_a_malformed_one() {
    match Schema::load(StoredSchema::Missing) {
        Err(e) => assert_eq!(e, EntryError::SchemaLoadError),
        Ok(_) => panic!("a missing file gives no schema"),
    }
    match Schema::load(StoredSchema::Malformed) {
        Err(e) => assert_eq!(e, EntryError::SchemaParseError),
        Ok(_) => panic!("a malformed file gives no schema"),
    }
    let fields = vec![
        ("title".to_string(), one(SchemaDataType::String)),
        ("pages".to_string(), one(SchemaDataType::Number)),
    ];
    match Schema::load(StoredSchema::Fields(fields)) {
        Ok(schema) => assert_eq!(
            schema.into_entries(),
            vec![
                ("pages".to_string(), one(SchemaDataType::Number)),
                ("title".to_string(), one(SchemaDataType::String)),
            ]
        ),
        Err(_) => panic!("the fields give a schema"),
    }
}

#[test]
fn a_value_can_be_cloned() {
    let value = FieldValue::Many(vec![text("a"), Scalar::Number("1".to_string())]);
    assert_eq!(value.clone(), value);
    let single = FieldValue::One(text("a"));
    assert_eq!(single.clone(), single);
}

use shape_runner::shape::{feature_design_output_typedef, formation_output_typedef};
use shape_runner::types::{validate, FieldDef, JsonValue, TypeDef, ValidationError};

fn s(x: &str) -> String {
    x.to_string()
}

fn text(x: &str) -> JsonValue {
    JsonValue::Str(s(x))
}

fn num(x: &str) -> JsonValue {
    JsonValue::Number(s(x))
}

fn obj(members: Vec<(&str, JsonValue)>) -> JsonValue {
    JsonValue::Object(members.into_iter().map(|(k, v)| (s(k), v)).collect())
}

fn person_schema() -> TypeDef {
    TypeDef::Object(vec![
        FieldDef { name: s("name"), ty: TypeDef::Text },
        FieldDef { name: s("age"), ty: TypeDef::Number },
        FieldDef { name: s("admin"), ty: TypeDef::Bool },
    ])
}

#[test]
fn missing_two_fields_gives_two_errors() {
    let v = obj(vec![("name", text("ann"))]);
    let errs = validate(&person_schema(), &v).unwrap_err();
    assert_eq!(
        errs,
        vec![
            ValidationError::MissingField { path: s("$.age") },
            ValidationError::MissingField { path: s("$.admin") },
        ]
    );
}

#[test]
fn all_violations_in_one_pass() {
    let v = obj(vec![("name", num("3")), ("admin", text("yes"))]);
    let errs = validate(&person_schema(), &v).unwrap_err();
    assert_eq!(
        errs,
        vec![
            ValidationError::TypeMismatch { path: s("$.name"), expected: s("string"), found: s("number") },
            ValidationError::MissingField { path: s("$.age") },
            ValidationError::TypeMismatch { path: s("$.admin"), expected: s("boolean"), found: s("string") },
        ]
    );
}

#[test]
fn extra_keys_are_ignored() {
    let v = obj(vec![
        ("name", text("ann")),
        ("age", num("41")),
        ("admin", JsonValue::Bool(false)),
        ("nickname", text("a")),
        ("extra", JsonValue::Null),
    ]);
    assert_eq!(validate(&person_schema(), &v), Ok(()));
}

#[test]
fn extra_keys_do_not_change_errors() {
    let base = obj(vec![("name", JsonValue::Null)]);
    let more = obj(vec![("name", JsonValue::Null), ("zzz", JsonValue::Null)]);
    assert_eq!(validate(&person_schema(), &base), validate(&person_schema(), &more));
}

#[test]
fn root_kind_mismatch() {
    let errs = validate(&person_schema(), &JsonValue::Array(vec![])).unwrap_err();
    assert_eq!(
        errs,
        vec![ValidationError::TypeMismatch { path: s("$"), expected: s("object"), found: s("array") }]
    );
    let errs = validate(&TypeDef::List(Box::new(TypeDef::Text)), &JsonValue::Null).unwrap_err();
    assert_eq!(
        errs,
        vec![ValidationError::TypeMismatch { path: s("$"), expected: s("array"), found: s("null") }]
    );
}

#[test]
fn markdown_is_checked_as_string() {
    assert_eq!(validate(&TypeDef::Markdown, &text("# hi")), Ok(()));
    let errs = validate(&TypeDef::Markdown, &JsonValue::Bool(true)).unwrap_err();
    assert_eq!(
        errs,
        vec![ValidationError::TypeMismatch { path: s("$"), expected: s("string"), found: s("boolean") }]
    );
}

#[test]
fn every_bad_element_is_reported_with_its_index() {
    let ty = TypeDef::List(Box::new(TypeDef::Number));
    let v = JsonValue::Array(vec![num("1"), text("x"), num("2"), JsonValue::Null]);
    let errs = validate(&ty, &v).unwrap_err();
    assert_eq!(
        errs,
        vec![
            ValidationError::TypeMismatch { path: s("$[1]"), expected: s("number"), found: s("string") },
            ValidationError::TypeMismatch { path: s("$[3]"), expected: s("number"), found: s("null") },
        ]
    );
}

#[test]
fn nested_paths_in_feature_design() {
    let v = obj(vec![
        ("name", text("n")),
        ("rationale", text("r")),
        (
            "components",
            JsonValue::Array(vec![
                obj(vec![("id", text("a")), ("responsibility", text("b")), ("api", text("c"))]),
                obj(vec![("id", num("7")), ("responsibility", text("b"))]),
            ]),
        ),
        ("risks", JsonValue::Array(vec![text("r1"), JsonValue::Bool(true)])),
    ]);
    let errs = validate(&feature_design_output_typedef(), &v).unwrap_err();
    assert_eq!(
        errs,
        vec![
            ValidationError::TypeMismatch {
                path: s("$.components[1].id"),
                expected: s("string"),
                found: s("number"),
            },
            ValidationError::MissingField { path: s("$.components[1].api") },
            ValidationError::TypeMismatch { path: s("$.risks[1]"), expected: s("string"), found: s("boolean") },
        ]
    );
}

#[test]
fn formation_schema_accepts_points() {
    let v = obj(vec![(
        "coordinates",
        JsonValue::Array(vec![obj(vec![("x", num("0.0")), ("y", num("1.5"))])]),
    )]);
    assert_eq!(validate(&formation_output_typedef(), &v), Ok(()));
}

#[test]
fn index_paths_past_nine() {
    let ty = TypeDef::List(Box::new(TypeDef::Bool));
    let mut items: Vec<JsonValue> = (0..12).map(|_| JsonValue::Bool(true)).collect();
    items[11] = JsonValue::Null;
    let errs = validate(&ty, &JsonValue::Array(items)).unwrap_err();
    assert_eq!(
        errs,
        vec![ValidationError::TypeMismatch { path: s("$[11]"), expected: s("boolean"), found: s("null") }]
    );
}

#[test]
fn error_text_lines() {
    let a = ValidationError::MissingField { path: s("$.x") };
    assert_eq!(a.to_text(), "Missing required field at path $.x");
    let b = ValidationError::TypeMismatch { path: s("$.y"), expected: s("number"), found: s("string") };
    assert_eq!(b.to_text(), "Type mismatch at $.y: expected number, found string");
}

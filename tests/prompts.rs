use shape_runner::prompt::{build_formation_prompt, build_prompt, describe_schema};
use shape_runner::shape::{
    feature_design_output_typedef, formation_output_typedef, FeatureDesignInput, FormationInput,
};
use shape_runner::text::decimal_string;
use shape_runner::types::{FieldDef, TypeDef, ValidationError};

#[test]
fn describes_formation_schema() {
    let d = describe_schema(&formation_output_typedef(), 0);
    assert_eq!(
        d,
        "- object with fields:\n  - coordinates: array of:\n    - object with fields:\n      - x: number\n      - y: number\n"
    );
}

#[test]
fn describes_feature_design_schema() {
    let d = describe_schema(&feature_design_output_typedef(), 0);
    assert_eq!(
        d,
        "- object with fields:\n  - name: string\n  - rationale: string (markdown)\n  - components: array of:\n    - object with fields:\n      - id: string\n      - responsibility: string\n      - api: string (markdown)\n  - risks: array of:\n    - string\n"
    );
}

#[test]
fn describes_scalars_and_nesting() {
    assert_eq!(describe_schema(&TypeDef::Bool, 2), "  - boolean\n");
    assert_eq!(describe_schema(&TypeDef::List(Box::new(TypeDef::Number)), 0), "- array of:\n  - number\n");
    let nested = TypeDef::Object(vec![FieldDef {
        name: "inner".to_string(),
        ty: TypeDef::Object(vec![FieldDef { name: "flag".to_string(), ty: TypeDef::Bool }]),
    }]);
    assert_eq!(
        describe_schema(&nested, 0),
        "- object with fields:\n  - inner: nested object:\n    - object with fields:\n      - flag: boolean\n"
    );
}

#[test]
fn feature_prompt_lists_constraints_and_both_feedbacks() {
    let input = FeatureDesignInput {
        repo_summary: "a repo".to_string(),
        constraints: vec!["fast".to_string(), "small".to_string()],
    };
    let errors = vec![ValidationError::MissingField { path: "$.name".to_string() }];
    let p = build_prompt(&input, &TypeDef::Text, Some(&errors), Some("bad token"));
    assert!(p.starts_with("You are a system that strictly outputs JSON.\n"));
    assert!(p.contains("- Repo summary: a repo\n- Constraints:\n  - fast\n  - small\n"));
    let tail = "\nYour previous response was not valid JSON. The error was:\nbad token\n\nPlease output ONLY valid, parseable JSON without any control characters or formatting issues.\n\nYour previous JSON had these validation problems:\n- Missing required field at path $.name\n\nFix these issues and output ONLY corrected JSON.\n";
    assert!(p.ends_with(tail));
}

#[test]
fn feature_prompt_without_feedback() {
    let input = FeatureDesignInput { repo_summary: "x".to_string(), constraints: vec![] };
    let p = build_prompt(&input, &TypeDef::Text, None, None);
    assert_eq!(
        p,
        "You are a system that strictly outputs JSON.\nYou must produce a JSON object that matches this schema:\n\n- string\n\n\nThe JSON must be parseable and not contain comments or explanations.\nDo not wrap it in markdown code fences.\nDo not include control characters (null bytes, etc.) in your output.\nEscape special characters properly in JSON strings (use \\n for newlines, etc.).\n\nContext:\n- Repo summary: x\n- Constraints:\n"
    );
}

#[test]
fn formation_prompt_has_worked_example() {
    let input = FormationInput { formation_description: "v shape".to_string(), unit_count: 0 };
    let p = build_formation_prompt(&input, &formation_output_typedef(), None, None);
    assert!(p.contains("EXACTLY 0 coordinates"));
    assert!(p.contains("Example output format (for 0 units):\n{\"coordinates\":[]}\n"));
    let input = FormationInput { formation_description: "v shape".to_string(), unit_count: 3 };
    let p = build_formation_prompt(&input, &formation_output_typedef(), None, None);
    let example = "{\"coordinates\":[{\"x\":0.0,\"y\":0.0},{\"x\":10.0,\"y\":0.0},{\"x\":20.0,\"y\":0.0}]}";
    assert!(p.contains(&format!("Example output format (for 3 units):\n{example}\n")));
    let v: serde_json::Value = serde_json::from_str(example).unwrap();
    assert_eq!(v["coordinates"].as_array().unwrap().len(), 3);
}

#[test]
fn formation_example_follows_the_count() {
    for n in [1u32, 2, 7, 12] {
        let input = FormationInput { formation_description: "ring".to_string(), unit_count: n };
        let p = build_formation_prompt(&input, &formation_output_typedef(), None, None);
        let start = p.find("{\"coordinates\":[").unwrap();
        let end = start + p[start..].find('\n').unwrap();
        let v: serde_json::Value = serde_json::from_str(&p[start..end]).unwrap();
        assert_eq!(v["coordinates"].as_array().unwrap().len(), n as usize);
        assert!(p.contains(&format!("Example output format (for {n} units):\n")));
    }
}

#[test]
fn decimal_text() {
    assert_eq!(decimal_string(0), "0");
    assert_eq!(decimal_string(7), "7");
    assert_eq!(decimal_string(10), "10");
    assert_eq!(decimal_string(4294967295), "4294967295");
    assert_eq!(decimal_string(u64::MAX), "18446744073709551615");
}

use rustwright::json::Json;
use rustwright::manifest::{
    prepare, read_manifest_json, select_cases, validate_manifest, validate_raw_step_fields, Case,
    Manifest, Step,
};

fn check(text: &str) -> Result<(), String> {
    validate_raw_step_fields(&Json::parse(text).unwrap())
}

fn case(id: &str) -> Case {
    Case {
        id: id.to_string(),
        description: None,
        html: None,
        url: None,
        steps: vec![Step::Title { capture: "t".to_string() }],
    }
}

fn manifest(ids: &[&str]) -> Manifest {
    Manifest { version: 1, cases: ids.iter().map(|id| case(id)).collect() }
}

fn ids(cases: &[&Case]) -> Vec<String> {
    cases.iter().map(|case| case.id.clone()).collect()
}

#[test]
fn known_fields_are_accepted() {
    let text = "{\"version\":1,\"cases\":[{\"id\":\"a\",\"steps\":[\
        {\"op\":\"goto\",\"url\":\"u\",\"useCaseHtml\":false,\"waitUntil\":\"load\"},\
        {\"op\":\"click\",\"selector\":\"s\"},\
        {\"op\":\"fill\",\"selector\":\"s\",\"value\":\"v\"},\
        {\"op\":\"title\",\"capture\":\"c\"},\
        {\"op\":\"textContent\",\"selector\":\"s\",\"capture\":\"c\"},\
        {\"op\":\"evaluate\",\"expression\":\"e\",\"arg\":1,\"capture\":\"c\"},\
        {\"op\":\"screenshot\",\"capture\":\"c\"},\
        {\"op\":\"assertTitle\",\"equals\":\"e\",\"contains\":\"c\"},\
        {\"op\":\"assertText\",\"selector\":\"s\",\"equals\":\"e\",\"contains\":\"c\"},\
        {\"op\":\"assertEval\",\"expression\":\"e\",\"equals\":null}]}]}";
    assert_eq!(check(text), Ok(()));
}

#[test]
fn misspelt_fields_are_faults() {
    assert_eq!(
        check("{\"cases\":[{\"id\":\"a\",\"steps\":[{\"op\":\"goto\",\"url\":\"u\",\"waitUntill\":\"load\"}]}]}"),
        Err("case \"a\" step 0 (op \"goto\"): unknown field \"waitUntill\"".to_string())
    );
    assert_eq!(
        check("{\"cases\":[{\"id\":\"a\",\"steps\":[{\"op\":\"title\",\"capture\":\"c\"},{\"op\":\"click\",\"selector\":\"s\",\"value\":\"v\"}]}]}"),
        Err("case \"a\" step 1 (op \"click\"): unknown field \"value\"".to_string())
    );
}

#[test]
fn steps_must_be_objects_with_a_known_op() {
    assert_eq!(
        check("{\"cases\":[{\"id\":1,\"steps\":[\"x\"]}]}"),
        Err("cases[0] step 0: not an object".to_string())
    );
    assert_eq!(
        check("{\"cases\":[{\"steps\":[]},{\"steps\":[{\"op\":1}]}]}"),
        Err("cases[1] step 0: missing string \"op\"".to_string())
    );
    assert_eq!(
        check("{\"cases\":[{\"id\":\"a\",\"steps\":[{}]}]}"),
        Err("case \"a\" step 0: missing string \"op\"".to_string())
    );
    assert_eq!(
        check("{\"cases\":[{\"id\":\"a\",\"steps\":[{\"op\":\"Goto\"}]}]}"),
        Err("case \"a\" step 0: unknown op \"Goto\"".to_string())
    );
}

#[test]
fn other_shapes_are_left_to_the_typed_reading() {
    assert_eq!(check("null"), Ok(()));
    assert_eq!(check("{\"cases\":{}}"), Ok(()));
    assert_eq!(check("{\"cases\":[1,{\"steps\":2}]}"), Ok(()));
}

#[test]
fn manifests_are_read_from_bytes() {
    assert_eq!(read_manifest_json(b"{\"cases\":[]}").unwrap().print(), "{\"cases\":[]}");
    let expected = serde_json::from_slice::<serde_json::Value>(b"{").unwrap_err();
    assert_eq!(
        read_manifest_json(b"{").unwrap_err(),
        format!("invalid manifest JSON: {}", expected)
    );
    assert_eq!(
        read_manifest_json(b"{\"cases\":[{\"steps\":[3]}]}").unwrap_err(),
        "cases[0] step 0: not an object"
    );
}

#[test]
fn manifests_need_cases_with_ids_and_steps() {
    assert_eq!(validate_manifest(&manifest(&["a", "b"])), Ok(()));
    assert_eq!(
        validate_manifest(&manifest(&[])),
        Err("manifest cases must not be empty".to_string())
    );
    assert_eq!(
        validate_manifest(&manifest(&["a", ""])),
        Err("case id must not be empty".to_string())
    );
    assert_eq!(
        validate_manifest(&manifest(&["a", "b", "a"])),
        Err("duplicate case id \"a\"".to_string())
    );
    let mut bare = manifest(&["a", "b"]);
    bare.cases[1].steps.clear();
    assert_eq!(validate_manifest(&bare), Err("case \"b\" has no steps".to_string()));
}

#[test]
fn selections_keep_the_order_of_the_manifest() {
    let all = manifest(&["a", "b", "c"]);
    assert_eq!(ids(&select_cases(&all, None).unwrap()), vec!["a", "b", "c"]);
    let wanted = vec!["c".to_string(), "a".to_string(), "c".to_string()];
    assert_eq!(ids(&select_cases(&all, Some(&wanted)).unwrap()), vec!["a", "c"]);
}

#[test]
fn selections_of_unknown_cases_are_refused() {
    let all = manifest(&["a", "b"]);
    let one = vec!["a".to_string(), "x".to_string()];
    assert_eq!(select_cases(&all, Some(&one)).unwrap_err(), "unknown case id(s): x");
    let two = vec!["y".to_string(), "x".to_string(), "y".to_string()];
    assert_eq!(select_cases(&all, Some(&two)).unwrap_err(), "unknown case id(s): y, x");
}

#[test]
fn preparation_checks_the_version_first() {
    let mut old = manifest(&[]);
    old.version = 12;
    assert_eq!(
        prepare(&old, None).unwrap_err(),
        "unsupported manifest version 12; expected 1"
    );
    assert_eq!(prepare(&manifest(&[]), None).unwrap_err(), "manifest cases must not be empty");
    let unknown = vec!["z".to_string()];
    assert_eq!(
        prepare(&manifest(&["a"]), Some(&unknown)).unwrap_err(),
        "unknown case id(s): z"
    );
    assert_eq!(ids(&prepare(&manifest(&["a"]), None).unwrap()), vec!["a"]);
}

use bellronos::error::BellronosError;
use bellronos::package_manager::{
    extract_package_version, needs_reinstall, package_file_name, parse_package_metadata,
    parse_search_results,
};

#[test]
fn metadata_record_parses() {
    let text = "{\"name\": \"geometry\", \"version\": \"1.2.0\", \"dependencies\": [\"algebra\"]}";
    let m = parse_package_metadata(text).expect("record should parse");
    assert_eq!(m.name, "geometry");
    assert_eq!(m.version, "1.2.0");
    assert_eq!(m.dependencies, vec![String::from("algebra")]);
}

#[test]
fn metadata_missing_fields_default() {
    let m = parse_package_metadata("{}").expect("record should parse");
    assert_eq!(m.name, "");
    assert_eq!(m.version, "");
    assert!(m.dependencies.is_empty());
}

#[test]
fn metadata_rejects_invalid_json() {
    match parse_package_metadata("not json") {
        Err(BellronosError::Parser(msg)) => assert!(msg.contains("metadata")),
        _ => panic!("expected a parser error"),
    }
}

#[test]
fn search_results_parse_as_names() {
    let names = parse_search_results("[\"a\", \"b\"]").expect("list should parse");
    assert_eq!(names, vec![String::from("a"), String::from("b")]);
    assert!(parse_search_results("{\"x\": 1}").is_err());
}

#[test]
fn version_line_is_extracted_and_trimmed() {
    let content = "# a package\n# Version: 1.2.3\nset x to 1\n";
    assert_eq!(extract_package_version(content).unwrap(), "1.2.3");
}

#[test]
fn version_missing_is_an_error() {
    match extract_package_version("set x to 1\n") {
        Err(BellronosError::Parser(msg)) => assert!(msg.contains("version")),
        _ => panic!("expected a parser error"),
    }
}

#[test]
fn package_files_carry_the_source_suffix() {
    assert_eq!(package_file_name("geometry"), "geometry.bellronos");
}

#[test]
fn update_reinstalls_only_on_version_change() {
    assert!(!needs_reinstall("1.0.0", "1.0.0"));
    assert!(needs_reinstall("1.0.0", "1.1.0"));
}

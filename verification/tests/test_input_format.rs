use serde_datalog::input_format::json::InputFormatJSON;
use serde_datalog::input_format::ron::InputFormatRON;
use serde_datalog::input_format::toml::InputFormatTOML;
use serde_datalog::input_format::yaml::InputFormatYAML;
use serde_datalog::input_format::{
    common_extension, find_by_extension, find_by_name, get_input_formats, print_formats,
    select_format, InputFormat,
};

fn extensions(files: &[Option<&str>]) -> Vec<Option<String>> {
    files.iter().map(|ext| ext.map(|s| s.to_string())).collect()
}

#[test]
fn formats_have_their_names_and_extensions() {
    assert_eq!(InputFormatJSON.name(), "json");
    assert_eq!(InputFormatJSON.file_extensions(), vec!["json"]);
    assert!(InputFormatJSON.has_string_keys());
    assert_eq!(InputFormatRON.name(), "ron");
    assert_eq!(InputFormatRON.file_extensions(), vec!["ron"]);
    assert!(!InputFormatRON.has_string_keys());
    assert_eq!(InputFormatTOML.name(), "toml");
    assert_eq!(InputFormatTOML.file_extensions(), vec!["toml"]);
    assert!(InputFormatTOML.has_string_keys());
    assert_eq!(InputFormatYAML.name(), "yaml");
    assert_eq!(InputFormatYAML.file_extensions(), vec!["yaml", "yml"]);
    assert!(!InputFormatYAML.has_string_keys());
    let names: Vec<&str> = get_input_formats().iter().map(|format| format.name()).collect();
    assert_eq!(names, vec!["json", "ron", "toml", "yaml"]);
}

#[test]
fn format_is_found_by_its_name() {
    let formats = get_input_formats();
    assert_eq!(find_by_name(&formats, "json"), Ok(0));
    assert_eq!(find_by_name(&formats, "yaml"), Ok(3));
    assert_eq!(find_by_name(&formats, "yml"), Err("Unknown input format yml".to_string()));
    assert_eq!(find_by_name(&formats, ""), Err("Unknown input format ".to_string()));
}

#[test]
fn format_is_found_by_an_extension() {
    let formats = get_input_formats();
    assert_eq!(find_by_extension(&formats, "ron"), Ok(1));
    assert_eq!(find_by_extension(&formats, "toml"), Ok(2));
    assert_eq!(find_by_extension(&formats, "yml"), Ok(3));
    assert_eq!(find_by_extension(&formats, "yaml"), Ok(3));
    assert_eq!(
        find_by_extension(&formats, "txt"),
        Err("Unknown file extension txt".to_string())
    );
}

#[test]
fn files_must_share_one_extension() {
    assert_eq!(
        common_extension(&extensions(&[Some("json"), Some("json")])),
        Ok("json".to_string())
    );
    assert_eq!(common_extension(&extensions(&[Some("yml")])), Ok("yml".to_string()));
    assert_eq!(
        common_extension(&extensions(&[])),
        Err("Unknown or missing file extension".to_string())
    );
    assert_eq!(
        common_extension(&extensions(&[Some("json"), None, Some("toml")])),
        Err("Missing file extension".to_string())
    );
    assert_eq!(
        common_extension(&extensions(&[None])),
        Err("Missing file extension".to_string())
    );
    assert_eq!(
        common_extension(&extensions(&[Some("json"), Some("toml"), None])),
        Err(
            "Input format must be unique; found extensions json and toml for different formats"
                .to_string()
        )
    );
}

#[test]
fn format_is_selected_by_name_before_extension() {
    let formats = get_input_formats();
    let files = extensions(&[Some("json")]);
    assert_eq!(select_format(&formats, Some("ron"), &files), Ok(1));
    assert_eq!(select_format(&formats, None, &files), Ok(0));
    assert_eq!(
        select_format(&formats, Some("xml"), &files),
        Err("Unknown input format xml".to_string())
    );
    assert_eq!(
        select_format(&formats, None, &extensions(&[Some("xml")])),
        Err("Unknown file extension xml".to_string())
    );
    assert_eq!(
        select_format(&formats, None, &extensions(&[])),
        Err("Unknown or missing file extension".to_string())
    );
    assert_eq!(
        select_format(&formats, None, &extensions(&[Some("yaml"), Some("yml")])),
        Err(
            "Input format must be unique; found extensions yaml and yml for different formats"
                .to_string()
        )
    );
}

#[test]
fn supported_formats_are_listed() {
    assert_eq!(
        print_formats(&get_input_formats()),
        vec![
            "Supported input formats:",
            "- json (extensions: .json)",
            "- ron (extensions: .ron)",
            "- toml (extensions: .toml)",
            "- yaml (extensions: .yaml, .yml)",
        ]
    );
}

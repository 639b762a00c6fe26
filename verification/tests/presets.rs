//! Choosing a preset from what a preset file holds.

use hbwatch::path::FilePath;
use hbwatch::preset::{load_preset, PresetError, PresetFile, PresetInfo, PresetNode};
use serde_json::Value;

fn node(value: &Value) -> PresetNode {
    let text = |key: &str| value.get(key).and_then(Value::as_str).map(str::to_owned);
    PresetNode {
        preset_name: text("PresetName"),
        file_format: text("FileFormat"),
        folder: value.get("Folder").and_then(Value::as_bool).unwrap_or(false),
        children: nodes(value.get("ChildrenArray")),
    }
}

fn nodes(value: Option<&Value>) -> Vec<PresetNode> {
    match value.and_then(Value::as_array) {
        Some(list) => list.iter().map(node).collect(),
        None => Vec::new(),
    }
}

fn load(name: &str, content: &str, wanted: Option<&str>) -> Result<PresetInfo, PresetError> {
    let parsed: Value = serde_json::from_str(content).unwrap();
    let file = PresetFile {
        preset_list: nodes(parsed.get("PresetList")),
    };
    let path = FilePath::from_text(&format!("/tmp/hbwatch-test-{name}.json"));
    load_preset(&file, wanted, &path)
}

#[test]
fn reads_flat_preset() {
    let info = load(
        "flat",
        r#"{"PresetList":[{"PresetName":"My 1080p","FileFormat":"av_mp4"}]}"#,
        None,
    )
    .unwrap();
    assert_eq!(info.name, "My 1080p");
    assert_eq!(info.file_format.as_deref(), Some("av_mp4"));
}

#[test]
fn recurses_into_folder_structured_preset() {
    let info = load(
        "nested",
        r#"{"PresetList":[{"Folder":true,"PresetName":"Group",
            "ChildrenArray":[{"PresetName":"Deep 4K","FileFormat":"av_mkv"}]}]}"#,
        None,
    )
    .unwrap();
    assert_eq!(info.name, "Deep 4K");
}

#[test]
fn honors_name_override() {
    let info = load(
        "override",
        r#"{"PresetList":[{"PresetName":"A"},{"PresetName":"B"}]}"#,
        Some("B"),
    )
    .unwrap();
    assert_eq!(info.name, "B");
}

#[test]
fn errors_on_missing_override() {
    assert!(load("missing", r#"{"PresetList":[{"PresetName":"A"}]}"#, Some("Z")).is_err());
}

#[test]
fn missing_override_is_named_in_the_error() {
    let error = load("missing", r#"{"PresetList":[{"PresetName":"A"}]}"#, Some("Z")).unwrap_err();
    assert_eq!(
        error.message(),
        "preset 'Z' not found in /tmp/hbwatch-test-missing.json"
    );
}

#[test]
fn a_file_without_presets_is_an_error() {
    let error = load("empty", r#"{"PresetList":[]}"#, None).unwrap_err();
    assert_eq!(
        error.message(),
        "no presets found in /tmp/hbwatch-test-empty.json"
    );
    let nameless = load("nameless", r#"{"PresetList":[{"FileFormat":"av_mp4"}]}"#, None);
    assert!(matches!(nameless, Err(PresetError::Empty { .. })));
    assert_eq!(
        PresetError::Unnamed.message(),
        "preset leaf has no PresetName"
    );
}

#[test]
fn a_folder_is_no_preset_even_when_it_is_named_or_empty() {
    let content = r#"{"PresetList":[{"Folder":true,"PresetName":"Group"},{"PresetName":"Real"}]}"#;
    assert_eq!(load("folder", content, None).unwrap().name, "Real");
    assert!(load("folder", content, Some("Group")).is_err());
}

#[test]
fn the_first_preset_of_a_name_is_taken() {
    let content = r#"{"PresetList":[
        {"PresetName":"X","ChildrenArray":[{"PresetName":"A","FileFormat":"first"}]},
        {"PresetName":"A","FileFormat":"second"}]}"#;
    let info = load("twice", content, Some("A")).unwrap();
    assert_eq!(info.file_format.as_deref(), Some("first"));
}

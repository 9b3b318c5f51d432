use versioner::manifest::compute_release;
use versioner::release::ReleaseError;

fn messages(texts: &[&str]) -> Vec<String> {
    texts.iter().map(|t| t.to_string()).collect()
}

#[test]
fn release_rewrites_the_version_field() {
    let manifest = "{\n  \"name\": \"widget\",\n  \"version\": \"2.4.1\"\n}";
    let msgs = messages(&["fix: bug", "feat: add widget", "chore: cleanup"]);
    let updated = compute_release(manifest, &msgs).unwrap();
    let doc: serde_json::Value = serde_json::from_str(&updated).unwrap();
    assert_eq!(doc["version"].as_str(), Some("2.5.0"));
    assert_eq!(doc["name"].as_str(), Some("widget"));
}

#[test]
fn release_leaves_other_fields_unchanged() {
    let manifest = "{\"version\": \"0.1.0\", \"dependencies\": {\"left\": \"1.0\"}, \"private\": true}";
    let msgs = messages(&["breaking: new config format"]);
    let updated = compute_release(manifest, &msgs).unwrap();
    let doc: serde_json::Value = serde_json::from_str(&updated).unwrap();
    assert_eq!(doc["version"].as_str(), Some("1.0.0"));
    assert_eq!(doc["dependencies"]["left"].as_str(), Some("1.0"));
    assert_eq!(doc["private"].as_bool(), Some(true));
}

#[test]
fn release_rejects_malformed_manifest() {
    let msgs = messages(&["fix: bug"]);
    assert_eq!(
        compute_release("not json at all", &msgs),
        Err(ReleaseError::ManifestParse)
    );
}

#[test]
fn release_rejects_missing_version_field() {
    let msgs = messages(&["fix: bug"]);
    assert_eq!(
        compute_release("{\"name\": \"widget\"}", &msgs),
        Err(ReleaseError::MissingVersion)
    );
}

#[test]
fn release_rejects_non_string_version_field() {
    let msgs = messages(&["fix: bug"]);
    assert_eq!(
        compute_release("{\"version\": 3}", &msgs),
        Err(ReleaseError::MissingVersion)
    );
}

#[test]
fn release_rejects_malformed_version_value() {
    let msgs = messages(&["fix: bug"]);
    assert_eq!(
        compute_release("{\"version\": \"1.2\"}", &msgs),
        Err(ReleaseError::VersionFormat)
    );
}

#[test]
fn release_reports_version_overflow() {
    let msgs = messages(&["breaking: remove api"]);
    assert_eq!(
        compute_release("{\"version\": \"4294967295.0.0\"}", &msgs),
        Err(ReleaseError::VersionOverflow)
    );
}

#[test]
fn release_on_empty_history_bumps_patch() {
    let msgs: Vec<String> = Vec::new();
    let manifest = "{\"version\": \"1.2.3\"}";
    let updated = compute_release(manifest, &msgs).unwrap();
    let doc: serde_json::Value = serde_json::from_str(&updated).unwrap();
    assert_eq!(doc["version"].as_str(), Some("1.2.4"));
}

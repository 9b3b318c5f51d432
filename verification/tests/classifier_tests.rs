use versioner::version_calculator::calculate_version_type;
use versioner::version_type::VersionType;

fn messages(texts: &[&str]) -> Vec<String> {
    texts.iter().map(|t| t.to_string()).collect()
}

#[test]
fn classify_empty_batch_is_patch() {
    let msgs: Vec<String> = Vec::new();
    assert_eq!(calculate_version_type(&msgs), VersionType::Patch);
}

#[test]
fn classify_unrecognized_prefixes_are_patch() {
    let msgs = messages(&["fix: bug", "chore: cleanup", "docs: readme"]);
    assert_eq!(calculate_version_type(&msgs), VersionType::Patch);
}

#[test]
fn classify_feature_forces_minor() {
    let msgs = messages(&["fix: bug", "feat: add widget"]);
    assert_eq!(calculate_version_type(&msgs), VersionType::Minor);
}

#[test]
fn classify_breaking_forces_major() {
    let msgs = messages(&["chore: cleanup", "feat: add widget", "breaking: remove api"]);
    assert_eq!(calculate_version_type(&msgs), VersionType::Major);
}

#[test]
fn classify_single_breaking_among_many_is_major() {
    let msgs = messages(&[
        "fix: a",
        "fix: b",
        "feat: c",
        "breaking: d",
        "chore: e",
        "feat: f",
    ]);
    assert_eq!(calculate_version_type(&msgs), VersionType::Major);
}

#[test]
fn classify_is_order_independent() {
    let a = messages(&["fix: bug", "feat: add widget", "chore: cleanup"]);
    let b = messages(&["chore: cleanup", "fix: bug", "feat: add widget"]);
    let c = messages(&["feat: add widget", "chore: cleanup", "fix: bug"]);
    let ra = calculate_version_type(&a);
    assert_eq!(ra, calculate_version_type(&b));
    assert_eq!(ra, calculate_version_type(&c));
    assert_eq!(ra, VersionType::Minor);
}

#[test]
fn classify_prefix_must_start_the_message() {
    let msgs = messages(&["this is not a feat", "nothing breaking here either"]);
    assert_eq!(calculate_version_type(&msgs), VersionType::Patch);
}

#[test]
fn classify_prefix_alone_counts() {
    let msgs = messages(&["feat"]);
    assert_eq!(calculate_version_type(&msgs), VersionType::Minor);
    let msgs2 = messages(&["breaking"]);
    assert_eq!(calculate_version_type(&msgs2), VersionType::Major);
}

use versioner::release::compute_next;
use versioner::release::next_version_string;
use versioner::release::ReleaseError;
use versioner::release::VersionOverflowError;
use versioner::version::Version;
use versioner::version_type::VersionType;

fn messages(texts: &[&str]) -> Vec<String> {
    texts.iter().map(|t| t.to_string()).collect()
}

#[test]
fn bump_minor_increments_minor_and_zeroes_patch() {
    let v = Version { major: 1, minor: 2, patch: 3 };
    let next = compute_next(&v, VersionType::Minor).unwrap();
    assert_eq!(next, Version { major: 1, minor: 3, patch: 0 });
}

#[test]
fn bump_major_increments_major_and_zeroes_rest() {
    let v = Version { major: 1, minor: 2, patch: 3 };
    let next = compute_next(&v, VersionType::Major).unwrap();
    assert_eq!(next, Version { major: 2, minor: 0, patch: 0 });
}

#[test]
fn bump_patch_increments_patch_alone() {
    let v = Version { major: 1, minor: 2, patch: 3 };
    let next = compute_next(&v, VersionType::Patch).unwrap();
    assert_eq!(next, Version { major: 1, minor: 2, patch: 4 });
}

#[test]
fn bump_overflow_fails_instead_of_wrapping() {
    let v = Version { major: u32::MAX, minor: 0, patch: 0 };
    assert_eq!(compute_next(&v, VersionType::Major), Err(VersionOverflowError {}));
    let w = Version { major: 0, minor: u32::MAX, patch: 0 };
    assert_eq!(compute_next(&w, VersionType::Minor), Err(VersionOverflowError {}));
    let u = Version { major: 0, minor: 0, patch: u32::MAX };
    assert_eq!(compute_next(&u, VersionType::Patch), Err(VersionOverflowError {}));
}

#[test]
fn bump_overflow_only_on_the_bumped_component() {
    let v = Version { major: 1, minor: u32::MAX, patch: u32::MAX };
    let next = compute_next(&v, VersionType::Major).unwrap();
    assert_eq!(next, Version { major: 2, minor: 0, patch: 0 });
}

#[test]
fn pipeline_feature_batch_bumps_minor() {
    let msgs = messages(&["fix: bug", "feat: add widget", "chore: cleanup"]);
    let next = next_version_string("2.4.1", &msgs).unwrap();
    assert_eq!(next, "2.5.0");
}

#[test]
fn pipeline_breaking_batch_bumps_major() {
    let msgs = messages(&["breaking: remove api", "fix: bug"]);
    let next = next_version_string("2.4.1", &msgs).unwrap();
    assert_eq!(next, "3.0.0");
}

#[test]
fn pipeline_patch_batch_bumps_patch() {
    let msgs = messages(&["fix: bug"]);
    let next = next_version_string("2.4.1", &msgs).unwrap();
    assert_eq!(next, "2.4.2");
}

#[test]
fn pipeline_rejects_malformed_version() {
    let msgs = messages(&["fix: bug"]);
    assert_eq!(next_version_string("2.4", &msgs), Err(ReleaseError::VersionFormat));
    assert_eq!(next_version_string("abc", &msgs), Err(ReleaseError::VersionFormat));
}

#[test]
fn pipeline_reports_overflow() {
    let msgs = messages(&["breaking: remove api"]);
    assert_eq!(
        next_version_string("4294967295.0.0", &msgs),
        Err(ReleaseError::VersionOverflow)
    );
}

use triflow_ai::identity::get_app_version;
use triflow_ai::semver::is_semantic_version;

#[test]
fn the_app_version_has_the_format() {
    assert!(is_semantic_version(&get_app_version()));
}

#[test]
fn plain_cores_are_accepted() {
    for version in ["0.0.0", "0.0.4", "0.1.0", "1.2.3", "10.20.30", "1.0.0", "2.0.0", "1.1.7"] {
        assert!(is_semantic_version(version), "{}", version);
    }
}

#[test]
fn numbers_of_any_length_are_accepted() {
    assert!(is_semantic_version(
        "99999999999999999999999.999999999999999999.99999999999999999"
    ));
}

#[test]
fn pre_releases_are_accepted() {
    for version in [
        "1.0.0-alpha",
        "1.0.0-beta",
        "1.0.0-alpha.beta",
        "1.0.0-alpha.beta.1",
        "1.0.0-alpha.1",
        "1.0.0-alpha0.valid",
        "1.0.0-alpha.0valid",
        "1.0.0-0A.is.legal",
        "1.0.0-0",
        "1.2.3-beta",
        "10.2.3-DEV-SNAPSHOT",
        "1.2.3-SNAPSHOT-123",
        "2.0.1-alpha.1227",
        "1.2.3----RC-SNAPSHOT.12.9.1--.12",
        "1.0.0--",
    ] {
        assert!(is_semantic_version(version), "{}", version);
    }
}

#[test]
fn build_metadata_is_accepted() {
    for version in [
        "1.1.2+meta",
        "1.1.2+meta-valid",
        "2.0.0+build.1848",
        "1.0.0+0.build.1-rc.10000aaa-kk-0.1",
        "1.0.0+001",
        "1.0.0+0123.0123",
    ] {
        assert!(is_semantic_version(version), "{}", version);
    }
}

#[test]
fn pre_release_with_build_metadata_is_accepted() {
    for version in [
        "1.1.2-prerelease+meta",
        "1.0.0-alpha-a.b-c-somethinglong+build.1-aef.1-its-okay",
        "1.0.0-rc.1+build.1",
        "2.0.0-rc.1+build.123",
        "1.0.0-alpha+beta",
        "1.2.3----RC-SNAPSHOT.12.9.1--.12+788",
        "1.2.3----R-S.12.9.1--.12+meta",
    ] {
        assert!(is_semantic_version(version), "{}", version);
    }
}

#[test]
fn the_empty_string_is_refused() {
    assert!(!is_semantic_version(""));
}

#[test]
fn incomplete_cores_are_refused() {
    for version in ["1", "1.2", "1.", "1.2.", ".1.2", "1..2", "..", "1.2.3.4", "1.2.3.DEV"] {
        assert!(!is_semantic_version(version), "{}", version);
    }
}

#[test]
fn leading_zeros_in_the_core_are_refused() {
    for version in ["01.1.1", "1.01.1", "1.1.01", "00.0.0"] {
        assert!(!is_semantic_version(version), "{}", version);
    }
}

#[test]
fn leading_zeros_in_numeric_pre_release_identifiers_are_refused() {
    for version in ["1.2.3-0123", "1.2.3-0123.0123", "1.2.3-alpha.01", "1.2.3-00"] {
        assert!(!is_semantic_version(version), "{}", version);
    }
}

#[test]
fn empty_identifiers_are_refused() {
    for version in [
        "1.0.0-",
        "1.0.0+",
        "1.0.0-+build",
        "1.0.0-alpha+",
        "1.1.2+.123",
        "1.0.0-alpha.",
        "1.0.0-alpha..",
        "1.0.0-alpha..1",
        "1.0.0-.alpha",
        "1.0.0+build.",
        "1.0.0+a..b",
    ] {
        assert!(!is_semantic_version(version), "{}", version);
    }
}

#[test]
fn words_without_a_core_are_refused() {
    for version in [
        "+invalid",
        "-invalid",
        "-invalid+invalid",
        "-invalid.01",
        "alpha",
        "alpha.beta",
        "alpha.beta.1",
        "alpha.1",
        "alpha+beta",
        "alpha_beta",
        "alpha.",
        "+justmeta",
        "-1.0.3-gamma+b7718",
        "1.2-SNAPSHOT",
        "1.2-RC-SNAPSHOT",
    ] {
        assert!(!is_semantic_version(version), "{}", version);
    }
}

#[test]
fn characters_outside_the_alphabet_are_refused() {
    for version in [
        "1.0.0-alpha_beta",
        "1.0.0 ",
        " 1.0.0",
        "1.0.0-al pha",
        "1.0.0+meta!",
        "v1.0.0",
        "1.0.0-\u{e9}",
        "1.0.\u{662}",
        "\u{ff11}.0.0",
    ] {
        assert!(!is_semantic_version(version), "{}", version);
    }
}

#[test]
fn a_second_plus_is_refused() {
    for version in ["9.8.7+meta+meta", "9.8.7-whatever+meta+meta", "1.0.0++"] {
        assert!(!is_semantic_version(version), "{}", version);
    }
}

#[test]
fn the_display_name_is_no_version() {
    assert!(!is_semantic_version("TriFlow AI"));
}

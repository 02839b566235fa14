use triflow_ai::identity::{get_app_name, get_app_version, APP_NAME, APP_VERSION};

#[test]
fn app_name_is_the_display_name() {
    assert_eq!(get_app_name(), "TriFlow AI");
    assert_eq!(get_app_name(), APP_NAME);
}

#[test]
fn app_name_is_the_same_on_every_call() {
    let first = get_app_name();
    let second = get_app_name();
    let third = get_app_name();
    assert_eq!(first, second);
    assert_eq!(second, third);
}

#[test]
fn app_version_is_the_package_version() {
    assert_eq!(get_app_version(), "0.1.0");
    assert_eq!(get_app_version(), APP_VERSION);
}

#[test]
fn app_version_is_the_same_on_every_call() {
    let first = get_app_version();
    let second = get_app_version();
    assert_eq!(first, second);
}

#[test]
fn accessors_interleaved_do_not_disturb_each_other() {
    let name_before = get_app_name();
    let version = get_app_version();
    let name_after = get_app_name();
    assert_eq!(name_before, name_after);
    assert_eq!(version, get_app_version());
    assert_ne!(name_before, version);
}

//! Updating an installed copy. Nothing here downloads or runs anything.

use jev_pilot::update::{is_newer, plan, Plan};

#[test]
fn an_installed_copy_is_updated_by_its_installer() {
    let plan = plan("/home/ana/.jev-pilot/bin/jev-pilot", "/home/ana", false);

    let Plan::Installer { program, args } = plan else {
        panic!("expected the installer, got {plan:?}");
    };
    assert_eq!(program, "sh");
    assert!(args.join(" ").contains("jev-pilot-installer.sh"), "{args:?}");
    assert_eq!(args[0], "-c");
}

#[test]
fn a_windows_copy_is_updated_by_the_powershell_installer() {
    let plan = plan("C:/Users/ana/.jev-pilot/bin/jev-pilot.exe", "C:/Users/ana", true);

    let Plan::Installer { program, args } = plan else {
        panic!("expected the installer, got {plan:?}");
    };
    assert_eq!(program, "powershell");
    assert!(args.join(" ").contains("jev-pilot-installer.ps1"), "{args:?}");
}

#[test]
fn a_copy_built_from_source_is_pointed_at_cargo() {
    let plan = plan("/home/ana/.cargo/bin/jev-pilot", "/home/ana", false);

    let Plan::FromSource { hint } = plan else {
        panic!("expected a hint, got {plan:?}");
    };
    assert!(hint.contains("cargo install"), "{hint}");
    assert!(hint.contains("(/home/ana/.cargo/bin/jev-pilot)"), "{hint}");
}

#[test]
fn a_release_is_newer_only_when_its_version_is_higher() {
    assert!(is_newer("0.1.2", "v0.1.3"));
    assert!(is_newer("0.1.9", "0.2.0"));
    assert!(is_newer("0.9.0", "v0.10.0"));
    assert!(!is_newer("0.1.2", "v0.1.2"));
    assert!(!is_newer("0.2.0", "v0.1.9"));
    assert!(!is_newer("0.1.2", "not a version"));
}

#[test]
fn a_version_must_have_exactly_three_numbers() {
    assert!(!is_newer("0.1.2", "v0.2"));
    assert!(!is_newer("0.1.2", "v0.2.0.1"));
    assert!(is_newer(" v1.0.0 ", "vv1.0.1"));
}

use cyberplug::omarchy::{add, catalog, disable, enable, exit_failure, launch_failure, remove, update};

fn strs(v: &[String]) -> Vec<&str> {
    v.iter().map(|s| s.as_str()).collect()
}

#[test]
fn catalog_arguments() {
    assert_eq!(strs(&catalog()), vec!["plugin", "catalog"]);
}

#[test]
fn enable_arguments_with_and_without_placement() {
    assert_eq!(strs(&enable("weather", Some("left"))), vec!["plugin", "enable", "weather", "left"]);
    assert_eq!(strs(&enable("weather", None)), vec!["plugin", "enable", "weather"]);
}

#[test]
fn disable_and_remove_arguments() {
    assert_eq!(strs(&disable("clock")), vec!["plugin", "disable", "clock"]);
    assert_eq!(strs(&remove("clock")), vec!["plugin", "remove", "clock", "--yes"]);
}

#[test]
fn add_arguments() {
    assert_eq!(
        strs(&add("https://x/y.git", false)),
        vec!["plugin", "add", "https://x/y.git", "--yes"]
    );
    assert_eq!(
        strs(&add("https://x/y.git", true)),
        vec!["plugin", "add", "https://x/y.git", "--yes", "--enable"]
    );
}

#[test]
fn update_arguments() {
    assert_eq!(strs(&update(Some("clock"))), vec!["plugin", "update", "clock", "--yes"]);
    assert_eq!(strs(&update(None)), vec!["plugin", "update", "--yes"]);
}

#[test]
fn failure_messages() {
    let args = disable("clock");
    assert_eq!(launch_failure(&args), "failed to execute `omarchy plugin disable clock`");
    assert_eq!(
        exit_failure(&args, "  no such plugin\n"),
        "`omarchy plugin disable clock` failed: no such plugin"
    );
}

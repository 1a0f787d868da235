use rn_run::checks::{
    check_android_sdk, check_cocoapods, check_environment, check_java, check_node, check_npm,
    check_ruby, check_watchman, check_xcode, check_yarn, version_from_output,
};

#[test]
fn node_check_with_version() {
    let c = check_node(Some("v20.11.0".to_string()));
    assert_eq!(c.name, "node");
    assert!(c.ok);
    assert_eq!(c.version, Some("v20.11.0".to_string()));
    assert!(c.error.is_none() && c.fix.is_none());
    assert_eq!(c.required_for, vec!["ios".to_string(), "android".to_string()]);
}

#[test]
fn node_check_missing() {
    let c = check_node(None);
    assert!(!c.ok);
    assert_eq!(c.error.as_deref(), Some("Node.js not found"));
    assert_eq!(c.fix.as_deref(), Some("Install Node.js: brew install node OR https://nodejs.org"));
}

#[test]
fn npm_check_missing() {
    let c = check_npm(None);
    assert_eq!(c.name, "npm");
    assert_eq!(c.error.as_deref(), Some("npm not found"));
    assert_eq!(c.fix.as_deref(), Some("npm comes with Node.js. Reinstall Node.js."));
}

#[test]
fn yarn_is_optional() {
    let c = check_yarn(None);
    assert!(!c.ok);
    assert!(c.required_for.is_empty());
    assert_eq!(c.error.as_deref(), Some("yarn not found (optional, needed for RN < 0.74)"));
}

#[test]
fn watchman_check_missing() {
    let c = check_watchman(None);
    assert_eq!(c.error.as_deref(), Some("watchman not found"));
    assert_eq!(c.fix.as_deref(), Some("Install watchman: brew install watchman"));
}

#[test]
fn cocoapods_and_ruby_are_ios_only() {
    assert_eq!(check_cocoapods(Some("1.15.2".to_string())).required_for, vec!["ios".to_string()]);
    assert_eq!(check_ruby(None).required_for, vec!["ios".to_string()]);
}

#[test]
fn java_is_android_only() {
    let c = check_java(None);
    assert_eq!(c.required_for, vec!["android".to_string()]);
    assert_eq!(c.fix.as_deref(), Some("Install Java: brew install openjdk@17"));
}

#[test]
fn xcode_needs_the_license_accepted() {
    let ok = check_xcode(Some("Xcode 15.2".to_string()), true);
    assert!(ok.ok);
    let unlicensed = check_xcode(Some("Xcode 15.2".to_string()), false);
    assert!(!unlicensed.ok);
    assert_eq!(unlicensed.version, Some("Xcode 15.2".to_string()));
    assert_eq!(
        unlicensed.error.as_deref(),
        Some("Xcode license not accepted or first launch not complete")
    );
    assert_eq!(unlicensed.fix.as_deref(), Some("Run: sudo xcodebuild -license accept"));
    let missing = check_xcode(None, false);
    assert_eq!(missing.error.as_deref(), Some("Xcode not found"));
}

#[test]
fn android_sdk_reports_its_location() {
    let c = check_android_sdk(Some("/opt/android".to_string()), true);
    assert!(c.ok);
    assert_eq!(c.version.as_deref(), Some("ANDROID_HOME=/opt/android"));
    let broken = check_android_sdk(Some("/missing".to_string()), false);
    assert!(!broken.ok);
    assert_eq!(
        broken.error.as_deref(),
        Some("ANDROID_HOME points to non-existent path: /missing")
    );
    let unset = check_android_sdk(None, false);
    assert_eq!(unset.error.as_deref(), Some("ANDROID_HOME not set"));
}

#[test]
fn environment_all_ok() {
    let checks = vec![check_node(Some("v20".to_string())), check_yarn(Some("1.22".to_string()))];
    let result = check_environment(checks);
    assert_eq!(result.overall_status, "ok");
    assert_eq!(result.summary, "All development tools are properly installed.");
    assert_eq!(result.checks.len(), 2);
}

#[test]
fn environment_with_missing_required_tool() {
    let checks = vec![check_node(None), check_yarn(Some("1.22".to_string()))];
    let result = check_environment(checks);
    assert_eq!(result.overall_status, "errors");
    assert_eq!(
        result.summary,
        "Some required tools are missing. See 'fix' field for each failed check."
    );
}

#[test]
fn environment_with_missing_optional_tool() {
    let checks = vec![check_node(Some("v20".to_string())), check_yarn(None)];
    let result = check_environment(checks);
    assert_eq!(result.overall_status, "warnings");
    assert_eq!(result.summary, "All required tools present. Some optional tools missing.");
}

#[test]
fn version_comes_from_stdout_when_present() {
    assert_eq!(version_from_output("  v20.11.0\nextra\n", "ignored"), "v20.11.0");
}

#[test]
fn version_falls_back_to_stderr() {
    assert_eq!(version_from_output("   \n", "openjdk version \"17\"\nmore\n"), "openjdk version \"17\"");
}

#[test]
fn version_of_empty_output_is_empty() {
    assert_eq!(version_from_output("", ""), "");
}

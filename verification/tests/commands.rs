use rn_run::args::{platform_choice, Args, PlatformChoice};
use rn_run::commands::{
    escape_quotes, package_manager_for, packager_script, parse_pids, sim_command,
    terminal_do_script,
};

fn args(ios: bool, android: bool, simulator: Option<&str>) -> Args {
    Args { ios, android, simulator: simulator.map(|s| s.to_string()), clean_install: false }
}

#[test]
fn package_manager_is_npm_from_074() {
    assert_eq!(package_manager_for("0.74.1"), "npm");
    assert_eq!(package_manager_for("0.75.0"), "npm");
}

#[test]
fn package_manager_is_yarn_below_074() {
    assert_eq!(package_manager_for("0.69.5"), "yarn");
    assert_eq!(package_manager_for("0.73.2"), "yarn");
}

#[test]
fn ios_on_modern_react_native_uses_npx_with_the_simulator() {
    let cmd = sim_command(&args(true, false, Some("iPhone 16")), "0.74.1");
    assert_eq!(cmd, "npm run prebuild && npx react-native run-ios --simulator=\"iPhone 16\"");
}

#[test]
fn ios_without_a_simulator_uses_the_default() {
    let cmd = sim_command(&args(true, false, None), "0.75.0");
    assert_eq!(cmd, "npm run prebuild && npx react-native run-ios --simulator=\"iPhone 15\"");
}

#[test]
fn ios_on_the_069_line_uses_yarn() {
    assert_eq!(sim_command(&args(true, false, None), "0.69.5"), "yarn react-native run-ios");
}

#[test]
fn android_commands() {
    assert_eq!(
        sim_command(&args(false, true, None), "0.74.0"),
        "npm run prebuild && npx react-native run-android"
    );
    assert_eq!(sim_command(&args(false, true, None), "0.69.1"), "yarn react-native run-android");
}

#[test]
fn unsupported_version_prints_the_hint() {
    assert_eq!(
        sim_command(&args(true, false, None), "0.71.0"),
        "echo \"No platform specified, use --help for more info\""
    );
}

#[test]
fn quotes_are_escaped_for_applescript() {
    assert_eq!(escape_quotes("say \"hi\""), "say \\\"hi\\\"");
    assert_eq!(escape_quotes("plain"), "plain");
}

#[test]
fn do_script_wraps_the_escaped_command() {
    let script = terminal_do_script("/proj", "echo \"x\"");
    assert_eq!(
        script,
        "tell application \"Terminal\" to do script \"cd /proj; echo \\\"x\\\"\""
    );
}

#[test]
fn packager_script_starts_yarn() {
    assert_eq!(
        packager_script("/proj"),
        "tell application \"Terminal\" to do script \"cd /proj; yarn start\""
    );
}

#[test]
fn pids_parse_from_port_scan_output() {
    assert_eq!(parse_pids("123 456\n789\n"), Some(vec![123, 456, 789]));
}

#[test]
fn empty_scan_output_has_no_pids() {
    assert_eq!(parse_pids(""), Some(vec![]));
    assert_eq!(parse_pids("  \n "), Some(vec![]));
}

#[test]
fn non_numeric_token_fails_the_parse() {
    assert_eq!(parse_pids("123 abc"), None);
    assert_eq!(parse_pids("12a"), None);
}

#[test]
fn out_of_range_pid_fails_the_parse() {
    assert_eq!(parse_pids("99999999999"), None);
    assert_eq!(parse_pids("4294967295"), Some(vec![4294967295]));
}

#[test]
fn platform_choice_dispatch() {
    assert!(matches!(platform_choice(&args(true, false, None)), PlatformChoice::Ios));
    assert!(matches!(platform_choice(&args(false, true, None)), PlatformChoice::Android));
    assert!(matches!(platform_choice(&args(true, true, None)), PlatformChoice::Both));
    assert!(matches!(platform_choice(&args(false, false, None)), PlatformChoice::Neither));
}

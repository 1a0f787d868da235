use rn_run::devices::{parse_emulators, parse_simulators, SimDevice, SimRuntime};

fn device(name: &str, state: &str, available: Option<bool>) -> SimDevice {
    SimDevice {
        name: name.to_string(),
        udid: format!("udid-{}", name),
        state: state.to_string(),
        is_available: available,
    }
}

#[test]
fn only_ios_runtimes_are_listed() {
    let runtimes = vec![
        SimRuntime {
            runtime: "com.apple.CoreSimulator.SimRuntime.iOS-17-2".to_string(),
            devices: vec![device("iPhone 15", "Shutdown", Some(true))],
        },
        SimRuntime {
            runtime: "com.apple.CoreSimulator.SimRuntime.watchOS-10-2".to_string(),
            devices: vec![device("Watch", "Shutdown", Some(true))],
        },
    ];
    let result = parse_simulators(&runtimes);
    assert_eq!(result.simulators.len(), 1);
    assert_eq!(result.simulators[0].name, "iPhone 15");
    assert_eq!(result.simulators[0].udid, "udid-iPhone 15");
    assert_eq!(result.simulators[0].state, "Shutdown");
    assert_eq!(result.simulators[0].runtime, "com.apple.CoreSimulator.SimRuntime.iOS-17-2");
}

#[test]
fn unavailable_devices_are_skipped() {
    let runtimes = vec![SimRuntime {
        runtime: "iOS 16.4".to_string(),
        devices: vec![
            device("a", "Shutdown", Some(false)),
            device("b", "Booted", Some(true)),
            device("c", "Shutdown", None),
        ],
    }];
    let result = parse_simulators(&runtimes);
    let names: Vec<&str> = result.simulators.iter().map(|s| s.name.as_str()).collect();
    assert_eq!(names, vec!["b", "c"]);
}

#[test]
fn empty_report_lists_nothing() {
    let result = parse_simulators(&Vec::new());
    assert!(result.simulators.is_empty());
}

#[test]
fn emulator_names_are_the_non_blank_lines() {
    let result = parse_emulators("Pixel_3\n\nPixel_4\n");
    assert_eq!(result.emulators, vec!["Pixel_3".to_string(), "Pixel_4".to_string()]);
}

#[test]
fn emulator_listing_keeps_lines_verbatim_and_strips_line_endings() {
    let result = parse_emulators("Pixel 5 API 33\r\n  \r\nlast");
    assert_eq!(result.emulators, vec!["Pixel 5 API 33".to_string(), "last".to_string()]);
}

#[test]
fn empty_emulator_listing() {
    assert!(parse_emulators("").emulators.is_empty());
    assert!(parse_emulators("\n\n").emulators.is_empty());
}

use rusteze::cli::{parse_mode_arguments, parse_start_arguments};
use rusteze::native_helper::CaptureMode;

fn arguments(values: &[&str]) -> Vec<String> {
    values.iter().map(|value| (*value).to_string()).collect()
}

#[test]
fn defaults_to_system_audio_only() {
    assert_eq!(
        parse_start_arguments(&arguments(&[])).unwrap(),
        ("untitled".to_string(), CaptureMode::System)
    );
}

#[test]
fn maps_mic_flags_to_the_expected_modes() {
    assert_eq!(
        parse_start_arguments(&arguments(&["Workshop", "--mic"])).unwrap(),
        ("Workshop".to_string(), CaptureMode::Both)
    );
    assert_eq!(
        parse_start_arguments(&arguments(&["--mic-only"])).unwrap(),
        ("untitled".to_string(), CaptureMode::Microphone)
    );
}

#[test]
fn rejects_conflicting_or_unknown_start_flags() {
    assert!(parse_start_arguments(&arguments(&["--mic", "--mic-only"])).is_err());
    assert!(parse_start_arguments(&arguments(&["--unknown"])).is_err());
    assert!(parse_start_arguments(&arguments(&["one", "two"])).is_err());
}

#[test]
fn maps_permission_request_flags() {
    assert_eq!(parse_mode_arguments(&arguments(&[])).unwrap(), CaptureMode::System);
    assert_eq!(parse_mode_arguments(&arguments(&["--mic"])).unwrap(), CaptureMode::Both);
    assert_eq!(
        parse_mode_arguments(&arguments(&["--mic-only"])).unwrap(),
        CaptureMode::Microphone
    );
    assert!(parse_mode_arguments(&arguments(&["--mic", "--mic-only"])).is_err());
}

#[test]
fn start_errors_name_the_first_problem() {
    assert_eq!(
        parse_start_arguments(&arguments(&["--mic", "--mic"])),
        Err("--mic and --mic-only cannot be combined or repeated".to_string())
    );
    assert_eq!(
        parse_start_arguments(&arguments(&["Title", "-x", "--mic", "--mic"])),
        Err("unknown option '-x'".to_string())
    );
    assert_eq!(
        parse_start_arguments(&arguments(&["one", "two"])),
        Err("only one title may be provided".to_string())
    );
    assert_eq!(
        parse_start_arguments(&arguments(&["--mic-only", "Standup"])),
        Ok(("Standup".to_string(), CaptureMode::Microphone))
    );
}

#[test]
fn permission_flags_refuse_titles_and_repeats() {
    assert_eq!(
        parse_mode_arguments(&arguments(&["Title"])),
        Err("a permission mode flag is required instead of a title".to_string())
    );
    assert_eq!(
        parse_mode_arguments(&arguments(&["--mic", "--bogus"])),
        Err("unknown option '--bogus'".to_string())
    );
    assert_eq!(
        parse_mode_arguments(&arguments(&["--mic", "--mic"])),
        Err("--mic and --mic-only cannot be combined or repeated".to_string())
    );
}

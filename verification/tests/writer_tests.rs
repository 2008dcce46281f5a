use hosts_switcher::hosts::{
    elevation_script, get_hosts_path, quote_windows_args, save_failure_message,
};
use hosts_switcher::HostsError;

#[test]
fn hosts_path_is_fixed_per_platform() {
    assert_eq!(get_hosts_path(false), "/etc/hosts");
    assert_eq!(get_hosts_path(true), "C:\\Windows\\System32\\drivers\\etc\\hosts");
}

#[test]
fn double_failure_message_contains_both_texts() {
    let msg = save_failure_message("permission denied (os error 13)", "user dismissed prompt");
    assert!(msg.contains("permission denied (os error 13)"));
    assert!(msg.contains("user dismissed prompt"));
    assert_eq!(
        msg,
        "Save failed. Direct: [permission denied (os error 13)]. Elevated: [user dismissed prompt]"
    );
}

#[test]
fn elevation_failed_error_renders_both_texts() {
    let e = HostsError::ElevationFailed {
        direct: "direct boom".to_string(),
        elevation: "osascript boom".to_string(),
    };
    let msg = e.message();
    assert!(msg.contains("direct boom"));
    assert!(msg.contains("osascript boom"));
}

#[test]
fn elevation_script_moves_temp_file_into_place() {
    let s = elevation_script("/tmp/.tmpXYZ");
    assert_eq!(
        s,
        "do shell script \"mv -f '/tmp/.tmpXYZ' /etc/hosts && chmod 644 /etc/hosts\" \
         with administrator privileges"
    );
}

#[test]
fn args_with_spaces_are_quoted_when_rejoined() {
    let args = vec!["--profile".to_string(), "My Profile".to_string(), "-v".to_string()];
    assert_eq!(quote_windows_args(&args), "--profile \"My Profile\" -v");
    let none: Vec<String> = Vec::new();
    assert_eq!(quote_windows_args(&none), "");
    assert_eq!(quote_windows_args(&vec!["a b".to_string()]), "\"a b\"");
}

use solyn::platform::{
    detect_operating_system, get_platform_display_name, get_platform_family, get_platform_icon,
    get_platform_info_detailed, get_terminal_info, get_user_shell, is_linux, is_running_in_container, is_windows,
    parse_release_value, windows_version_label, TargetOs,
};
use solyn::platform_contracts::{os_release_pretty_name, platform_summary, system_resources};

const ALL: [TargetOs; 3] = [TargetOs::Windows, TargetOs::Linux, TargetOs::Other];

#[test]
fn os_flags_are_consistent() {
    for target in ALL {
        let os = detect_operating_system(target);
        assert_eq!(os == "windows", is_windows(target));
        assert_eq!(os == "linux", is_linux(target));
        assert!(matches!(os.as_str(), "windows" | "linux" | "unknown"));
    }
}

#[test]
fn family_matches_os() {
    for target in ALL {
        let family = get_platform_family(target);
        if is_windows(target) {
            assert_eq!(family, "windows");
        } else if is_linux(target) {
            assert_eq!(family, "unix");
        }
    }
}

#[test]
fn platform_info_exposes_expected_fields() {
    for target in ALL {
        let info = get_platform_info_detailed(target, None, "x86_64");
        assert!(info.os().is_some());
        assert_eq!(info.family().unwrap().to_string(), get_platform_family(target));
        assert!(info.architecture().is_some());
        assert!(info.display_name().is_some());
        assert!(info.icon().is_some());
    }
}

#[test]
fn detailed_info_records_version_or_distribution() {
    let win = get_platform_info_detailed(TargetOs::Windows, Some("Windows 11 Pro (Build 23H2)".to_string()), "x86_64");
    assert_eq!(win.display_name(), Some("Windows Windows 11 Pro (Build 23H2)"));
    assert_eq!(win.architecture(), Some("x86_64"));
    let linux = get_platform_info_detailed(TargetOs::Linux, Some("Ubuntu 24.04 LTS".to_string()), "aarch64");
    assert_eq!(linux.display_name(), Some("Ubuntu 24.04 LTS"));
    assert_eq!(linux.icon(), Some("🐧"));
}

#[test]
fn display_names_and_icons() {
    assert_eq!(get_platform_display_name(TargetOs::Windows, None), "Windows");
    assert_eq!(get_platform_display_name(TargetOs::Linux, None), "Linux");
    assert_eq!(get_platform_display_name(TargetOs::Other, Some("x".to_string())), "Unknown");
    assert_eq!(get_platform_icon(TargetOs::Windows), "🪟");
    assert_eq!(get_platform_icon(TargetOs::Other), "💻");
    assert_eq!(windows_version_label("Windows 10 Pro", "2009"), "Windows 10 Pro (Build 2009)");
}

#[test]
fn release_files_are_read() {
    let content = "NAME=\"Ubuntu\"\nPRETTY_NAME=\"Ubuntu 24.04 LTS\"\nID=ubuntu\n";
    assert_eq!(parse_release_value(content, "PRETTY_NAME=").as_deref(), Some("Ubuntu 24.04 LTS"));
    assert_eq!(parse_release_value(content, "DISTRIB_DESCRIPTION="), None);
    assert_eq!(os_release_pretty_name(content).as_deref(), Some("Ubuntu 24.04 LTS"));
    assert_eq!(os_release_pretty_name("PRETTY_NAME=a=b\n").as_deref(), Some("a"));
    assert_eq!(os_release_pretty_name("ID=x"), None);
}

#[test]
fn containers_are_recognised_from_cgroups() {
    assert!(is_running_in_container(Some("12:cpu:/docker/abc\n")));
    assert!(is_running_in_container(Some("0::/\n1:name=systemd:/kubepods/pod1")));
    assert!(!is_running_in_container(Some("0::/init.scope\n")));
    assert!(!is_running_in_container(None));
}

#[test]
fn terminal_and_shell() {
    assert_eq!(get_terminal_info(TargetOs::Linux, Some("xterm-256color".to_string()), None), "xterm-256color");
    assert_eq!(get_terminal_info(TargetOs::Linux, Some(String::new()), None), "Unknown Terminal");
    assert_eq!(get_terminal_info(TargetOs::Windows, None, Some("Console".to_string())), "Windows Terminal");
    assert_eq!(get_terminal_info(TargetOs::Windows, None, None), "Command Prompt");
    assert_eq!(get_user_shell(TargetOs::Windows, None), "cmd.exe");
    assert_eq!(get_user_shell(TargetOs::Linux, Some("/bin/zsh".to_string())), "/bin/zsh");
    assert_eq!(get_user_shell(TargetOs::Linux, None), "unknown");
}

#[test]
fn platform_summary_and_resources() {
    let info = platform_summary(TargetOs::Linux, "x86_64", Some("Debian".to_string()));
    assert_eq!(info.os, "linux");
    assert_eq!(info.arch.as_deref(), Some("x86_64"));
    assert_eq!(info.version.as_deref(), Some("Debian"));
    let res = system_resources();
    assert!(res.cpu_cores.unwrap() >= 1);
    assert!(res.memory_total.is_none());
}

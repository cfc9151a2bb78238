use solyn::installation::{
    exit_code_string, get_installation_instructions, get_installation_recommendation, install_command,
    install_exit_result, install_final_check, install_needs_elevation_error, linux_update_script,
    manual_install_command, ollama_status, termination_line, update_command, update_exit_result, update_final_check,
    verification_status, InstallWatch, ProbeResult, UpdateLaunch, UpdateObservation, UpdateWatch,
};
use solyn::platform::TargetOs;

#[test]
fn recommendations_per_platform() {
    assert_eq!(
        get_installation_recommendation("windows"),
        "Download the Ollama installer from https://ollama.com/download/windows"
    );
    assert_eq!(get_installation_recommendation("linux"), "Follow the instructions at https://ollama.com/download/linux");
    assert_eq!(get_installation_recommendation("macos"), "Visit https://ollama.com for installation instructions");
}

#[test]
fn instructions_per_platform() {
    let w = get_installation_instructions(TargetOs::Windows).unwrap();
    assert_eq!(w.platform, "windows");
    assert_eq!(w.command, "irm https://ollama.com/install.ps1 | iex");
    assert_eq!(w.estimated_time, "~5 minutes");
    let l = get_installation_instructions(TargetOs::Linux).unwrap();
    assert_eq!(l.command, "curl -fsSL https://ollama.com/install.sh | sh");
    assert_eq!(get_installation_instructions(TargetOs::Other).err().unwrap(), "Unsupported platform");
}

#[test]
fn elevation_messages() {
    assert_eq!(manual_install_command(), "curl -fsSL https://ollama.com/install.sh | sudo sh");
    assert_eq!(
        install_needs_elevation_error(),
        "Ollama installation needs administrator privileges, but no elevation dialog is available. Run `curl -fsSL https://ollama.com/install.sh | sudo sh` in a terminal, then restart Solyn."
    );
    let script = linux_update_script();
    assert!(script.contains("exit 42"));
    assert!(script.starts_with("\nset -e\n"));
}

#[test]
fn install_commands() {
    let w = install_command("windows", "/tmp/s.sh", false, false).unwrap();
    assert_eq!(w.program, "powershell");
    assert_eq!(w.args, vec!["-c".to_string(), "irm https://ollama.com/install.ps1 | iex".to_string()]);
    let p = install_command("linux", "/tmp/s.sh", true, true).unwrap();
    assert_eq!(p.program, "pkexec");
    assert_eq!(p.args, vec!["/bin/sh".to_string(), "/tmp/s.sh".to_string()]);
    let r = install_command("linux", "/tmp/s.sh", false, true).unwrap();
    assert_eq!(r.program, "run0");
    assert_eq!(install_command("linux", "/tmp/s.sh", false, false).err().unwrap(), install_needs_elevation_error());
    assert_eq!(install_command("macos", "/tmp/s.sh", true, true).err().unwrap(), "Unsupported platform");
}

#[test]
fn install_exit_codes() {
    assert!(install_exit_result(Some(0)).is_ok());
    assert_eq!(install_exit_result(Some(126)).unwrap_err(), "Ollama installation requires administrator privileges");
    assert_eq!(install_exit_result(Some(127)).unwrap_err(), "Ollama installation requires administrator privileges");
    assert_eq!(
        install_exit_result(Some(1)).unwrap_err(),
        "Ollama installation failed (exit code 1). Check the terminal log for details."
    );
    assert_eq!(
        install_exit_result(None).unwrap_err(),
        "Ollama installation failed (exit code unknown). Check the terminal log for details."
    );
    assert_eq!(exit_code_string(Some(-3)), "-3");
    assert_eq!(exit_code_string(Some(i32::MIN)), "-2147483648");
    assert_eq!(termination_line(Some(0), false).line, "Installation script completed");
    assert_eq!(termination_line(Some(2), true).line, "⚠️ Update process terminated with error");
}

#[test]
fn install_watch_reports_every_third_check() {
    let mut w = InstallWatch::new();
    let s1 = w.observe(ProbeResult::NotInstalled);
    assert!(s1.before.is_empty() && s1.outcome.is_none());
    w.observe(ProbeResult::CheckFailed);
    let s3 = w.observe(ProbeResult::NotInstalled);
    assert_eq!(s3.before[0].line, "Waiting for Ollama to start... (attempt 3/15)");
    let s4 = w.observe(ProbeResult::Installed);
    assert_eq!(s4.outcome, Some(Ok(())));
    assert_eq!(s4.before[0].stream, "success");
}

#[test]
fn install_watch_is_silent_on_the_last_check() {
    let mut w = InstallWatch::new();
    let mut last = None;
    while w.has_attempts_left() {
        last = Some(w.observe(ProbeResult::CheckFailed));
    }
    assert!(last.unwrap().before.is_empty());
    let fin = install_final_check(false);
    assert_eq!(fin.outcome, Some(Err("Ollama installation could not be verified".to_string())));
    assert_eq!(fin.before.len(), 2);
    assert_eq!(install_final_check(true).outcome, Some(Ok(())));
}

#[test]
fn update_commands() {
    match update_command("linux", true, false).unwrap() {
        UpdateLaunch::Terminal => {}
        UpdateLaunch::Run(_) => panic!("expected a terminal hand-off"),
    }
    match update_command("linux", true, true).unwrap() {
        UpdateLaunch::Run(c) => {
            assert_eq!(c.program, "sh");
            assert_eq!(c.args[1], linux_update_script());
        }
        UpdateLaunch::Terminal => panic!("expected a direct run"),
    }
    match update_command("windows", false, false).unwrap() {
        UpdateLaunch::Run(c) => assert!(c.args[1].starts_with("winget upgrade Ollama.Ollama")),
        UpdateLaunch::Terminal => panic!("expected a direct run"),
    }
    assert_eq!(update_command("freebsd", false, false).err().unwrap(), "Unsupported platform");
    assert_eq!(update_exit_result(Some(42)).unwrap_err(), "Ollama update requires administrator privileges");
    assert_eq!(
        update_exit_result(Some(7)).unwrap_err(),
        "Ollama update failed (exit code 7). Check the update log for details."
    );
}

#[test]
fn update_succeeds_when_the_version_changes() {
    let mut w = UpdateWatch::new(Some("0.1.0".to_string()), false);
    assert_eq!(w.opening_line().line, "🔄 Updating Ollama from version 0.1.0...");
    let s = w.observe(UpdateObservation::Version("0.1.0".to_string()));
    assert!(s.outcome.is_none());
    let s = w.observe(UpdateObservation::Version("0.2.0".to_string()));
    assert_eq!(s.outcome, Some(Ok(())));
    assert_eq!(s.before[0].line, "✅ Ollama updated successfully to version 0.2.0");
}

#[test]
fn update_fails_when_the_version_never_changes() {
    let mut w = UpdateWatch::new(None, false);
    let mut step = None;
    for _ in 0..16 {
        step = Some(w.observe(UpdateObservation::Version("unknown".to_string())));
    }
    let step = step.unwrap();
    assert_eq!(
        step.outcome,
        Some(Err("Ollama update did not change the running version. Restart Ollama, then retry.".to_string()))
    );
    assert_eq!(step.before[1].line, "💡 Restart Ollama (or your WSL distro), then retry.");
}

#[test]
fn update_starts_the_server_once() {
    let mut w = UpdateWatch::new(Some("1".to_string()), true);
    assert!(!w.observe(UpdateObservation::VersionUnavailable).start_service);
    assert!(!w.observe(UpdateObservation::VersionUnavailable).start_service);
    let third = w.observe(UpdateObservation::VersionUnavailable);
    assert!(third.start_service);
    assert_eq!(third.before[0].line, "🚀 Attempting to start Ollama...");
    assert_eq!(third.after[0].line, "⏳ Waiting for Ollama to start... (attempt 3/90)");
    for _ in 0..3 {
        assert!(!w.observe(UpdateObservation::VersionUnavailable).start_service);
    }
    assert!(!w.final_start_needed());
    let n = w.observe(UpdateObservation::NotInstalled);
    assert!(n.before.is_empty());
    assert_eq!(update_final_check(Some("2".to_string())).before[0].line, "✅ Ollama updated to version 2");
    assert_eq!(
        update_final_check(None).outcome,
        Some(Err("Ollama did not come back up after the update".to_string()))
    );
}

#[test]
fn statuses() {
    let s = ollama_status(true, Some("0.5.1".to_string()));
    assert!(s.installed && s.running);
    let s = ollama_status(true, None);
    assert!(s.installed && !s.running && s.version.is_none());
    let s = ollama_status(false, Some("x".to_string()));
    assert!(!s.running && s.version.is_none());
    let v = verification_status(TargetOs::Linux, true, false, Some("1".to_string()));
    assert!(v.is_installed && !v.is_running && v.version.is_none());
    assert_eq!(v.platform, "linux");
    let v = verification_status(TargetOs::Windows, true, true, Some("1".to_string()));
    assert_eq!(v.version.as_deref(), Some("1"));
}

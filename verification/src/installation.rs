//! Installing and updating the local model server: which command to run on each
//! platform, how an exit status is judged, and how the follow-up checks decide when
//! the work has succeeded or failed.
//!
//! The application spawns the commands, sleeps between checks and probes the
//! server; each decision it takes from what it observed is made here.

use vstd::prelude::*;
use crate::download_state::{terminal_line, InstallationInformation, TerminalLine};
use crate::platform::{os_name, TargetOs, detect_operating_system};
use crate::text::{decimal, push_char, push_decimal, push_str, str_eq};

verus! {

/// A program and its arguments.
pub struct LaunchCommand {
    pub program: String,
    pub args: Vec<String>,
}

/// The text of a command: the program and each argument.
pub open spec fn command_view(c: LaunchCommand) -> (Seq<char>, Seq<Seq<char>>) {
    (c.program@, c.args@.map_values(|a: String| a@))
}

/// The text of a result whose error is a message.
pub open spec fn outcome_view(r: Result<(), String>) -> Result<(), Seq<char>> {
    match r {
        Ok(()) => Ok(()),
        Err(e) => Err(e@),
    }
}

/// A terminal line as text: the line, its kind, whether it is a progress line.
pub open spec fn line_view(l: TerminalLine) -> (Seq<char>, Seq<char>, bool) {
    (l.line@, l.stream@, l.is_progress)
}

/// The text of a list of terminal lines.
pub open spec fn lines_view(v: Seq<TerminalLine>) -> Seq<(Seq<char>, Seq<char>, bool)> {
    v.map_values(|l: TerminalLine| line_view(l))
}

/// A line of the given kind that is not a progress line.
pub open spec fn note(text: Seq<char>, kind: Seq<char>) -> (Seq<char>, Seq<char>, bool) {
    (text, kind, false)
}

/// The installation hint for a platform name.
pub open spec fn recommendation_text(platform: Seq<char>) -> Seq<char> {
    if platform == "windows"@ {
        "Download the Ollama installer from https://ollama.com/download/windows"@
    } else if platform == "linux"@ {
        "Follow the instructions at https://ollama.com/download/linux"@
    } else {
        "Visit https://ollama.com for installation instructions"@
    }
}

/// Where to get the model server, for the platform named `windows`, `linux` or another.
pub fn get_installation_recommendation(platform: &str) -> (r: String)
    ensures
        r@ == recommendation_text(platform@),
{
    if str_eq(platform, "windows") {
        String::from_str("Download the Ollama installer from https://ollama.com/download/windows")
    } else if str_eq(platform, "linux") {
        String::from_str("Follow the instructions at https://ollama.com/download/linux")
    } else {
        String::from_str("Visit https://ollama.com for installation instructions")
    }
}

/// The installer command for a platform, with the time it usually takes; `None` for
/// platforms without an installer.
pub open spec fn instructions_for(os: TargetOs) -> Option<(Seq<char>, Seq<char>)> {
    match os {
        TargetOs::Windows => Some(("irm https://ollama.com/install.ps1 | iex"@, "~5 minutes"@)),
        TargetOs::Linux => Some(("curl -fsSL https://ollama.com/install.sh | sh"@, "~5 minutes"@)),
        TargetOs::Other => None,
    }
}

/// How to install the model server on the build's platform, or `Unsupported platform`.
pub fn get_installation_instructions(os: TargetOs) -> (r: Result<InstallationInformation, String>)
    ensures
        match r {
            Ok(info) => instructions_for(os) == Some((info.command@, info.estimated_time@))
                && info.platform@ == os_name(os),
            Err(e) => instructions_for(os) is None && e@ == "Unsupported platform"@,
        },
{
    let platform = detect_operating_system(os);
    match os {
        TargetOs::Windows => Ok(
            InstallationInformation {
                platform,
                command: String::from_str("irm https://ollama.com/install.ps1 | iex"),
                estimated_time: String::from_str("~5 minutes"),
            },
        ),
        TargetOs::Linux => Ok(
            InstallationInformation {
                platform,
                command: String::from_str("curl -fsSL https://ollama.com/install.sh | sh"),
                estimated_time: String::from_str("~5 minutes"),
            },
        ),
        TargetOs::Other => Err(String::from_str("Unsupported platform")),
    }
}

/// The command a user can run in a terminal when no graphical elevation dialog exists.
pub fn manual_install_command() -> (r: String)
    ensures
        r@ == "curl -fsSL https://ollama.com/install.sh | sudo sh"@,
{
    String::from_str("curl -fsSL https://ollama.com/install.sh | sudo sh")
}

/// The error given when installing needs root and no elevation helper is available.
pub open spec fn elevation_error_text() -> Seq<char> {
    "Ollama installation needs administrator privileges, but no elevation dialog is available. Run `"@
        + "curl -fsSL https://ollama.com/install.sh | sudo sh"@ + "` in a terminal, then restart Solyn."@
}

/// The error given when installing needs root and no elevation helper is available.
pub fn install_needs_elevation_error() -> (r: String)
    ensures
        r@ == elevation_error_text(),
{
    let mut r = String::from_str(
        "Ollama installation needs administrator privileges, but no elevation dialog is available. Run `",
    );
    let cmd = manual_install_command();
    push_str(&mut r, cmd.as_str());
    push_str(&mut r, "` in a terminal, then restart Solyn.");
    r
}

/// The shell script run to update the server on Linux. It elevates with `sudo -n` and
/// exits with status 42 when root is needed but `sudo` would prompt for a password.
pub open spec fn update_script_text() -> Seq<char> {
    "\nset -e\nif [ \"$(id -u)\" -ne 0 ]; then\n    if command -v sudo >/dev/null 2>&1 && sudo -n true 2>/dev/null; then\n        SUDO=\"sudo -n\"\n    else\n        echo \"SOLYN_SUDO_REQUIRED\"\n        exit 42\n    fi\nelse\n    SUDO=\"\"\nfi\n\nif dpkg -l ollama 2>/dev/null | grep -q '^ii'; then\n    $SUDO apt-get update\n    $SUDO apt-get install --only-upgrade -y ollama\nelif command -v pacman >/dev/null 2>&1 && pacman -Q ollama >/dev/null 2>&1; then\n    $SUDO pacman -S --noconfirm ollama\nelif command -v snap >/dev/null 2>&1 && snap list ollama >/dev/null 2>&1; then\n    $SUDO snap refresh ollama\nelse\n    tmp=\"$(mktemp)\"\n    curl -fsSL https://ollama.com/install.sh -o \"$tmp\"\n    $SUDO sh \"$tmp\"\n    rm -f \"$tmp\"\nfi\n\nif ! $SUDO systemctl restart ollama 2>/dev/null; then\n    # No systemd (WSL, containers): stop the running server so the freshly\n    # installed binary is what comes back up. Solyn restarts it afterwards.\n    $SUDO pkill -x ollama 2>/dev/null || pkill -x ollama 2>/dev/null || true\nfi\n"@
}

/// The Linux update script (see `update_script_text`).
pub fn linux_update_script() -> (r: String)
    ensures
        r@ == update_script_text(),
{
    String::from_str(
        "\nset -e\nif [ \"$(id -u)\" -ne 0 ]; then\n    if command -v sudo >/dev/null 2>&1 && sudo -n true 2>/dev/null; then\n        SUDO=\"sudo -n\"\n    else\n        echo \"SOLYN_SUDO_REQUIRED\"\n        exit 42\n    fi\nelse\n    SUDO=\"\"\nfi\n\nif dpkg -l ollama 2>/dev/null | grep -q '^ii'; then\n    $SUDO apt-get update\n    $SUDO apt-get install --only-upgrade -y ollama\nelif command -v pacman >/dev/null 2>&1 && pacman -Q ollama >/dev/null 2>&1; then\n    $SUDO pacman -S --noconfirm ollama\nelif command -v snap >/dev/null 2>&1 && snap list ollama >/dev/null 2>&1; then\n    $SUDO snap refresh ollama\nelse\n    tmp=\"$(mktemp)\"\n    curl -fsSL https://ollama.com/install.sh -o \"$tmp\"\n    $SUDO sh \"$tmp\"\n    rm -f \"$tmp\"\nfi\n\nif ! $SUDO systemctl restart ollama 2>/dev/null; then\n    # No systemd (WSL, containers): stop the running server so the freshly\n    # installed binary is what comes back up. Solyn restarts it afterwards.\n    $SUDO pkill -x ollama 2>/dev/null || pkill -x ollama 2>/dev/null || true\nfi\n",
    )
}

/// The install command for a platform. On Linux the installer script (at
/// `script_path`) runs as root through `pkexec`, else `run0`; with neither available
/// installing needs a terminal. Platforms other than `windows` and `linux` have none.
pub open spec fn install_command_for(platform: Seq<char>, script_path: Seq<char>, has_pkexec: bool, has_run0: bool)
    -> Result<(Seq<char>, Seq<Seq<char>>), Seq<char>> {
    if platform == "windows"@ {
        Ok(("powershell"@, seq!["-c"@, "irm https://ollama.com/install.ps1 | iex"@]))
    } else if platform == "linux"@ {
        if has_pkexec {
            Ok(("pkexec"@, seq!["/bin/sh"@, script_path]))
        } else if has_run0 {
            Ok(("run0"@, seq!["/bin/sh"@, script_path]))
        } else {
            Err(elevation_error_text())
        }
    } else {
        Err("Unsupported platform"@)
    }
}

/// The text of a command or its refusal.
pub open spec fn command_result_view(r: Result<LaunchCommand, String>) -> Result<(Seq<char>, Seq<Seq<char>>), Seq<char>> {
    match r {
        Ok(c) => Ok(command_view(c)),
        Err(e) => Err(e@),
    }
}

fn command2(program: &str, a: &str, b: String) -> (r: LaunchCommand)
    ensures
        command_view(r) == (program@, seq![a@, b@]),
{
    let mut args: Vec<String> = Vec::new();
    args.push(String::from_str(a));
    args.push(b);
    let r = LaunchCommand { program: String::from_str(program), args };
    assert(command_view(r).1 =~= seq![a@, b@]);
    r
}

/// The install command to spawn (see `install_command_for`); `has_pkexec` and
/// `has_run0` tell whether those helpers were found.
pub fn install_command(platform: &str, script_path: &str, has_pkexec: bool, has_run0: bool) -> (r: Result<
    LaunchCommand,
    String,
>)
    ensures
        command_result_view(r) == install_command_for(platform@, script_path@, has_pkexec, has_run0),
{
    if str_eq(platform, "windows") {
        Ok(command2("powershell", "-c", String::from_str("irm https://ollama.com/install.ps1 | iex")))
    } else if str_eq(platform, "linux") {
        if has_pkexec {
            Ok(command2("pkexec", "/bin/sh", String::from_str(script_path)))
        } else if has_run0 {
            Ok(command2("run0", "/bin/sh", String::from_str(script_path)))
        } else {
            Err(install_needs_elevation_error())
        }
    } else {
        Err(String::from_str("Unsupported platform"))
    }
}

/// An integer in decimal, with a leading `-` when negative.
pub open spec fn int_text(i: int) -> Seq<char> {
    if i < 0 {
        "-"@ + decimal((-i) as nat)
    } else {
        decimal(i as nat)
    }
}

/// A process exit code as text, or `unknown` when the process reported none.
pub open spec fn exit_code_text(code: Option<i32>) -> Seq<char> {
    match code {
        Some(c) => int_text(c as int),
        None => "unknown"@,
    }
}

/// Writes an exit code as text (see `exit_code_text`).
pub fn exit_code_string(code: Option<i32>) -> (r: String)
    ensures
        r@ == exit_code_text(code),
{
    match code {
        None => String::from_str("unknown"),
        Some(c) => {
            let mut r = String::new();
            if c < 0 {
                push_char(&mut r, '-');
                let m: i64 = -(c as i64);
                push_decimal(&mut r, m as u64);
            } else {
                push_decimal(&mut r, c as u64);
            }
            proof {
                reveal_strlit("-");
            }
            assert(r@ =~= exit_code_text(code));
            r
        },
    }
}

/// How an installer run ended: success with status 0; status 126 or 127 (the
/// elevation dialog was dismissed or could not authenticate) need privileges; any
/// other status, or none, is a failure.
pub open spec fn install_exit_for(code: Option<i32>) -> Result<(), Seq<char>> {
    if code == Some(0i32) {
        Ok(())
    } else if code == Some(126i32) || code == Some(127i32) {
        Err("Ollama installation requires administrator privileges"@)
    } else {
        Err("Ollama installation failed (exit code "@ + exit_code_text(code) + "). Check the terminal log for details."@)
    }
}

/// Judges the installer's exit status (see `install_exit_for`).
pub fn install_exit_result(code: Option<i32>) -> (r: Result<(), String>)
    ensures
        outcome_view(r) == install_exit_for(code),
{
    match code {
        Some(0) => Ok(()),
        Some(126) | Some(127) => Err(String::from_str("Ollama installation requires administrator privileges")),
        _ => {
            let mut e = String::from_str("Ollama installation failed (exit code ");
            let t = exit_code_string(code);
            push_str(&mut e, t.as_str());
            push_str(&mut e, "). Check the terminal log for details.");
            Err(e)
        },
    }
}

/// The line shown when an installer or update process terminates.
pub open spec fn termination_text(code: Option<i32>, update: bool) -> Seq<char> {
    if update {
        if code == Some(0i32) {
            "✅ Update script completed"@
        } else {
            "⚠️ Update process terminated with error"@
        }
    } else {
        if code == Some(0i32) {
            "Installation script completed"@
        } else {
            "Process terminated with error"@
        }
    }
}

/// The line shown when an installer (`update` false) or update process terminates.
pub fn termination_line(code: Option<i32>, update: bool) -> (r: TerminalLine)
    ensures
        line_view(r) == note(termination_text(code, update), "info"@),
{
    let ok = match code {
        Some(0) => true,
        _ => false,
    };
    let text = if update {
        if ok {
            "✅ Update script completed"
        } else {
            "⚠️ Update process terminated with error"
        }
    } else {
        if ok {
            "Installation script completed"
        } else {
            "Process terminated with error"
        }
    };
    terminal_line(text, "info")
}

/// What a check of the server's installation reported.
#[derive(Debug, Clone, Copy, PartialEq, Eq, Structural)]
pub enum ProbeResult {
    Installed,
    NotInstalled,
    CheckFailed,
}

/// What to do after one check: lines to show, whether to start the server (between
/// the `before` and the `after` lines), and the final result once there is one.
pub struct PollStep {
    pub before: Vec<TerminalLine>,
    pub start_service: bool,
    pub after: Vec<TerminalLine>,
    pub outcome: Option<Result<(), String>>,
}

/// The text of a final result, if any.
pub open spec fn outcome_opt_view(o: Option<Result<(), String>>) -> Option<Result<(), Seq<char>>> {
    match o {
        Some(r) => Some(outcome_view(r)),
        None => None,
    }
}

/// `prefix (attempt a/m)`.
pub open spec fn attempt_text(prefix: Seq<char>, a: nat, m: nat) -> Seq<char> {
    prefix + " (attempt "@ + decimal(a) + "/"@ + decimal(m) + ")"@
}

fn attempt_line(prefix: &str, a: u32, m: u32) -> (r: TerminalLine)
    ensures
        line_view(r) == note(attempt_text(prefix@, a as nat, m as nat), "info"@),
{
    let mut t = String::from_str(prefix);
    push_str(&mut t, " (attempt ");
    push_decimal(&mut t, a as u64);
    push_str(&mut t, "/");
    push_decimal(&mut t, m as u64);
    push_str(&mut t, ")");
    TerminalLine { line: t, stream: String::from_str("info"), is_progress: false }
}

fn one_line(l: TerminalLine) -> (r: Vec<TerminalLine>)
    ensures
        lines_view(r@) == seq![line_view(l)],
{
    let mut v: Vec<TerminalLine> = Vec::new();
    v.push(l);
    assert(lines_view(v@) =~= seq![line_view(l)]);
    v
}

fn two_lines(a: TerminalLine, b: TerminalLine) -> (r: Vec<TerminalLine>)
    ensures
        lines_view(r@) == seq![line_view(a), line_view(b)],
{
    let mut v: Vec<TerminalLine> = Vec::new();
    v.push(a);
    v.push(b);
    assert(lines_view(v@) =~= seq![line_view(a), line_view(b)]);
    v
}

fn no_lines() -> (r: Vec<TerminalLine>)
    ensures
        lines_view(r@) == Seq::<(Seq<char>, Seq<char>, bool)>::empty(),
{
    let v: Vec<TerminalLine> = Vec::new();
    assert(lines_view(v@) =~= Seq::<(Seq<char>, Seq<char>, bool)>::empty());
    v
}

/// How many times the installation is checked before the final check.
pub const INSTALL_CHECKS: u32 = 15;

/// Follows the checks made after the installer finished.
pub struct InstallWatch {
    attempts: u32,
}

impl InstallWatch {
    #[verifier::type_invariant]
    spec fn within_budget(self) -> bool {
        self.attempts <= INSTALL_CHECKS
    }

    /// The number of checks made so far.
    pub closed spec fn attempts(self) -> nat {
        self.attempts as nat
    }

    /// No checks made yet.
    pub fn new() -> (r: InstallWatch)
        ensures
            r.attempts() == 0,
    {
        InstallWatch { attempts: 0 }
    }

    /// Whether another check may be made.
    pub fn has_attempts_left(&self) -> (r: bool)
        ensures
            r == (self.attempts() < INSTALL_CHECKS),
    {
        self.attempts < INSTALL_CHECKS
    }

    /// Takes the result of the next check. Success ends the watch; otherwise every
    /// third check short of the last one shows a waiting line.
    pub fn observe(&mut self, probe: ProbeResult) -> (r: PollStep)
        requires
            old(self).attempts() < INSTALL_CHECKS,
        ensures
            final(self).attempts() == old(self).attempts() + 1,
            !r.start_service,
            lines_view(r.after@) == Seq::<(Seq<char>, Seq<char>, bool)>::empty(),
            ({
                let a = final(self).attempts();
                let shows = a < INSTALL_CHECKS && a % 3 == 0;
                match probe {
                    ProbeResult::Installed => outcome_opt_view(r.outcome) == Some(Ok::<(), Seq<char>>(()))
                        && lines_view(r.before@) == seq![note("Ollama verified and running"@, "success"@)],
                    ProbeResult::NotInstalled => r.outcome is None && lines_view(r.before@) == (if shows {
                        seq![note(attempt_text("Waiting for Ollama to start..."@, a, INSTALL_CHECKS as nat), "info"@)]
                    } else {
                        Seq::empty()
                    }),
                    ProbeResult::CheckFailed => r.outcome is None && lines_view(r.before@) == (if shows {
                        seq![note(attempt_text("Checking Ollama status..."@, a, INSTALL_CHECKS as nat), "info"@)]
                    } else {
                        Seq::empty()
                    }),
                }
            }),
    {
        proof {
            use_type_invariant(&*self);
        }
        self.attempts = self.attempts + 1;
        let a = self.attempts;
        let shows = a < INSTALL_CHECKS && a % 3 == 0;
        match probe {
            ProbeResult::Installed => PollStep {
                before: one_line(terminal_line("Ollama verified and running", "success")),
                start_service: false,
                after: no_lines(),
                outcome: Some(Ok(())),
            },
            ProbeResult::NotInstalled => PollStep {
                before: if shows {
                    one_line(attempt_line("Waiting for Ollama to start...", a, INSTALL_CHECKS))
                } else {
                    no_lines()
                },
                start_service: false,
                after: no_lines(),
                outcome: None,
            },
            ProbeResult::CheckFailed => PollStep {
                before: if shows {
                    one_line(attempt_line("Checking Ollama status...", a, INSTALL_CHECKS))
                } else {
                    no_lines()
                },
                start_service: false,
                after: no_lines(),
                outcome: None,
            },
        }
    }
}

/// The final installation check: the server is installed, or the installation could
/// not be verified.
pub fn install_final_check(installed: bool) -> (r: PollStep)
    ensures
        !r.start_service,
        lines_view(r.after@) == Seq::<(Seq<char>, Seq<char>, bool)>::empty(),
        installed ==> outcome_opt_view(r.outcome) == Some(Ok::<(), Seq<char>>(())) && lines_view(r.before@)
            == seq![note("✓ Ollama verified and running!"@, "success"@)],
        !installed ==> outcome_opt_view(r.outcome) == Some(Err::<(), Seq<char>>("Ollama installation could not be verified"@))
            && lines_view(r.before@) == seq![
            note("⚠️ Ollama installed but could not be verified."@, "info"@),
            note("💡 Try starting Ollama manually, then refresh."@, "info"@),
        ],
{
    if installed {
        PollStep {
            before: one_line(terminal_line("✓ Ollama verified and running!", "success")),
            start_service: false,
            after: no_lines(),
            outcome: Some(Ok(())),
        }
    } else {
        PollStep {
            before: two_lines(
                terminal_line("⚠️ Ollama installed but could not be verified.", "info"),
                terminal_line("💡 Try starting Ollama manually, then refresh.", "info"),
            ),
            start_service: false,
            after: no_lines(),
            outcome: Some(Err(String::from_str("Ollama installation could not be verified"))),
        }
    }
}

/// How an update is carried out: a command run directly, or a hand-off to a terminal
/// window where `sudo` can ask for the password.
pub enum UpdateLaunch {
    Run(LaunchCommand),
    Terminal,
}

/// The text of an update launch.
pub open spec fn launch_view(l: UpdateLaunch) -> Option<(Seq<char>, Seq<Seq<char>>)> {
    match l {
        UpdateLaunch::Run(c) => Some(command_view(c)),
        UpdateLaunch::Terminal => None,
    }
}

/// The PowerShell update command: `winget`, falling back to the installer.
pub open spec fn windows_update_text() -> Seq<char> {
    "winget upgrade Ollama.Ollama --silent 2>$null; if ($LASTEXITCODE -ne 0) { irm https://ollama.com/install.ps1 | iex }"@
}

/// The update for a platform: PowerShell on Windows; on Linux the update script in
/// `sh`, except inside WSL without passwordless `sudo`, where a terminal takes over
/// (`None` below); other platforms have none.
pub open spec fn update_launch_for(platform: Seq<char>, in_wsl: bool, sudo_nopasswd: bool) -> Result<
    Option<(Seq<char>, Seq<Seq<char>>)>,
    Seq<char>,
> {
    if platform == "windows"@ {
        Ok(Some(("powershell"@, seq!["-c"@, windows_update_text()])))
    } else if platform == "linux"@ {
        if in_wsl && !sudo_nopasswd {
            Ok(None)
        } else {
            Ok(Some(("sh"@, seq!["-c"@, update_script_text()])))
        }
    } else {
        Err("Unsupported platform"@)
    }
}

/// How to run the update (see `update_launch_for`).
pub fn update_command(platform: &str, in_wsl: bool, sudo_nopasswd: bool) -> (r: Result<UpdateLaunch, String>)
    ensures
        match r {
            Ok(l) => update_launch_for(platform@, in_wsl, sudo_nopasswd) == Ok::<
                Option<(Seq<char>, Seq<Seq<char>>)>,
                Seq<char>,
            >(launch_view(l)),
            Err(e) => update_launch_for(platform@, in_wsl, sudo_nopasswd) == Err::<
                Option<(Seq<char>, Seq<Seq<char>>)>,
                Seq<char>,
            >(e@),
        },
{
    if str_eq(platform, "windows") {
        Ok(
            UpdateLaunch::Run(
                command2(
                    "powershell",
                    "-c",
                    String::from_str(
                        "winget upgrade Ollama.Ollama --silent 2>$null; if ($LASTEXITCODE -ne 0) { irm https://ollama.com/install.ps1 | iex }",
                    ),
                ),
            ),
        )
    } else if str_eq(platform, "linux") {
        if in_wsl && !sudo_nopasswd {
            Ok(UpdateLaunch::Terminal)
        } else {
            Ok(UpdateLaunch::Run(command2("sh", "-c", linux_update_script())))
        }
    } else {
        Err(String::from_str("Unsupported platform"))
    }
}

/// How an update run ended: success with status 0; status 42 means root was needed
/// without passwordless `sudo`; anything else is a failure.
pub open spec fn update_exit_for(code: Option<i32>) -> Result<(), Seq<char>> {
    if code == Some(0i32) {
        Ok(())
    } else if code == Some(42i32) {
        Err("Ollama update requires administrator privileges"@)
    } else {
        Err("Ollama update failed (exit code "@ + exit_code_text(code) + "). Check the update log for details."@)
    }
}

/// Judges the update's exit status (see `update_exit_for`).
pub fn update_exit_result(code: Option<i32>) -> (r: Result<(), String>)
    ensures
        outcome_view(r) == update_exit_for(code),
{
    match code {
        Some(0) => Ok(()),
        Some(42) => Err(String::from_str("Ollama update requires administrator privileges")),
        _ => {
            let mut e = String::from_str("Ollama update failed (exit code ");
            let t = exit_code_string(code);
            push_str(&mut e, t.as_str());
            push_str(&mut e, "). Check the update log for details.");
            Err(e)
        },
    }
}

/// What one check after an update found.
pub enum UpdateObservation {
    /// The server is not installed.
    NotInstalled,
    /// Whether it is installed could not be told.
    CheckFailed,
    /// Installed, but its version could not be read (it is not running).
    VersionUnavailable,
    /// Installed and reporting this version.
    Version(String),
}

/// Follows the checks made after an update until the running version changes, stays
/// the same for too long, or the checks run out.
pub struct UpdateWatch {
    current_version: String,
    attempts: u32,
    max_attempts: u32,
    unchanged_deadline: u32,
    started: bool,
}

impl UpdateWatch {
    #[verifier::type_invariant]
    spec fn within_budget(self) -> bool {
        &&& self.attempts <= self.max_attempts
        &&& (self.max_attempts == 25 && self.unchanged_deadline == 15) || (self.max_attempts == 90
            && self.unchanged_deadline == 60)
    }

    /// The version that ran before the update.
    pub closed spec fn previous_version(self) -> Seq<char> {
        self.current_version@
    }

    /// Checks made so far.
    pub closed spec fn attempts(self) -> nat {
        self.attempts as nat
    }

    /// How many checks are made at most.
    pub closed spec fn max_attempts(self) -> nat {
        self.max_attempts as nat
    }

    /// After how many checks an unchanged version counts as a failed update.
    pub closed spec fn unchanged_deadline(self) -> nat {
        self.unchanged_deadline as nat
    }

    /// Whether the server was already started once during the checks.
    pub closed spec fn started(self) -> bool {
        self.started
    }

    /// A watch for an update from `current` (`unknown` when it could not be read). A
    /// hand-off to a terminal gets 90 checks, and 60 before an unchanged version counts
    /// as failure; a direct run gets 25 and 15.
    pub fn new(current: Option<String>, in_terminal: bool) -> (r: UpdateWatch)
        ensures
            r.previous_version() == (match current {
                Some(v) => v@,
                None => "unknown"@,
            }),
            r.attempts() == 0,
            !r.started(),
            in_terminal ==> r.max_attempts() == 90 && r.unchanged_deadline() == 60,
            !in_terminal ==> r.max_attempts() == 25 && r.unchanged_deadline() == 15,
    {
        let current_version = match current {
            Some(v) => v,
            None => String::from_str("unknown"),
        };
        let (max_attempts, unchanged_deadline) = if in_terminal {
            (90u32, 60u32)
        } else {
            (25u32, 15u32)
        };
        UpdateWatch { current_version, attempts: 0, max_attempts, unchanged_deadline, started: false }
    }

    /// The line announcing the update.
    pub fn opening_line(&self) -> (r: TerminalLine)
        ensures
            line_view(r) == note("🔄 Updating Ollama from version "@ + self.previous_version() + "..."@, "info"@),
    {
        let mut t = String::from_str("🔄 Updating Ollama from version ");
        push_str(&mut t, self.current_version.as_str());
        push_str(&mut t, "...");
        TerminalLine { line: t, stream: String::from_str("info"), is_progress: false }
    }

    /// Whether another check may be made.
    pub fn has_attempts_left(&self) -> (r: bool)
        ensures
            r == (self.attempts() < self.max_attempts()),
    {
        self.attempts < self.max_attempts
    }

    /// Takes what the next check found. A new version ends the watch with success; the
    /// old version past the deadline ends it with an error; a server that does not
    /// answer is started once, on a third check; every third check shows a waiting line.
    pub fn observe(&mut self, obs: UpdateObservation) -> (r: PollStep)
        requires
            old(self).attempts() < old(self).max_attempts(),
        ensures
            final(self).attempts() == old(self).attempts() + 1,
            final(self).max_attempts() == old(self).max_attempts(),
            final(self).unchanged_deadline() == old(self).unchanged_deadline(),
            final(self).previous_version() == old(self).previous_version(),
            final(self).started() == (old(self).started() || r.start_service),
            ({
                let a = final(self).attempts();
                let m = final(self).max_attempts();
                let third = a % 3 == 0;
                match obs {
                    UpdateObservation::Version(v) => {
                        &&& !r.start_service
                        &&& lines_view(r.after@) == Seq::<(Seq<char>, Seq<char>, bool)>::empty()
                        &&& if v@ != old(self).previous_version() {
                            &&& outcome_opt_view(r.outcome) == Some(Ok::<(), Seq<char>>(()))
                            &&& lines_view(r.before@) == seq![
                                note("✅ Ollama updated successfully to version "@ + v@, "success"@),
                            ]
                        } else if a > final(self).unchanged_deadline() {
                            &&& outcome_opt_view(r.outcome) == Some(
                                Err::<(), Seq<char>>(
                                    "Ollama update did not change the running version. Restart Ollama, then retry."@,
                                ),
                            )
                            &&& lines_view(r.before@) == seq![
                                note("⚠️ Ollama still reports version "@ + v@ + " after the update."@, "error"@),
                                note("💡 Restart Ollama (or your WSL distro), then retry."@, "info"@),
                            ]
                        } else {
                            &&& r.outcome is None
                            &&& lines_view(r.before@) == (if third {
                                seq![note(attempt_text("⏳ Waiting for version change..."@, a, m), "info"@)]
                            } else {
                                Seq::empty()
                            })
                        }
                    },
                    UpdateObservation::VersionUnavailable => {
                        &&& r.outcome is None
                        &&& r.start_service == (!old(self).started() && third)
                        &&& lines_view(r.before@) == (if r.start_service {
                            seq![note("🚀 Attempting to start Ollama..."@, "info"@)]
                        } else {
                            Seq::empty()
                        })
                        &&& lines_view(r.after@) == (if a < m && third {
                            seq![note(attempt_text("⏳ Waiting for Ollama to start..."@, a, m), "info"@)]
                        } else {
                            Seq::empty()
                        })
                    },
                    UpdateObservation::NotInstalled => {
                        &&& r.outcome is None
                        &&& !r.start_service
                        &&& lines_view(r.after@) == Seq::<(Seq<char>, Seq<char>, bool)>::empty()
                        &&& lines_view(r.before@) == (if a < m && third {
                            seq![note(attempt_text("⏳ Waiting for Ollama installation..."@, a, m), "info"@)]
                        } else {
                            Seq::empty()
                        })
                    },
                    UpdateObservation::CheckFailed => {
                        &&& r.outcome is None
                        &&& !r.start_service
                        &&& lines_view(r.after@) == Seq::<(Seq<char>, Seq<char>, bool)>::empty()
                        &&& lines_view(r.before@) == (if a < m && third {
                            seq![note(attempt_text("⏳ Checking Ollama status..."@, a, m), "info"@)]
                        } else {
                            Seq::empty()
                        })
                    },
                }
            }),
    {
        proof {
            use_type_invariant(&*self);
        }
        self.attempts = self.attempts + 1;
        let a = self.attempts;
        let m = self.max_attempts;
        let third = a % 3 == 0;
        match obs {
            UpdateObservation::Version(v) => {
                let same = str_eq(v.as_str(), self.current_version.as_str());
                if !same {
                    let mut t = String::from_str("✅ Ollama updated successfully to version ");
                    push_str(&mut t, v.as_str());
                    PollStep {
                        before: one_line(TerminalLine { line: t, stream: String::from_str("success"), is_progress: false }),
                        start_service: false,
                        after: no_lines(),
                        outcome: Some(Ok(())),
                    }
                } else if a > self.unchanged_deadline {
                    let mut t = String::from_str("⚠️ Ollama still reports version ");
                    push_str(&mut t, v.as_str());
                    push_str(&mut t, " after the update.");
                    PollStep {
                        before: two_lines(
                            TerminalLine { line: t, stream: String::from_str("error"), is_progress: false },
                            terminal_line("💡 Restart Ollama (or your WSL distro), then retry.", "info"),
                        ),
                        start_service: false,
                        after: no_lines(),
                        outcome: Some(
                            Err(
                                String::from_str(
                                    "Ollama update did not change the running version. Restart Ollama, then retry.",
                                ),
                            ),
                        ),
                    }
                } else {
                    PollStep {
                        before: if third {
                            one_line(attempt_line("⏳ Waiting for version change...", a, m))
                        } else {
                            no_lines()
                        },
                        start_service: false,
                        after: no_lines(),
                        outcome: None,
                    }
                }
            },
            UpdateObservation::VersionUnavailable => {
                let start = !self.started && third;
                if start {
                    self.started = true;
                }
                PollStep {
                    before: if start {
                        one_line(terminal_line("🚀 Attempting to start Ollama...", "info"))
                    } else {
                        no_lines()
                    },
                    start_service: start,
                    after: if a < m && third {
                        one_line(attempt_line("⏳ Waiting for Ollama to start...", a, m))
                    } else {
                        no_lines()
                    },
                    outcome: None,
                }
            },
            UpdateObservation::NotInstalled => PollStep {
                before: if a < m && third {
                    one_line(attempt_line("⏳ Waiting for Ollama installation...", a, m))
                } else {
                    no_lines()
                },
                start_service: false,
                after: no_lines(),
                outcome: None,
            },
            UpdateObservation::CheckFailed => PollStep {
                before: if a < m && third {
                    one_line(attempt_line("⏳ Checking Ollama status...", a, m))
                } else {
                    no_lines()
                },
                start_service: false,
                after: no_lines(),
                outcome: None,
            },
        }
    }

    /// Whether the final check starts the server first: only when no check started it.
    pub fn final_start_needed(&self) -> (r: bool)
        ensures
            r == !self.started(),
    {
        !self.started
    }
}

/// The final update check: the version the server reports, or `None` when it does not
/// answer.
pub fn update_final_check(version: Option<String>) -> (r: PollStep)
    ensures
        !r.start_service,
        lines_view(r.after@) == Seq::<(Seq<char>, Seq<char>, bool)>::empty(),
        match version {
            Some(v) => outcome_opt_view(r.outcome) == Some(Ok::<(), Seq<char>>(())) && lines_view(r.before@)
                == seq![note("✅ Ollama updated to version "@ + v@, "success"@)],
            None => outcome_opt_view(r.outcome) == Some(
                Err::<(), Seq<char>>("Ollama did not come back up after the update"@),
            ) && lines_view(r.before@) == seq![
                note("⚠️ Update finished but Ollama is not responding."@, "info"@),
                note("💡 Try starting Ollama manually, then refresh."@, "info"@),
            ],
        },
{
    match version {
        Some(v) => {
            let mut t = String::from_str("✅ Ollama updated to version ");
            push_str(&mut t, v.as_str());
            PollStep {
                before: one_line(TerminalLine { line: t, stream: String::from_str("success"), is_progress: false }),
                start_service: false,
                after: no_lines(),
                outcome: Some(Ok(())),
            }
        },
        None => PollStep {
            before: two_lines(
                terminal_line("⚠️ Update finished but Ollama is not responding.", "info"),
                terminal_line("💡 Try starting Ollama manually, then refresh.", "info"),
            ),
            start_service: false,
            after: no_lines(),
            outcome: Some(Err(String::from_str("Ollama did not come back up after the update"))),
        },
    }
}

/// The server's state in detail.
pub struct OllamaVerificationStatus {
    pub is_installed: bool,
    pub is_running: bool,
    pub version: Option<String>,
    pub platform: String,
}

/// The detailed status from the checks made in turn: whether the server is
/// installed, whether it answers (asked only when installed) and its version (asked
/// only when it answers).
pub fn verification_status(os: TargetOs, is_installed: bool, answers: bool, version: Option<String>) -> (r:
    OllamaVerificationStatus)
    ensures
        r.is_installed == is_installed,
        r.is_running == (is_installed && answers),
        r.version == (if is_installed && answers {
            version
        } else {
            None
        }),
        r.platform@ == os_name(os),
{
    let is_running = is_installed && answers;
    OllamaVerificationStatus {
        is_installed,
        is_running,
        version: if is_running {
            version
        } else {
            None
        },
        platform: detect_operating_system(os),
    }
}

/// Whether the server is installed and running, and its version.
pub struct OllamaStatus {
    pub installed: bool,
    pub running: bool,
    pub version: Option<String>,
}

/// The status from two checks: whether the server is installed, and the version it
/// reported (asked only when installed; `None` when it did not answer). It runs
/// exactly when it reported a version.
pub fn ollama_status(installed: bool, version: Option<String>) -> (r: OllamaStatus)
    ensures
        r.installed == installed,
        r.running == (installed && version is Some),
        r.version == (if installed {
            version
        } else {
            None
        }),
{
    if installed {
        let running = version.is_some();
        OllamaStatus { installed, running, version }
    } else {
        OllamaStatus { installed, running: false, version: None }
    }
}

} // verus!

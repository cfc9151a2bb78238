//! Models registered with the local model server: finding them by name, matching the
//! running ones, judging the outcome of registering a new one, and locating and
//! starting the server program.

use vstd::prelude::*;
use crate::installation::{command_view, LaunchCommand};
use crate::platform::{contains_text, str_contains, TargetOs};
use crate::text::{
    first_part, first_two_parts, has_suffix, push_str, replace_all, split_lines, str_eq, str_ends_with,
    str_replace, text_lines, trim, trimmed,
};

verus! {

/// A model registered with the server.
pub struct OllamaModel {
    pub name: String,
    pub modified_at: String,
    pub size: u64,
}

/// The server's list of registered models.
pub struct OllamaModelList {
    pub models: Vec<OllamaModel>,
}

/// A model the server holds in memory.
pub struct OllamaRunningModel {
    pub name: String,
}

/// The names of a list of models.
pub open spec fn model_names_of(s: Seq<OllamaModel>) -> Seq<Seq<char>> {
    s.map_values(|m: OllamaModel| m.name@)
}

/// The text of a list of names.
pub open spec fn names_view(s: Seq<String>) -> Seq<Seq<char>> {
    s.map_values(|n: String| n@)
}

/// The names of the registered models, in the server's order.
pub fn model_names(list: &OllamaModelList) -> (r: Vec<String>)
    ensures
        names_view(r@) == model_names_of(list.models@),
{
    let mut r: Vec<String> = Vec::new();
    let mut i: usize = 0;
    while i < list.models.len()
        invariant
            i <= list.models@.len(),
            names_view(r@) == model_names_of(list.models@.subrange(0, i as int)),
        decreases list.models@.len() - i,
    {
        let ghost prev = r@;
        let name = String::from_str(list.models[i].name.as_str());
        r.push(name);
        proof {
            assert(r@ == prev.push(name));
            assert(names_view(r@) =~= names_view(prev).push(name@));
            assert(list.models@.subrange(0, i + 1) =~= list.models@.subrange(0, i as int).push(list.models@[i as int]));
            assert(model_names_of(list.models@.subrange(0, i + 1)) =~= model_names_of(list.models@.subrange(0, i as int)).push(list.models@[i as int].name@));
            assert(names_view(r@) =~= model_names_of(list.models@.subrange(0, i + 1)));
        }
        i = i + 1;
    }
    assert(list.models@.subrange(0, list.models@.len() as int) =~= list.models@);
    r
}

/// Whether `name` is one of `names`.
pub fn model_exists(names: &Vec<String>, name: &str) -> (r: bool)
    ensures
        r == exists|i: int| 0 <= i < names@.len() && #[trigger] names@[i]@ == name@,
{
    let mut i: usize = 0;
    while i < names.len()
        invariant
            i <= names@.len(),
            forall|j: int| 0 <= j < i ==> #[trigger] names@[j]@ != name@,
        decreases names@.len() - i,
    {
        if str_eq(names[i].as_str(), name) {
            return true;
        }
        i = i + 1;
    }
    false
}

/// The first model named `name`, or the message saying it was not found.
pub fn find_model(models: Vec<OllamaModel>, name: &str) -> (r: Result<OllamaModel, String>)
    ensures
        match r {
            Ok(m) => exists|i: int|
                0 <= i < models@.len() && models@[i] == m && m.name@ == name@ && forall|j: int|
                    0 <= j < i ==> #[trigger] models@[j].name@ != name@,
            Err(e) => e@ == "Model '"@ + name@ + "' not found"@ && forall|j: int|
                0 <= j < models@.len() ==> #[trigger] models@[j].name@ != name@,
        },
{
    let ghost all = models@;
    let mut rest = models;
    let n = rest.len();
    let mut i: usize = 0;
    while i < n
        invariant
            i <= n,
            n == all.len(),
            rest@ == all,
            models@ == all,
            forall|j: int| 0 <= j < i ==> #[trigger] all[j].name@ != name@,
        decreases n - i,
    {
        if str_eq(rest[i].name.as_str(), name) {
            let m = rest.remove(i);
            assert(all[i as int] == m);
            return Ok(m);
        }
        i = i + 1;
    }
    let mut e = String::from_str("Model '");
    push_str(&mut e, name);
    push_str(&mut e, "' not found");
    Err(e)
}

/// A name without its `:tag` (the text before the first `:`).
pub open spec fn base_name(n: Seq<char>) -> Seq<char> {
    first_part(n, ':')
}

/// Whether a model held in memory is the one asked for: the same name, or the same
/// name once the tags are dropped.
pub open spec fn loaded_as(running: Seq<char>, name: Seq<char>) -> bool {
    running == name || base_name(running) == base_name(name)
}

/// Whether the model `name` is held in memory, given the server's running models.
pub fn is_model_loaded(running: &Vec<OllamaRunningModel>, name: &str) -> (r: bool)
    ensures
        r == exists|i: int| 0 <= i < running@.len() && #[trigger] loaded_as(running@[i].name@, name@),
{
    let (base, _) = first_two_parts(name, ':');
    let mut i: usize = 0;
    while i < running.len()
        invariant
            i <= running@.len(),
            base@ == base_name(name@),
            forall|j: int| 0 <= j < i ==> !#[trigger] loaded_as(running@[j].name@, name@),
        decreases running@.len() - i,
    {
        let m = running[i].name.as_str();
        let (mb, _) = first_two_parts(m, ':');
        if str_eq(m, name) || str_eq(mb.as_str(), base.as_str()) {
            assert(loaded_as(running@[i as int].name@, name@));
            return true;
        }
        i = i + 1;
    }
    false
}

/// Whether `m` is the model `name` as registered: the name itself or its `:latest` tag.
pub open spec fn registered_as(m: Seq<char>, name: Seq<char>) -> bool {
    m == name || m == name + ":latest"@
}

/// Whether the model `name` is among the registered `names`, tagged `:latest` or not.
pub fn is_registered(names: &Vec<String>, name: &str) -> (r: bool)
    ensures
        r == exists|i: int| 0 <= i < names@.len() && #[trigger] registered_as(names@[i]@, name@),
{
    let mut tagged = String::from_str(name);
    push_str(&mut tagged, ":latest");
    let mut i: usize = 0;
    while i < names.len()
        invariant
            i <= names@.len(),
            tagged@ == name@ + ":latest"@,
            forall|j: int| 0 <= j < i ==> !#[trigger] registered_as(names@[j]@, name@),
        decreases names@.len() - i,
    {
        if str_eq(names[i].as_str(), name) || str_eq(names[i].as_str(), tagged.as_str()) {
            assert(registered_as(names@[i as int]@, name@));
            return true;
        }
        i = i + 1;
    }
    false
}

/// Whether the registered `m` answers a chat request for `name`: the name itself, the
/// name tagged `:latest`, or, for a name tagged `:latest`, the name without the tag.
pub open spec fn chat_model_matches(m: Seq<char>, name: Seq<char>) -> bool {
    ||| m == name
    ||| m == name + ":latest"@
    ||| (has_suffix(name, ":latest"@) && m == replace_all(name, ":latest"@, Seq::empty()))
}

/// The first registered model that answers a chat request for `name` (see
/// `chat_model_matches`).
pub fn find_chat_model(names: &Vec<String>, name: &str) -> (r: Option<String>)
    ensures
        match r {
            Some(m) => exists|i: int|
                0 <= i < names@.len() && names@[i]@ == m@ && chat_model_matches(m@, name@) && forall|j: int|
                    0 <= j < i ==> !#[trigger] chat_model_matches(names@[j]@, name@),
            None => forall|j: int| 0 <= j < names@.len() ==> !#[trigger] chat_model_matches(names@[j]@, name@),
        },
{
    proof {
        reveal_strlit(":latest");
        reveal_strlit("");
        assert(""@ =~= Seq::<char>::empty());
    }
    let mut tagged = String::from_str(name);
    push_str(&mut tagged, ":latest");
    let is_tagged = str_ends_with(name, ":latest");
    let untagged = str_replace(name, ":latest", "");
    let mut i: usize = 0;
    while i < names.len()
        invariant
            i <= names@.len(),
            tagged@ == name@ + ":latest"@,
            is_tagged == has_suffix(name@, ":latest"@),
            untagged@ == replace_all(name@, ":latest"@, Seq::empty()),
            forall|j: int| 0 <= j < i ==> !#[trigger] chat_model_matches(names@[j]@, name@),
        decreases names@.len() - i,
    {
        let m = names[i].as_str();
        if str_eq(m, name) || str_eq(m, tagged.as_str()) || (is_tagged && str_eq(m, untagged.as_str())) {
            assert(chat_model_matches(names@[i as int]@, name@));
            return Some(names[i].clone());
        }
        i = i + 1;
    }
    None
}

/// The result of running `ollama create`: a successful run that still printed an
/// error (the word `error` or `Error` on its error stream) is a failure.
pub open spec fn create_outcome_for(model_name: Seq<char>, success: bool, stderr: Seq<char>) -> Result<
    Seq<char>,
    Seq<char>,
> {
    if success {
        if contains_text(stderr, "error"@) || contains_text(stderr, "Error"@) {
            Err("Ollama error: "@ + stderr)
        } else {
            Ok("Model '"@ + model_name + "' created successfully"@)
        }
    } else {
        Err("Failed to create model: "@ + stderr)
    }
}

/// Judges a run of `ollama create` from its exit status and error stream (see
/// `create_outcome_for`).
pub fn create_outcome(model_name: &str, success: bool, stderr: &str) -> (r: Result<String, String>)
    ensures
        match r {
            Ok(m) => create_outcome_for(model_name@, success, stderr@) == Ok::<Seq<char>, Seq<char>>(m@),
            Err(e) => create_outcome_for(model_name@, success, stderr@) == Err::<Seq<char>, Seq<char>>(e@),
        },
{
    if success {
        if str_contains(stderr, "error") || str_contains(stderr, "Error") {
            let mut e = String::from_str("Ollama error: ");
            push_str(&mut e, stderr);
            Err(e)
        } else {
            let mut m = String::from_str("Model '");
            push_str(&mut m, model_name);
            push_str(&mut m, "' created successfully");
            Ok(m)
        }
    } else {
        let mut e = String::from_str("Failed to create model: ");
        push_str(&mut e, stderr);
        Err(e)
    }
}

/// Where the server program is looked for, in order. On Windows: the two program
/// folders, then below `%LOCALAPPDATA%` and `%USERPROFILE%` when those are set;
/// elsewhere four usual install locations.
pub open spec fn executable_candidates(os: TargetOs, localappdata: Option<Seq<char>>, userprofile: Option<Seq<char>>) -> Seq<
    Seq<char>,
> {
    if os == TargetOs::Windows {
        let fixed = seq!["C:\\Program Files\\Ollama\\ollama.exe"@, "C:\\Program Files (x86)\\Ollama\\ollama.exe"@];
        let with_local = match localappdata {
            Some(l) => fixed.push(l + "\\Programs\\Ollama\\ollama.exe"@),
            None => fixed,
        };
        match userprofile {
            Some(u) => with_local.push(u + "\\AppData\\Local\\Programs\\Ollama\\ollama.exe"@),
            None => with_local,
        }
    } else {
        seq!["/usr/local/bin/ollama"@, "/usr/bin/ollama"@, "/snap/bin/ollama"@, "/var/lib/flatpak/exports/bin/ollama"@]
    }
}

/// The text of an optional string.
pub open spec fn opt_text(o: Option<&str>) -> Option<Seq<char>> {
    match o {
        Some(s) => Some(s@),
        None => None,
    }
}

/// The places the server program is looked for (see `executable_candidates`);
/// `localappdata` and `userprofile` are those environment variables.
pub fn ollama_executable_candidates(os: TargetOs, localappdata: Option<&str>, userprofile: Option<&str>) -> (r:
    Vec<String>)
    ensures
        names_view(r@) == executable_candidates(os, opt_text(localappdata), opt_text(userprofile)),
{
    let mut r: Vec<String> = Vec::new();
    if os == TargetOs::Windows {
        r.push(String::from_str("C:\\Program Files\\Ollama\\ollama.exe"));
        r.push(String::from_str("C:\\Program Files (x86)\\Ollama\\ollama.exe"));
        if let Some(l) = localappdata {
            let mut p = String::from_str(l);
            push_str(&mut p, "\\Programs\\Ollama\\ollama.exe");
            r.push(p);
        }
        if let Some(u) = userprofile {
            let mut p = String::from_str(u);
            push_str(&mut p, "\\AppData\\Local\\Programs\\Ollama\\ollama.exe");
            r.push(p);
        }
    } else {
        r.push(String::from_str("/usr/local/bin/ollama"));
        r.push(String::from_str("/usr/bin/ollama"));
        r.push(String::from_str("/snap/bin/ollama"));
        r.push(String::from_str("/var/lib/flatpak/exports/bin/ollama"));
    }
    assert(names_view(r@) =~= executable_candidates(os, opt_text(localappdata), opt_text(userprofile)));
    r
}

/// What asking Windows' `where ollama` gave.
pub enum LookupResult {
    /// The command could not be run.
    Unavailable(String),
    /// It ran: whether it succeeded, and its output.
    Finished { success: bool, stdout: String },
}

/// Where the server program is: the first candidate that exists; failing that, `ollama`
/// on the search path outside Windows, and on Windows the first line of `where
/// ollama`, trimmed, when it succeeded with a non-empty line.
pub open spec fn executable_for(
    os: TargetOs,
    candidates: Seq<Seq<char>>,
    exists: Seq<bool>,
    lookup: Option<LookupResult>,
) -> Result<Seq<char>, Seq<char>>
    decreases candidates.len(),
{
    if candidates.len() > 0 && exists.len() > 0 {
        if exists[0] {
            Ok(candidates[0])
        } else {
            executable_for(os, candidates.drop_first(), exists.drop_first(), lookup)
        }
    } else if os != TargetOs::Windows {
        Ok("ollama"@)
    } else {
        match lookup {
            Some(LookupResult::Unavailable(e)) => Err("Failed to find ollama: "@ + e@),
            Some(LookupResult::Finished { success, stdout }) => if !success {
                Err("Could not find ollama executable. Please ensure Ollama is installed."@)
            } else if text_lines(stdout@).len() == 0 {
                Err("No ollama found"@)
            } else if trimmed(text_lines(stdout@)[0]).len() > 0 {
                Ok(trimmed(text_lines(stdout@)[0]))
            } else {
                Err("Could not find ollama executable. Please ensure Ollama is installed."@)
            },
            None => Err("Could not find ollama executable. Please ensure Ollama is installed."@),
        }
    }
}

/// Locates the server program (see `executable_for`); `exists` tells for each
/// candidate whether it exists, and `lookup` is what `where ollama` gave on Windows.
pub fn find_ollama_executable(os: TargetOs, candidates: &Vec<String>, exists: &Vec<bool>, lookup: Option<LookupResult>) -> (r:
    Result<String, String>)
    requires
        exists@.len() == candidates@.len(),
    ensures
        match r {
            Ok(p) => executable_for(os, names_view(candidates@), exists@, lookup) == Ok::<Seq<char>, Seq<char>>(p@),
            Err(e) => executable_for(os, names_view(candidates@), exists@, lookup) == Err::<Seq<char>, Seq<char>>(
                e@,
            ),
        },
{
    let ghost cv = names_view(candidates@);
    assert(cv.subrange(0, cv.len() as int) =~= cv);
    assert(exists@.subrange(0, exists@.len() as int) =~= exists@);
    let mut i: usize = 0;
    while i < candidates.len()
        invariant
            i <= candidates@.len(),
            exists@.len() == candidates@.len(),
            cv == names_view(candidates@),
            executable_for(os, cv.subrange(i as int, cv.len() as int), exists@.subrange(i as int, exists@.len() as int), lookup)
                == executable_for(os, cv, exists@, lookup),
        decreases candidates@.len() - i,
    {
        let ghost cs = cv.subrange(i as int, cv.len() as int);
        let ghost es = exists@.subrange(i as int, exists@.len() as int);
        if exists[i] {
            assert(cs[0] == candidates@[i as int]@);
            return Ok(candidates[i].clone());
        }
        assert(cs.drop_first() =~= cv.subrange(i + 1, cv.len() as int));
        assert(es.drop_first() =~= exists@.subrange(i + 1, exists@.len() as int));
        i = i + 1;
    }
    proof {
        assert(cv.subrange(i as int, cv.len() as int).len() == 0);
    }
    if os != TargetOs::Windows {
        return Ok(String::from_str("ollama"));
    }
    match lookup {
        Some(LookupResult::Unavailable(e)) => {
            let mut m = String::from_str("Failed to find ollama: ");
            push_str(&mut m, e.as_str());
            Err(m)
        },
        Some(LookupResult::Finished { success, stdout }) => {
            if !success {
                return Err(String::from_str("Could not find ollama executable. Please ensure Ollama is installed."));
            }
            let lines = split_lines(stdout.as_str());
            if lines.len() == 0 {
                return Err(String::from_str("No ollama found"));
            }
            assert(lines@[0]@ == text_lines(stdout@)[0]);
            let path = trim(lines[0].as_str());
            if path.as_str().unicode_len() > 0 {
                Ok(path)
            } else {
                Err(String::from_str("Could not find ollama executable. Please ensure Ollama is installed."))
            }
        },
        None => Err(String::from_str("Could not find ollama executable. Please ensure Ollama is installed.")),
    }
}

/// One way of starting the server: a command to run, whether to wait for it to exit
/// (a service manager) or leave it running (the server itself), then how many times
/// (and how many milliseconds apart) to check whether the server answers.
pub struct StartStep {
    pub command: LaunchCommand,
    pub wait_for_exit: bool,
    pub checks: u32,
    pub check_interval_ms: u64,
}

/// The ways the server is started on Linux, in order: the system service, the user
/// service (each waited for, then four checks half a second apart), then the program
/// itself (left running, then eight checks).
pub open spec fn linux_start_steps() -> Seq<((Seq<char>, Seq<Seq<char>>), bool, u32, u64)> {
    seq![
        (("systemctl"@, seq!["start"@, "ollama.service"@]), true, 4u32, 500u64),
        (("systemctl"@, seq!["--user"@, "start"@, "ollama.service"@]), true, 4u32, 500u64),
        (("ollama"@, seq!["serve"@]), false, 8u32, 500u64),
    ]
}

/// The text of a start step.
pub open spec fn start_step_view(s: StartStep) -> ((Seq<char>, Seq<Seq<char>>), bool, u32, u64) {
    (command_view(s.command), s.wait_for_exit, s.checks, s.check_interval_ms)
}

fn command_of(program: &str, args: &[&str]) -> (r: LaunchCommand)
    ensures
        command_view(r) == (program@, args@.map_values(|a: &str| a@)),
{
    let mut v: Vec<String> = Vec::new();
    let mut i: usize = 0;
    while i < args.len()
        invariant
            i <= args@.len(),
            v@.map_values(|a: String| a@) == args@.take(i as int).map_values(|a: &str| a@),
        decreases args@.len() - i,
    {
        let ghost before = v@;
        let a = String::from_str(args[i]);
        assert(a@ == args@[i as int]@);
        v.push(a);
        proof {
            assert(args@.take(i + 1) =~= args@.take(i as int).push(args@[i as int]));
            assert(v@ == before.push(a));
            assert(v@.map_values(|a: String| a@) =~= before.map_values(|a: String| a@).push(a@));
            assert(args@.take(i + 1).map_values(|a: &str| a@) =~= args@.take(i as int).map_values(
                |a: &str| a@,
            ).push(args@[i as int]@));
        }
        i = i + 1;
    }
    assert(args@.take(i as int) =~= args@);
    LaunchCommand { program: String::from_str(program), args: v }
}

/// The steps that start the server on Linux (see `linux_start_steps`).
pub fn ollama_linux_start_steps() -> (r: Vec<StartStep>)
    ensures
        r@.map_values(|s: StartStep| start_step_view(s)) == linux_start_steps(),
{
    let mut r: Vec<StartStep> = Vec::new();
    let c1 = command_of("systemctl", &["start", "ollama.service"]);
    let c2 = command_of("systemctl", &["--user", "start", "ollama.service"]);
    let c3 = command_of("ollama", &["serve"]);
    proof {
        assert(c1.args@.map_values(|a: String| a@) =~= seq!["start"@, "ollama.service"@]);
        assert(c2.args@.map_values(|a: String| a@) =~= seq!["--user"@, "start"@, "ollama.service"@]);
        assert(c3.args@.map_values(|a: String| a@) =~= seq!["serve"@]);
    }
    r.push(StartStep { command: c1, wait_for_exit: true, checks: 4, check_interval_ms: 500 });
    r.push(StartStep { command: c2, wait_for_exit: true, checks: 4, check_interval_ms: 500 });
    r.push(StartStep { command: c3, wait_for_exit: false, checks: 8, check_interval_ms: 500 });
    assert(r@.map_values(|s: StartStep| start_step_view(s)) =~= linux_start_steps());
    r
}

/// How the server is started on Windows: each installed copy whose file exists is
/// launched in turn until one starts; when none does, the program is looked up by
/// name; if that cannot be launched either, starting fails with `launch_failure`.
/// Then the server is checked `checks` times, `check_interval_ms` apart.
pub struct WindowsStartPlan {
    pub installed: Vec<LaunchCommand>,
    pub fallback: LaunchCommand,
    pub launch_failure: String,
    pub checks: u32,
    pub check_interval_ms: u64,
}

/// The Windows plan: the two program-files copies, then `ollama serve`, then twelve
/// checks a quarter second apart (three seconds in all).
pub open spec fn windows_start_plan() -> (
    Seq<(Seq<char>, Seq<Seq<char>>)>,
    (Seq<char>, Seq<Seq<char>>),
    Seq<char>,
    u32,
    u64,
) {
    (
        seq![
            ("C:\\Program Files\\Ollama\\ollama.exe"@, seq!["serve"@]),
            ("C:\\Program Files (x86)\\Ollama\\ollama.exe"@, seq!["serve"@]),
        ],
        ("ollama"@, seq!["serve"@]),
        "Failed to start Ollama"@,
        12u32,
        250u64,
    )
}

/// The text of a Windows start plan.
pub open spec fn windows_plan_view(p: WindowsStartPlan) -> (
    Seq<(Seq<char>, Seq<Seq<char>>)>,
    (Seq<char>, Seq<Seq<char>>),
    Seq<char>,
    u32,
    u64,
) {
    (
        p.installed@.map_values(|c: LaunchCommand| command_view(c)),
        command_view(p.fallback),
        p.launch_failure@,
        p.checks,
        p.check_interval_ms,
    )
}

/// The plan that starts the server on Windows (see `windows_start_plan`).
pub fn ollama_windows_start_plan() -> (r: WindowsStartPlan)
    ensures
        windows_plan_view(r) == windows_start_plan(),
{
    let c1 = command_of("C:\\Program Files\\Ollama\\ollama.exe", &["serve"]);
    let c2 = command_of("C:\\Program Files (x86)\\Ollama\\ollama.exe", &["serve"]);
    let fallback = command_of("ollama", &["serve"]);
    proof {
        assert(c1.args@.map_values(|a: String| a@) =~= seq!["serve"@]);
        assert(c2.args@.map_values(|a: String| a@) =~= seq!["serve"@]);
        assert(fallback.args@.map_values(|a: String| a@) =~= seq!["serve"@]);
    }
    let mut installed: Vec<LaunchCommand> = Vec::new();
    installed.push(c1);
    installed.push(c2);
    let r = WindowsStartPlan {
        installed,
        fallback,
        launch_failure: String::from_str("Failed to start Ollama"),
        checks: 12,
        check_interval_ms: 250,
    };
    assert(windows_plan_view(r).0 =~= windows_start_plan().0);
    r
}

/// Where starting the server stands: the step being tried and how many checks it has
/// made.
#[derive(Debug, Clone, Copy, PartialEq, Eq, Structural)]
pub struct StartState {
    pub step: usize,
    pub checks_done: u32,
}

/// What happened since the last decision.
#[derive(Debug, Clone, Copy, PartialEq, Eq, Structural)]
pub enum StartEvent {
    /// The step's command was run.
    Launched,
    /// The server was asked whether it answers.
    Checked { running: bool },
}

/// What to do next.
#[derive(Debug, Clone, Copy, PartialEq, Eq, Structural)]
pub enum StartAction {
    /// Run the command of this step.
    Launch { step: usize },
    /// Wait the step's interval, then ask the server whether it answers.
    Check,
    /// The server answers.
    Started,
    /// Every step was tried and the server never answered.
    GaveUp,
}

/// The first decision, for steps making `checks[i]` checks each.
pub open spec fn start_first(checks: Seq<u32>) -> (StartState, StartAction) {
    if checks.len() > 0 {
        (StartState { step: 0, checks_done: 0 }, StartAction::Launch { step: 0 })
    } else {
        (StartState { step: 0, checks_done: 0 }, StartAction::GaveUp)
    }
}

/// Moving on from `step`: launch the next step, or give up after the last.
pub open spec fn after_step(checks: Seq<u32>, step: usize) -> (StartState, StartAction) {
    if step + 1 < checks.len() {
        (StartState { step: (step + 1) as usize, checks_done: 0 }, StartAction::Launch { step: (step + 1) as usize })
    } else {
        (StartState { step, checks_done: 0 }, StartAction::GaveUp)
    }
}

/// The next decision: after a launch, check (or move on when the step makes no
/// check); after a check, stop when the server answers, otherwise check again until
/// the step has made all its checks, then move on.
pub open spec fn start_transition(checks: Seq<u32>, s: StartState, e: StartEvent) -> (StartState, StartAction) {
    match e {
        StartEvent::Launched => if checks[s.step as int] > 0 {
            (StartState { step: s.step, checks_done: 0 }, StartAction::Check)
        } else {
            after_step(checks, s.step)
        },
        StartEvent::Checked { running } => if running {
            (s, StartAction::Started)
        } else if s.checks_done + 1 < checks[s.step as int] {
            (StartState { step: s.step, checks_done: (s.checks_done + 1) as u32 }, StartAction::Check)
        } else {
            after_step(checks, s.step)
        },
    }
}

/// The first decision when starting the server with steps making `checks[i]` checks
/// each (see `start_first`).
pub fn start_begin(checks: &Vec<u32>) -> (r: (StartState, StartAction))
    ensures
        r == start_first(checks@),
{
    if checks.len() > 0 {
        (StartState { step: 0, checks_done: 0 }, StartAction::Launch { step: 0 })
    } else {
        (StartState { step: 0, checks_done: 0 }, StartAction::GaveUp)
    }
}

/// The next decision after `event` (see `start_transition`).
pub fn start_next(checks: &Vec<u32>, state: StartState, event: StartEvent) -> (r: (StartState, StartAction))
    requires
        state.step < checks@.len(),
    ensures
        r == start_transition(checks@, state, event),
        r.0.step < checks@.len(),
{
    let limit = checks[state.step];
    let moved = if state.step < checks.len() - 1 {
        (StartState { step: state.step + 1, checks_done: 0 }, StartAction::Launch { step: state.step + 1 })
    } else {
        (StartState { step: state.step, checks_done: 0 }, StartAction::GaveUp)
    };
    match event {
        StartEvent::Launched => if limit > 0 {
            (StartState { step: state.step, checks_done: 0 }, StartAction::Check)
        } else {
            moved
        },
        StartEvent::Checked { running } => if running {
            (state, StartAction::Started)
        } else if (state.checks_done as u64) + 1 < limit as u64 {
            (StartState { step: state.step, checks_done: state.checks_done + 1 }, StartAction::Check)
        } else {
            moved
        },
    }
}

/// Starting the server succeeds only on a check that found it answering, and gives up
/// only after the last step, once that step has made all its checks.
pub proof fn law_started_only_when_seen_running(checks: Seq<u32>, s: StartState, e: StartEvent)
    requires
        s.step < checks.len(),
    ensures
        start_transition(checks, s, e).1 == StartAction::Started ==> e == (StartEvent::Checked { running: true }),
        start_transition(checks, s, e).1 == StartAction::GaveUp ==> s.step + 1 == checks.len() && match e {
            StartEvent::Launched => checks[s.step as int] == 0,
            StartEvent::Checked { running } => !running && s.checks_done + 1 >= checks[s.step as int],
        },
{
}

/// Every check of a step is made before the next step is launched: a failed check
/// that is not the step's last leads to another check of the same step.
pub proof fn law_each_step_checks_fully(checks: Seq<u32>, s: StartState)
    requires
        s.step < checks.len(),
        s.checks_done + 1 < checks[s.step as int],
    ensures
        start_transition(checks, s, StartEvent::Checked { running: false }) == (
        StartState { step: s.step, checks_done: (s.checks_done + 1) as u32 },
        StartAction::Check,
        ),
{
}

/// The message when starting the server gave up: on Linux it may still be starting;
/// on Windows it did not answer within three seconds (twelve checks a quarter second
/// apart); elsewhere starting is not supported.
pub fn start_give_up_message(os: TargetOs) -> (r: String)
    ensures
        r@ == match os {
            TargetOs::Linux => "Ollama is starting but not ready yet"@,
            TargetOs::Windows => "Ollama failed to start after 3 seconds"@,
            TargetOs::Other => "Unsupported platform for starting Ollama"@,
        },
{
    match os {
        TargetOs::Linux => String::from_str("Ollama is starting but not ready yet"),
        TargetOs::Windows => String::from_str("Ollama failed to start after 3 seconds"),
        TargetOs::Other => String::from_str("Unsupported platform for starting Ollama"),
    }
}

} // verus!

use solyn::ollama_models::{
    create_outcome, find_chat_model, find_model, find_ollama_executable, is_model_loaded, is_registered,
    model_exists, model_names, ollama_executable_candidates, ollama_linux_start_steps, ollama_windows_start_plan, start_begin, start_give_up_message, start_next, StartAction,
    StartEvent, StartState,
    LookupResult, OllamaModel, OllamaModelList, OllamaRunningModel,
};
use solyn::platform::TargetOs;

fn m(name: &str) -> OllamaModel {
    OllamaModel { name: name.to_string(), modified_at: "t".to_string(), size: 1 }
}

fn names(v: &[&str]) -> Vec<String> {
    v.iter().map(|s| s.to_string()).collect()
}

#[test]
fn listing_names_and_lookup() {
    let list = OllamaModelList { models: vec![m("a:latest"), m("b")] };
    assert_eq!(model_names(&list), names(&["a:latest", "b"]));
    assert!(model_exists(&names(&["a", "b"]), "b"));
    assert!(!model_exists(&names(&["a", "b"]), "c"));
    assert_eq!(find_model(vec![m("x"), m("y")], "y").unwrap().name, "y");
    assert_eq!(find_model(vec![m("x")], "z").err().unwrap(), "Model 'z' not found");
}

#[test]
fn loaded_models_match_by_base_name() {
    let running = vec![OllamaRunningModel { name: "llama3:8b".to_string() }];
    assert!(is_model_loaded(&running, "llama3:latest"));
    assert!(is_model_loaded(&running, "llama3:8b"));
    assert!(!is_model_loaded(&running, "mistral"));
    assert!(!is_model_loaded(&vec![], "llama3"));
}

#[test]
fn registration_accepts_the_latest_tag() {
    assert!(is_registered(&names(&["m:latest"]), "m"));
    assert!(is_registered(&names(&["m"]), "m"));
    assert!(!is_registered(&names(&["m2"]), "m"));
}

#[test]
fn chat_models_are_found_with_or_without_tag() {
    let list = names(&["a", "b:latest"]);
    assert_eq!(find_chat_model(&list, "b").as_deref(), Some("b:latest"));
    assert_eq!(find_chat_model(&list, "a:latest").as_deref(), Some("a"));
    assert_eq!(find_chat_model(&list, "c"), None);
}

#[test]
fn create_outcomes() {
    assert_eq!(create_outcome("m", true, "").unwrap(), "Model 'm' created successfully");
    assert_eq!(create_outcome("m", true, "Error: bad file").unwrap_err(), "Ollama error: Error: bad file");
    assert_eq!(create_outcome("m", false, "boom").unwrap_err(), "Failed to create model: boom");
}

#[test]
fn executable_candidates_and_choice() {
    let unix = ollama_executable_candidates(TargetOs::Linux, None, None);
    assert_eq!(unix.len(), 4);
    assert_eq!(unix[0], "/usr/local/bin/ollama");
    let win = ollama_executable_candidates(TargetOs::Windows, Some("C:\\L"), None);
    assert_eq!(win.len(), 3);
    assert_eq!(win[2], "C:\\L\\Programs\\Ollama\\ollama.exe");
    assert_eq!(find_ollama_executable(TargetOs::Linux, &unix, &vec![false, true, false, false], None).unwrap(), "/usr/bin/ollama");
    assert_eq!(find_ollama_executable(TargetOs::Linux, &unix, &vec![false; 4], None).unwrap(), "ollama");
    let lookup = LookupResult::Finished { success: true, stdout: "  C:\\o\\ollama.exe \r\nC:\\other\n".to_string() };
    assert_eq!(find_ollama_executable(TargetOs::Windows, &win, &vec![false; 3], Some(lookup)).unwrap(), "C:\\o\\ollama.exe");
    let empty = LookupResult::Finished { success: true, stdout: String::new() };
    assert_eq!(find_ollama_executable(TargetOs::Windows, &win, &vec![false; 3], Some(empty)).unwrap_err(), "No ollama found");
    let failed = LookupResult::Finished { success: false, stdout: String::new() };
    assert_eq!(
        find_ollama_executable(TargetOs::Windows, &win, &vec![false; 3], Some(failed)).unwrap_err(),
        "Could not find ollama executable. Please ensure Ollama is installed."
    );
    let broken = LookupResult::Unavailable("no where".to_string());
    assert_eq!(find_ollama_executable(TargetOs::Windows, &win, &vec![false; 3], Some(broken)).unwrap_err(), "Failed to find ollama: no where");
}

#[test]
fn start_plan() {
    let steps = ollama_linux_start_steps();
    assert_eq!(steps.len(), 3);
    assert_eq!(steps[1].command.args, names(&["--user", "start", "ollama.service"]));
    assert_eq!(steps[2].checks, 8);
    assert!(steps[0].wait_for_exit && steps[1].wait_for_exit && !steps[2].wait_for_exit);
    assert_eq!(steps[2].command.program, "ollama");
    assert_eq!(start_give_up_message(TargetOs::Windows), "Ollama failed to start after 3 seconds");
}

#[test]
fn windows_start_plan() {
    let plan = ollama_windows_start_plan();
    let programs: Vec<&str> = plan.installed.iter().map(|c| c.program.as_str()).collect();
    assert_eq!(programs, vec![r"C:\Program Files\Ollama\ollama.exe", r"C:\Program Files (x86)\Ollama\ollama.exe"]);
    assert!(plan.installed.iter().all(|c| c.args == names(&["serve"])));
    assert_eq!(plan.fallback.program, "ollama");
    assert_eq!(plan.fallback.args, names(&["serve"]));
    assert_eq!(plan.launch_failure, "Failed to start Ollama");
    assert_eq!((plan.checks, plan.check_interval_ms), (12, 250));
}

/// Runs the start decisions with a server that answers on check number `answer_on`
/// (never when `None`), returning the launches made, the checks made and the outcome.
fn run_start(checks: &Vec<u32>, answer_on: Option<u32>) -> (Vec<usize>, u32, StartAction) {
    let (mut state, mut action) = start_begin(checks);
    let mut launches = Vec::new();
    let mut made = 0;
    loop {
        let event = match action {
            StartAction::Launch { step } => {
                launches.push(step);
                StartEvent::Launched
            }
            StartAction::Check => {
                made += 1;
                StartEvent::Checked { running: answer_on == Some(made) }
            }
            StartAction::Started | StartAction::GaveUp => return (launches, made, action),
        };
        let (s, a) = start_next(checks, state, event);
        state = s;
        action = a;
    }
}

#[test]
fn starting_tries_each_step_with_all_its_checks() {
    let checks = vec![4, 4, 8];
    assert_eq!(run_start(&checks, None), (vec![0, 1, 2], 16, StartAction::GaveUp));
    assert_eq!(run_start(&checks, Some(6)), (vec![0, 1], 6, StartAction::Started));
    assert_eq!(run_start(&checks, Some(1)), (vec![0], 1, StartAction::Started));
    assert_eq!(run_start(&vec![12], None), (vec![0], 12, StartAction::GaveUp));
    assert_eq!(run_start(&vec![0, 2], None), (vec![0, 1], 2, StartAction::GaveUp));
    assert_eq!(run_start(&vec![], None), (vec![], 0, StartAction::GaveUp));
}

#[test]
fn a_check_that_finds_the_server_running_ends_starting() {
    let checks = vec![4];
    let s = StartState { step: 0, checks_done: 2 };
    assert_eq!(start_next(&checks, s, StartEvent::Checked { running: true }), (s, StartAction::Started));
    assert_eq!(
        start_next(&checks, s, StartEvent::Checked { running: false }),
        (StartState { step: 0, checks_done: 3 }, StartAction::Check)
    );
    assert_eq!(
        start_next(&checks, StartState { step: 0, checks_done: 3 }, StartEvent::Checked { running: false }),
        (StartState { step: 0, checks_done: 0 }, StartAction::GaveUp)
    );
}

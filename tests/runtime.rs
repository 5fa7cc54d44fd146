use steamtools::bridge::{Download, DownloadAction};
use steamtools::cancel::{start_file, stop_file, CancellationFlag, HookAction};
use steamtools::host::{ExecError, RunOutcome, Worker, WorkerAction, WorkerEvent, WorkerState};
use steamtools::runner::{list_scripts, start, DirEntryInfo, PluginScript};

fn entry(name: &str, is_file: bool) -> DirEntryInfo {
    DirEntryInfo { file_name: name.to_string(), is_file }
}

fn script(name: &str) -> PluginScript {
    PluginScript { name: name.to_string(), source_path: format!("./plugins/{}.lua", name) }
}

#[test]
fn start_clears_a_stop_that_came_just_before() {
    let mut flag = CancellationFlag::new();
    stop_file(&mut flag);
    assert_eq!(flag, CancellationFlag::StopRequested);
    start_file(&mut flag);
    assert_eq!(flag, CancellationFlag::Running);
    flag.stop();
    flag.stop();
    assert_eq!(flag, CancellationFlag::StopRequested);
    flag.start();
    assert_eq!(flag, CancellationFlag::Running);
}

#[test]
fn hook_aborts_only_on_a_stop() {
    assert_eq!(CancellationFlag::Running.hook(), HookAction::Continue);
    assert_eq!(CancellationFlag::StopRequested.hook(), HookAction::Abort);
}

#[test]
fn second_start_after_stop_observes_running() {
    let mut flag = CancellationFlag::new();
    let first = start(&mut flag, &script("first"));
    assert_eq!(flag, CancellationFlag::Running);
    assert_eq!(first.current(), WorkerState::Idle);
    stop_file(&mut flag);
    assert_eq!(flag.hook(), HookAction::Abort);
    let second = start(&mut flag, &script("second"));
    assert_eq!(flag, CancellationFlag::Running);
    assert_eq!(flag.hook(), HookAction::Continue);
    assert_eq!(second.current(), WorkerState::Idle);
}

#[test]
fn fresh_plugin_directory_lists_nothing() {
    assert!(list_scripts("./plugins", &vec![]).is_empty());
}

#[test]
fn listing_keeps_lua_files_named_by_stem() {
    let entries = vec![
        entry("greet.lua", true),
        entry("notes.txt", true),
        entry("sub.lua", false),
        entry(".lua", true),
        entry("büro.tool.lua", true),
        entry("a.lu", true),
    ];
    let found = list_scripts("./plugins", &entries);
    assert_eq!(
        found,
        vec![
            PluginScript { name: "greet".to_string(), source_path: "./plugins/greet.lua".to_string() },
            PluginScript { name: "büro.tool".to_string(), source_path: "./plugins/büro.tool.lua".to_string() },
        ]
    );
}

fn run_until_call(w: &mut Worker) {
    assert_eq!(w.step(WorkerEvent::Begin), Some(WorkerAction::CreateInterpreter));
    assert_eq!(w.step(WorkerEvent::Created(true)), Some(WorkerAction::InstallBridge));
    assert_eq!(
        w.step(WorkerEvent::BridgeInstalled),
        Some(WorkerAction::LoadFile("./plugins/greet.lua".to_string()))
    );
    assert_eq!(w.step(WorkerEvent::Loaded(0, String::new())), Some(WorkerAction::Call));
}

#[test]
fn script_whose_download_fails_ends_and_releases_the_interpreter() {
    let mut flag = CancellationFlag::new();
    let mut w = start(&mut flag, &script("greet"));
    run_until_call(&mut w);
    // The script calls download on an unreachable URL: the bridge answers false.
    let (mut d, first) = Download::new(Some("http://127.0.0.1:1/x".to_string()), Some("out.bin".to_string()));
    assert_eq!(first, DownloadAction::Fetch("http://127.0.0.1:1/x".to_string()));
    assert_eq!(d.fetched(None), Some(DownloadAction::Answer(false)));
    // The script then raises an error of its own on that false.
    let msg = "greet.lua:3: download failed".to_string();
    assert_eq!(
        w.step(WorkerEvent::Called(2, msg.clone())),
        Some(WorkerAction::Finish { release: true, outcome: RunOutcome::Failed(ExecError::Runtime(msg)) })
    );
    assert!(w.is_done());
    assert_eq!(w.step(WorkerEvent::Called(0, String::new())), None);
}

#[test]
fn script_that_handles_the_failure_completes() {
    let mut flag = CancellationFlag::new();
    let mut w = start(&mut flag, &script("greet"));
    run_until_call(&mut w);
    assert_eq!(
        w.step(WorkerEvent::Called(0, String::new())),
        Some(WorkerAction::Finish { release: true, outcome: RunOutcome::Completed })
    );
}

#[test]
fn load_error_releases_the_interpreter() {
    let mut w = Worker::new("missing.lua".to_string());
    w.step(WorkerEvent::Begin);
    w.step(WorkerEvent::Created(true));
    w.step(WorkerEvent::BridgeInstalled);
    assert_eq!(
        w.step(WorkerEvent::Loaded(6, "cannot open missing.lua".to_string())),
        Some(WorkerAction::Finish {
            release: true,
            outcome: RunOutcome::Failed(ExecError::Load("cannot open missing.lua".to_string()))
        })
    );
}

#[test]
fn failed_creation_has_nothing_to_release() {
    let mut w = Worker::new("a.lua".to_string());
    w.step(WorkerEvent::Begin);
    assert_eq!(
        w.step(WorkerEvent::Created(false)),
        Some(WorkerAction::Finish { release: false, outcome: RunOutcome::InitFailed })
    );
    assert_eq!(w.current(), WorkerState::Done);
}

#[test]
fn events_out_of_order_are_ignored() {
    let mut w = Worker::new("a.lua".to_string());
    assert_eq!(w.step(WorkerEvent::BridgeInstalled), None);
    assert_eq!(w.step(WorkerEvent::Created(true)), None);
    assert_eq!(w.current(), WorkerState::Idle);
}

#[test]
fn failed_fetch_never_writes() {
    let (mut d, _) = Download::new(Some("http://invalid.example".to_string()), Some("keep.bin".to_string()));
    assert_eq!(d.fetched(None), Some(DownloadAction::Answer(false)));
    assert_eq!(d.written(true), None);
    assert_eq!(d.fetched(Some(b"late".to_vec())), None);
}

#[test]
fn fetched_body_is_written_whole() {
    let (mut d, _) = Download::new(Some("http://127.0.0.1:8000/".to_string()), Some("hello.txt".to_string()));
    assert_eq!(
        d.fetched(Some(b"hello".to_vec())),
        Some(DownloadAction::WriteFile { path: "hello.txt".to_string(), bytes: b"hello".to_vec() })
    );
    assert_eq!(d.written(true), Some(DownloadAction::Answer(true)));
}

#[test]
fn failed_write_answers_false() {
    let (mut d, _) = Download::new(Some("u".to_string()), Some("/no/such/dir/f".to_string()));
    d.fetched(Some(Vec::new()));
    assert_eq!(d.written(false), Some(DownloadAction::Answer(false)));
}

#[test]
fn missing_arguments_answer_false() {
    let (_, a) = Download::new(None, Some("x".to_string()));
    assert_eq!(a, DownloadAction::Answer(false));
    let (mut d, b) = Download::new(Some("u".to_string()), None);
    assert_eq!(b, DownloadAction::Answer(false));
    assert_eq!(d.fetched(Some(vec![1])), None);
}

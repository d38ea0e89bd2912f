use run_pipeline::environment::{
    first_responding, interpreter_candidates, looks_like_repo_root, missing_artifact, plan_run, resolve_project_root,
    root_candidates,
};
use run_pipeline::log::RunLog;
use run_pipeline::pipeline::{Action, ErrorKind, Event, Orchestrator, Phase, ProcessOutcome};
use run_pipeline::results::JudgmentRecord;
use run_pipeline::runid::{run_identifier, LocalTime};
use run_pipeline::workspace::DirEntry;

fn s(x: &str) -> String {
    x.to_string()
}

fn outcome(code: Option<i32>, out: &str, err: &str) -> ProcessOutcome {
    ProcessOutcome { exit_code: code, stdout: s(out), stderr: s(err) }
}

fn started() -> Orchestrator {
    let mut o = Orchestrator::new();
    assert!(o.start_run());
    let plan = plan_run(&s("/p"), &s("python3"), &s("w/best.pt"), &s("20240102_030405"));
    assert_eq!(o.step(Event::Resolved(plan)), Action::StageInput);
    o
}

fn record(image: &str) -> JudgmentRecord {
    JudgmentRecord { image: s(image), accessible: Some(true), reason: s("ok") }
}

#[test]
fn failed_detection_never_reaches_judgment() {
    let mut o = started();
    assert_eq!(o.step(Event::Staged(2)), Action::RunDetection);
    assert_eq!(o.step(Event::Exited(outcome(Some(1), "", "boom"))), Action::Stop);
    assert_eq!(o.phase, Phase::Aborted);
    let e = o.error.as_ref().unwrap();
    assert_eq!(e.kind, ErrorKind::StageFailure);
    assert_eq!(e.message, "detection stage failed with exit code 1");
    assert_eq!(o.step(Event::Exited(outcome(Some(0), "", ""))), Action::Ignore);
    assert_eq!(o.step(Event::Parsed { records: vec![record("a.jpg")], listing: vec![] }), Action::Ignore);
    assert!(o.published.is_none());
    let log = o.log.contents();
    assert!(log.contains("[DETECT] [stderr] boom"));
    assert!(log.contains("[ERROR] detection stage failed with exit code 1\n"));
}

#[test]
fn failed_run_keeps_the_previous_result() {
    let mut o = started();
    o.step(Event::Staged(1));
    o.step(Event::Exited(outcome(Some(0), "", "")));
    o.step(Event::Exited(outcome(Some(0), "", "")));
    assert_eq!(o.step(Event::Parsed { records: vec![record("a.jpg")], listing: vec![] }), Action::Publish);
    assert!(o.start_run());
    assert_eq!(o.step(Event::Failed(s("no root"))), Action::Stop);
    assert_eq!(o.error.as_ref().unwrap().kind, ErrorKind::Config);
    assert_eq!(o.published.as_ref().unwrap().records.len(), 1);
}

#[test]
fn zero_staged_files_still_complete() {
    let mut o = started();
    assert_eq!(o.step(Event::Staged(0)), Action::RunDetection);
    assert_eq!(o.step(Event::Exited(outcome(Some(0), "done\n", ""))), Action::RunJudgment);
    assert_eq!(o.step(Event::Exited(outcome(Some(0), "", ""))), Action::IngestResults);
    assert_eq!(o.step(Event::Parsed { records: vec![], listing: vec![] }), Action::Publish);
    assert_eq!(o.phase, Phase::Done);
    let r = o.published.as_ref().unwrap();
    assert!(r.records.is_empty());
    assert_eq!(r.output_dir, "/p/.runner_work/bbox/20240102_030405");
    assert_eq!(r.results_file, "/p/results/result_20240102_030405.json");
    assert!(o.log.contents().contains("[INFO] staged 0 file(s)\n"));
}

#[test]
fn failures_are_classified_by_phase() {
    let mut o = started();
    o.step(Event::Failed(s("cannot read staging dir")));
    assert_eq!(o.error.as_ref().unwrap().kind, ErrorKind::Io);

    let mut o = started();
    o.step(Event::Staged(1));
    o.step(Event::Failed(s("not found")));
    assert_eq!(o.error.as_ref().unwrap().kind, ErrorKind::Spawn);

    let mut o = started();
    o.step(Event::Staged(1));
    o.step(Event::Exited(outcome(Some(0), "", "")));
    assert_eq!(o.step(Event::Exited(outcome(None, "", ""))), Action::Stop);
    assert_eq!(o.error.as_ref().unwrap().message, "judgment stage failed with no exit code");

    let mut o = started();
    o.step(Event::Staged(1));
    o.step(Event::Exited(outcome(Some(0), "", "")));
    o.step(Event::Exited(outcome(Some(0), "", "")));
    o.step(Event::Failed(s("bad json")));
    assert_eq!(o.error.as_ref().unwrap().kind, ErrorKind::Ingest);
    assert_eq!(o.error.as_ref().unwrap().message, "bad json");
}

#[test]
fn negative_exit_code_is_written_with_sign() {
    let mut o = started();
    o.step(Event::Staged(1));
    o.step(Event::Exited(outcome(Some(-2), "", "")));
    assert_eq!(o.error.as_ref().unwrap().message, "detection stage failed with exit code -2");
}

#[test]
fn a_run_in_progress_cannot_be_restarted() {
    let mut o = started();
    assert!(!o.start_run());
    assert_eq!(o.phase, Phase::StagingInput);
}

#[test]
fn publishing_resets_preview_lookups() {
    let mut o = started();
    o.step(Event::Staged(1));
    o.step(Event::Exited(outcome(Some(0), "", "")));
    o.step(Event::Exited(outcome(Some(0), "", "")));
    let listing = vec![DirEntry { name: s("a.png"), is_file: true }];
    o.step(Event::Parsed { records: vec![record("a.jpg")], listing });
    assert_eq!(o.previews.lookup(&s("a.jpg"), false), Some(s("a.png")));
    assert_eq!(o.previews.lookup(&s("a.jpg"), false), Some(s("a.png")));
    assert_eq!(o.previews.lookup(&s("b.jpg"), false), None);
    assert_eq!(o.previews.lookup(&s("d/a.jpg"), true), Some(s("d/a.jpg")));
    assert_eq!(o.previews.lookup(&s("d/a.jpg"), false), Some(s("a.png")));
}

#[test]
fn plan_paths_and_command_lines() {
    let p = plan_run(&s("/p"), &s("py"), &s("w/best.pt"), &s("20240102_030405"));
    assert_eq!(p.staging_dir, "/p/.runner_work/input");
    assert_eq!(p.input_dir, "/p/input_images");
    assert_eq!(p.detection.program, "py");
    assert_eq!(p.detection.workdir, "/p");
    assert_eq!(
        p.detection.args,
        vec![
            s("/p/yolov8/run.py"),
            s("--weights"),
            s("/p/w/best.pt"),
            s("--source"),
            s("/p/.runner_work/input"),
            s("--outdir"),
            s("/p/.runner_work/bbox/20240102_030405"),
        ]
    );
    assert_eq!(
        p.judgment.args,
        vec![
            s("/p/gemini/run.py"),
            s("--images_dir"),
            s("/p/.runner_work/bbox/20240102_030405"),
            s("--out_json"),
            s("/p/results/result_20240102_030405.json"),
        ]
    );
}

#[test]
fn missing_artifacts_in_order() {
    let p = plan_run(&s("/p"), &s("py"), &s("w.pt"), &s("id"));
    let mut present = vec![];
    assert_eq!(missing_artifact(&p, &present), Some(s("/p/yolov8/run.py")));
    present.push(s("/p/yolov8/run.py"));
    assert_eq!(missing_artifact(&p, &present), Some(s("/p/gemini/run.py")));
    present.push(s("/p/gemini/run.py"));
    assert_eq!(missing_artifact(&p, &present), Some(s("/p/w.pt")));
    present.push(s("/p/w.pt"));
    assert_eq!(missing_artifact(&p, &present), None);
}

#[test]
fn root_search_keeps_its_order() {
    let ancestors: Vec<String> = ["/a/b/c/d/e/f", "/a/b/c/d/e", "/a/b/c/d", "/a/b/c", "/a/b", "/a", "/"]
        .iter()
        .map(|x| s(x))
        .collect();
    let c = root_candidates(&s("."), &s("/a/b/c/d/e/f/g"), &ancestors);
    assert_eq!(c.len(), 7);
    assert_eq!(c[0], ".");
    assert_eq!(c[1], "/a/b/c/d/e/f/g");
    assert_eq!(c[6], "/a/b");
    let present = vec![s("/a/b/c/yolov8/run.py"), s("/a/b/c/gemini/run.py"), s("/a/b/yolov8/run.py"), s("/a/b/gemini/run.py")];
    assert!(looks_like_repo_root(&s("/a/b"), &present));
    assert!(!looks_like_repo_root(&s("/a"), &present));
    assert_eq!(resolve_project_root(&c, &present), Some(s("/a/b/c")));
    assert_eq!(resolve_project_root(&c, &vec![s("/a/b/c/yolov8/run.py")]), None);
}

#[test]
fn interpreter_candidates_in_order() {
    let c = interpreter_candidates(&s("/p"), &s("/usr/bin/python3.11"));
    assert_eq!(
        c,
        vec![s("/p/.venv/bin/python"), s("/p/.venv/Scripts/python.exe"), s("/usr/bin/python3.11"), s("python3"), s("python")]
    );
    let blank = interpreter_candidates(&s("/p"), &s("  \t"));
    assert_eq!(blank.len(), 4);
    assert_eq!(blank[2], "python3");
}

#[test]
fn first_interpreter_that_answers_is_chosen() {
    let c = vec![s("a"), s("b"), s("c")];
    assert_eq!(first_responding(&c, &vec![false, true, true]), Some(s("b")));
    assert_eq!(first_responding(&c, &vec![false, false, false]), None);
    assert_eq!(first_responding(&c, &vec![false]), None);
}

#[test]
fn a_new_orchestrator_is_empty() {
    let mut o = Orchestrator::new();
    assert_eq!(o.phase, Phase::Idle);
    assert!(o.plan.is_none() && o.error.is_none() && o.published.is_none());
    assert!(o.previews.listing.is_empty() && o.previews.found.is_empty());
    assert_eq!(o.log.contents(), "");
    assert_eq!(o.previews.lookup(&s("a.jpg"), false), None);
}

#[test]
fn run_identifier_is_zero_padded() {
    let t = LocalTime { year: 2024, month: 1, day: 2, hour: 3, minute: 4, second: 5 };
    assert_eq!(run_identifier(&t), "20240102_030405");
    let t = LocalTime { year: 987, month: 12, day: 31, hour: 23, minute: 59, second: 59 };
    assert_eq!(run_identifier(&t), "09871231_235959");
    let t = LocalTime { year: 12345, month: 6, day: 7, hour: 0, minute: 0, second: 0 };
    assert_eq!(run_identifier(&t), "+123450607_000000");
    let t = LocalTime { year: -5, month: 6, day: 7, hour: 0, minute: 0, second: 0 };
    assert_eq!(run_identifier(&t), "-00050607_000000");
}

#[test]
fn current_run_id_has_the_shape() {
    let id = run_pipeline::runid::current_run_id();
    assert_eq!(id.len(), 15);
    assert_eq!(&id[8..9], "_");
    assert!(id.chars().enumerate().all(|(i, c)| i == 8 || c.is_ascii_digit()));
}

#[test]
fn log_keeps_a_trailing_window() {
    let mut log = RunLog::new();
    log.append_log("abc");
    assert_eq!(log.contents(), "abc");
    let big = "x".repeat(119_997);
    log.append_log(&big);
    assert_eq!(log.contents().chars().count(), 120_000);
    log.append_log("yz");
    let c = log.contents();
    assert_eq!(c.chars().count(), 60_000);
    assert!(c.ends_with("xyz"));
}

#[test]
fn log_counts_characters_not_bytes() {
    let mut log = RunLog::new();
    let wide = "é".repeat(120_001);
    log.append_log(&wide);
    assert_eq!(log.contents().chars().count(), 60_000);
}

use cbt::compilation::Invocation;
use cbt::config::{Compilers, Stage};
use cbt::error::BuildError;
use cbt::files::{Entry, SourceTree};
use cbt::stage::{Action, Event, Outcome, StageRun};

struct Log {
    created: Vec<String>,
    checks: Vec<String>,
    spawned: Vec<Vec<String>>,
    probes: Vec<String>,
    post: Vec<String>,
    result: Result<(), BuildError>,
}

fn entry(rel: &[&str], is_dir: bool) -> Entry {
    Entry {
        rel: rel.iter().map(|s| s.to_string()).collect(),
        canonical: format!("/p/src/{}", rel.join("/")),
        is_dir,
    }
}

fn tree(entries: Vec<Entry>) -> SourceTree {
    SourceTree { entries, excluded_dirs: vec![], excluded_files: vec![] }
}

fn stage(executable: &str, build_executable: bool) -> Stage {
    let mut s = Stage::default();
    s.includes.include_dirs = vec![];
    s.build.executable = Some(executable.to_string());
    s.build.build_executable = build_executable;
    s
}

fn plan(s: &Stage, t: &SourceTree) -> StageRun {
    StageRun::new(&Compilers::default(), s, &"/p/build".to_string(), t).ok().unwrap()
}

fn line(inv: &Invocation) -> Vec<String> {
    let mut l = vec![inv.program.clone()];
    l.extend(inv.args.iter().cloned());
    l
}

/// Runs the stage, answering each check from `modified`: every path in it
/// was last modified at the given time, every other existing path at 50 and
/// created at 100; paths in `missing` do not exist. A spawned process creates
/// its output at 1000 and exits with `success`.
fn drive(run: &mut StageRun, modified: &[(&str, i128)], missing: &[&str], success: bool) -> Log {
    let mut log = Log {
        created: vec![],
        checks: vec![],
        spawned: vec![],
        probes: vec![],
        post: vec![],
        result: Ok(()),
    };
    let mut written: Vec<String> = vec![];
    for _ in 0..1000 {
        match run.action() {
            Action::CreateDirs(d) => {
                log.created.extend(d);
                run.step(Event::DirsCreated);
            }
            Action::Check { target, sources } => {
                log.checks.push(target.clone());
                let stamp = |p: &str, created: bool| -> Option<i128> {
                    if written.iter().any(|w| w == p) {
                        return Some(1000);
                    }
                    if missing.contains(&p) {
                        return None;
                    }
                    if let Some((_, t)) = modified.iter().find(|(q, _)| *q == p) {
                        return Some(*t);
                    }
                    Some(if created { 100 } else { 50 })
                };
                let t = stamp(&target, true);
                let s = sources.iter().map(|p| stamp(p, false)).collect();
                run.step(Event::Stamps { target: t, sources: s });
            }
            Action::Spawn(inv) => {
                let l = line(&inv);
                if let Some(i) = l.iter().position(|a| a == "-o") {
                    written.push(l[i + 1].clone());
                }
                log.spawned.push(l);
                run.step(Event::Finished(Outcome::Exited { success }));
            }
            Action::ProbeTargetDir(d) => {
                log.probes.push(d);
                run.step(Event::TargetDir { exists: false });
            }
            Action::RunPostScript(s) => {
                log.post.push(s);
                run.step(Event::PostScriptDone);
            }
            Action::Finish => return log,
            Action::Fail(e) => {
                log.result = Err(e);
                return log;
            }
        }
    }
    panic!("stage did not finish");
}

fn first_build_missing() -> Vec<&'static str> {
    vec![
        "/p/build/objects/a.o",
        "/p/build/objects/b.o",
        "/p/build/objects/main.o",
        "/p/build/app.o",
        "/p/build/app",
    ]
}

#[test]
fn scenario_two_sources_link_and_executable() {
    let t = tree(vec![entry(&["a.c"], false), entry(&["b.cpp"], false)]);
    let mut run = plan(&stage("app", true), &t);
    assert_eq!(run.files.len(), 2);
    let log = drive(&mut run, &[], &first_build_missing(), true);
    assert!(log.result.is_ok());
    assert_eq!(log.created, vec!["/p/build/objects".to_string()]);
    let expected: Vec<Vec<&str>> = vec![
        vec!["gcc", "-c", "/p/src/a.c", "-o", "/p/build/objects/a.o"],
        vec!["g++", "-c", "/p/src/b.cpp", "-o", "/p/build/objects/b.o"],
        vec!["ld", "/p/build/objects/a.o", "/p/build/objects/b.o", "-o", "/p/build/app.o"],
        vec!["gcc", "/p/build/app.o", "-o", "/p/build/app"],
    ];
    assert_eq!(log.spawned, expected);
}

#[test]
fn scenario_single_source_skips_link() {
    let t = tree(vec![entry(&["main.c"], false)]);
    let mut run = plan(&stage("app", true), &t);
    assert!(run.link.is_none());
    assert_eq!(run.object, "/p/build/objects/main.o");
    let log = drive(&mut run, &[], &first_build_missing(), true);
    assert!(log.result.is_ok());
    let expected: Vec<Vec<&str>> = vec![
        vec!["gcc", "-c", "/p/src/main.c", "-o", "/p/build/objects/main.o"],
        vec!["gcc", "/p/build/objects/main.o", "-o", "/p/build/app"],
    ];
    assert_eq!(log.spawned, expected);
}

#[test]
fn scenario_no_sources_fails_before_anything_runs() {
    let t = tree(vec![entry(&["README"], false), entry(&["docs"], true)]);
    let r = StageRun::new(&Compilers::default(), &stage("app", true), &"/p/build".to_string(), &t);
    assert!(matches!(r, Err(BuildError::NoSourceFiles)));
    let mut excluded = tree(vec![entry(&["a.c"], false)]);
    excluded.excluded_files = vec!["/p/src/a.c".to_string()];
    let r = StageRun::new(&Compilers::default(), &stage("app", true), &"/p/build".to_string(), &excluded);
    assert!(matches!(r, Err(BuildError::NoSourceFiles)));
}

#[test]
fn scenario_without_executable() {
    let t = tree(vec![entry(&["a.c"], false), entry(&["b.cpp"], false)]);
    let mut run = plan(&stage("app", false), &t);
    assert!(run.exe_in_build.is_none());
    let log = drive(&mut run, &[], &first_build_missing(), true);
    assert!(log.result.is_ok());
    assert_eq!(log.spawned.len(), 3);
    assert!(log.spawned.iter().all(|l| !l.contains(&"/p/build/app".to_string())));
    assert!(!log.checks.contains(&"/p/build/app".to_string()));
}

#[test]
fn second_run_spawns_nothing() {
    let t = tree(vec![entry(&["a.c"], false), entry(&["b.cpp"], false)]);
    let mut run = plan(&stage("app", true), &t);
    let log = drive(&mut run, &[], &[], true);
    assert!(log.result.is_ok());
    assert!(log.spawned.is_empty());
    assert_eq!(
        log.checks,
        vec!["/p/build/objects/a.o", "/p/build/objects/b.o", "/p/build/app.o", "/p/build/app"]
    );
}

#[test]
fn touched_source_recompiles_alone_and_relinks() {
    let t = tree(vec![entry(&["a.c"], false), entry(&["b.cpp"], false)]);
    let mut run = plan(&stage("app", true), &t);
    let log = drive(&mut run, &[("/p/src/b.cpp", 200)], &[], true);
    assert!(log.result.is_ok());
    assert_eq!(log.spawned.len(), 3);
    assert_eq!(log.spawned[0][0], "g++");
    assert_eq!(log.spawned[0][2], "/p/src/b.cpp");
    assert_eq!(log.spawned[1][0], "ld");
    assert_eq!(log.spawned[2][0], "gcc");
    assert!(log.spawned.iter().all(|l| !l.contains(&"/p/src/a.c".to_string())));
}

#[test]
fn compile_error_stops_the_stage() {
    let t = tree(vec![entry(&["a.c"], false), entry(&["b.cpp"], false)]);
    let mut run = plan(&stage("app", true), &t);
    let log = drive(&mut run, &[], &first_build_missing(), false);
    assert_eq!(log.spawned.len(), 1);
    assert!(matches!(
        log.result,
        Err(BuildError::CompileNonZeroExit { ref compiler, ref file }) if compiler == "gcc" && file == "a.c"
    ));
}

#[test]
fn spawn_failure_of_linker() {
    let t = tree(vec![entry(&["a.c"], false), entry(&["b.cpp"], false)]);
    let mut run = plan(&stage("app", true), &t);
    run.step(Event::DirsCreated);
    for _ in 0..2 {
        run.step(Event::Stamps { target: Some(100), sources: vec![Some(50)] });
    }
    assert!(matches!(run.action(), Action::Check { .. }));
    run.step(Event::Stamps { target: Some(100), sources: vec![Some(50), Some(150)] });
    assert!(matches!(run.action(), Action::Spawn(ref i) if i.program == "ld"));
    run.step(Event::Finished(Outcome::NotStarted));
    assert!(matches!(
        run.action(),
        Action::Fail(BuildError::LinkSpawnFailed { ref linker, ref output }) if linker == "ld" && output == "/p/build/app.o"
    ));
}

#[test]
fn executable_goes_to_existing_target_dir() {
    let t = tree(vec![entry(&["main.c"], false)]);
    let mut s = stage("app", true);
    s.build.target_dir = Some("/p/bin".to_string());
    s.post_script = Some("echo done".to_string());
    let mut run = plan(&s, &t);
    run.step(Event::DirsCreated);
    run.step(Event::Stamps { target: Some(100), sources: vec![Some(50)] });
    assert!(matches!(run.action(), Action::ProbeTargetDir(ref d) if d == "/p/bin"));
    run.step(Event::TargetDir { exists: true });
    assert!(matches!(run.action(), Action::Check { ref target, .. } if target == "/p/bin/app"));
    run.step(Event::Stamps { target: None, sources: vec![Some(50)] });
    assert!(matches!(run.action(), Action::Spawn(ref i) if i.args[2] == "/p/bin/app"));
    run.step(Event::Finished(Outcome::Exited { success: true }));
    assert!(matches!(run.action(), Action::RunPostScript(ref p) if p == "echo done"));
    run.step(Event::PostScriptDone);
    assert!(matches!(run.action(), Action::Finish));
}

#[test]
fn missing_target_dir_falls_back_to_build_dir() {
    let t = tree(vec![entry(&["main.c"], false)]);
    let mut s = stage("app", true);
    s.build.target_dir = Some("/nowhere".to_string());
    let mut run = plan(&s, &t);
    let log = drive(&mut run, &[], &first_build_missing(), true);
    assert!(log.result.is_ok());
    assert_eq!(log.probes, vec!["/nowhere".to_string()]);
    assert_eq!(log.spawned[1], vec!["gcc", "/p/build/objects/main.o", "-o", "/p/build/app"]);
}

#[test]
fn unexpected_event_is_ignored() {
    let t = tree(vec![entry(&["main.c"], false)]);
    let mut run = plan(&stage("app", true), &t);
    run.step(Event::PostScriptDone);
    assert!(matches!(run.action(), Action::CreateDirs(_)));
}

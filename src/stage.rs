//! The stage runner: a state machine that decides each step of one stage.
//!
//! A stage runs `Mirror`, then for each source a staleness check and, when
//! stale, a compile; then (for several objects) a staleness check and a
//! link; then (when an executable is wanted) a staleness check and the
//! executable link; then the post-build script. The caller performs the
//! [`Action`] that [`StageRun::action`] names and reports back an [`Event`]
//! through [`StageRun::step`]. Any failure ends the stage.
use vstd::prelude::*;
use crate::compilation::{
    all_up_to_date, compile_src_files, up_to_date, compiles, create_executable, exe_args, exe_name,
    inputs_up_to_date, link_args, link_object_files, link_output, CompileJob, ExeJob,
    Invocation, LinkJob,
};
use crate::config::{Compilers, Stage};
use crate::error::BuildError;
use crate::files::{get_src_files, objects_dir, setup_build_dir, SourceFile, SourceTree};
use crate::paths::{copy_strings, mirrored, path_join, strs};

verus! {

/// What went wrong, and at which step.
#[derive(Debug, Clone, Copy, PartialEq, Eq, Structural)]
pub enum Failure {
    CompileSpawn(usize),
    CompileExit(usize),
    LinkSpawn,
    LinkExit,
    ExeSpawn(bool),
    ExeExit(bool),
}

/// Where a stage stands. `usize` is the index of a source; `bool` says
/// whether the executable goes to the target directory.
#[derive(Debug, Clone, Copy, PartialEq, Eq, Structural)]
pub enum Phase {
    Mirror,
    CompileCheck(usize),
    Compile(usize),
    LinkCheck,
    Link,
    TargetDir,
    ExeCheck(bool),
    Exe(bool),
    PostScript,
    Done,
    Failed(Failure),
}

/// How a spawned process ended.
#[derive(Debug, Clone, Copy, PartialEq, Eq, Structural)]
pub enum Outcome {
    /// The process could not be started or waited for.
    NotStarted,
    Exited { success: bool },
}

/// What the caller reports after performing an action.
pub enum Event {
    DirsCreated,
    /// The creation time of the checked target and the modification time of
    /// each source, in the order asked; `None` for a missing file.
    Stamps { target: Option<i128>, sources: Vec<Option<i128>> },
    Finished(Outcome),
    TargetDir { exists: bool },
    PostScriptDone,
}

/// What the caller is to do next.
pub enum Action {
    /// Create each directory, with its parents; existing ones are fine.
    CreateDirs(Vec<String>),
    /// Report the timestamps of `target` and `sources`.
    Check { target: String, sources: Vec<String> },
    /// Run the program, with inherited output, and report how it ended.
    Spawn(Invocation),
    /// Report whether this directory exists and canonicalizes.
    ProbeTargetDir(String),
    /// Run this shell command; its outcome does not fail the stage.
    RunPostScript(String),
    Finish,
    Fail(BuildError),
}

/// One stage, planned, with the phase it has reached.
pub struct StageRun {
    pub name: String,
    /// Directories to create before compiling.
    pub dirs: Vec<String>,
    pub files: Vec<SourceFile>,
    pub jobs: Vec<CompileJob>,
    /// Present when there is more than one object to link.
    pub link: Option<LinkJob>,
    /// The object the executable is built from.
    pub object: String,
    /// The executable link into the build directory, when one is wanted.
    pub exe_in_build: Option<ExeJob>,
    pub target_dir: Option<String>,
    /// The executable link into the target directory, when one is configured.
    pub exe_in_target: Option<ExeJob>,
    pub post_script: Option<String>,
    pub phase: Phase,
}

impl Invocation {
    pub open spec fn same_as(self, other: Invocation) -> bool {
        self.runs(other.program@, strs(other.args@))
    }

    /// A copy of this invocation.
    pub fn duplicate(&self) -> (r: Invocation)
        ensures
            r.same_as(*self),
    {
        Invocation { program: self.program.clone(), args: copy_strings(&self.args) }
    }
}

impl Phase {
    /// The phase runs a compiler, assembler or linker.
    pub open spec fn spawns(self) -> bool {
        self is Compile || self is Link || self is Exe
    }

    /// The phase belongs to building the executable.
    pub open spec fn is_exe_step(self) -> bool {
        self is TargetDir || self is ExeCheck || self is Exe
    }
}

/// The event answers a staleness check with "up to date", or answers no check.
pub open spec fn reports_current(ev: Event) -> bool {
    match ev {
        Event::Stamps { target, sources } => all_up_to_date(target, sources@),
        _ => true,
    }
}

pub open spec fn opt_view(o: Option<String>) -> Option<Seq<char>> {
    match o {
        Some(s) => Some(s@),
        None => None,
    }
}

/// The object files of `jobs`, in order.
pub open spec fn objects_of(jobs: Seq<CompileJob>) -> Seq<Seq<char>> {
    jobs.map_values(|j: CompileJob| j.object@)
}

/// `job` links `object` into the executable inside `dir`.
pub open spec fn exe_planned(
    job: ExeJob,
    dir: Seq<char>,
    object: Seq<char>,
    compilers: Compilers,
    stage: Stage,
) -> bool {
    &&& job.object@ == object
    &&& job.path@ == path_join(dir, exe_name(stage))
    &&& job.command.runs(compilers.cc@, exe_args(object, job.path@, stage))
}

impl StageRun {
    pub open spec fn exe(self, in_target: bool) -> ExeJob {
        if in_target {
            self.exe_in_target->0
        } else {
            self.exe_in_build->0
        }
    }

    pub open spec fn exe_ok(self, in_target: bool) -> bool {
        self.exe_in_build is Some && (in_target ==> self.exe_in_target is Some)
    }

    pub open spec fn phase_ok(self, p: Phase) -> bool {
        match p {
            Phase::CompileCheck(i) => i < self.jobs.len(),
            Phase::Compile(i) => i < self.jobs.len(),
            Phase::LinkCheck => self.link is Some,
            Phase::Link => self.link is Some,
            Phase::TargetDir => self.exe_in_target is Some,
            Phase::PostScript => self.post_script is Some,
            Phase::ExeCheck(b) => self.exe_ok(b),
            Phase::Exe(b) => self.exe_ok(b),
            Phase::Failed(f) => match f {
                Failure::CompileSpawn(i) => i < self.jobs.len(),
                Failure::CompileExit(i) => i < self.jobs.len(),
                Failure::LinkSpawn => self.link is Some,
                Failure::LinkExit => self.link is Some,
                Failure::ExeSpawn(b) => self.exe_ok(b),
                Failure::ExeExit(b) => self.exe_ok(b),
            },
            _ => true,
        }
    }

    pub open spec fn wf(self) -> bool {
        &&& self.jobs.len() > 0
        &&& (self.link is Some <==> self.jobs.len() > 1)
        &&& (self.exe_in_target is Some ==> self.exe_in_build is Some)
        &&& (self.exe_in_target is Some <==> (self.exe_in_build is Some
            && self.target_dir is Some))
        &&& self.phase_ok(self.phase)
    }

    /// This run is the plan of `stage` for a build in `build_dir` of the
    /// sources found in `tree`.
    pub open spec fn plans(
        self,
        compilers: Compilers,
        stage: Stage,
        build_dir: Seq<char>,
        tree: SourceTree,
    ) -> bool {
        let objects = objects_dir(build_dir);
        &&& self.name@ == stage.name@
        &&& self.dirs.len() == tree.dirs().len() + 1
        &&& self.dirs@[0]@ == objects
        &&& forall|k: int|
            0 <= k < tree.dirs().len() ==> (#[trigger] self.dirs@[k + 1])@ == mirrored(
                objects,
                tree.rel(tree.dirs()[k]),
            )
        &&& self.files.len() == tree.sources().len()
        &&& forall|k: int|
            0 <= k < self.files.len() ==> tree.describes(
                #[trigger] self.files@[k],
                tree.sources()[k],
                build_dir,
            )
        &&& self.jobs.len() == self.files.len()
        &&& forall|k: int|
            0 <= k < self.jobs.len() ==> compiles(
                #[trigger] self.jobs@[k],
                self.files@[k],
                compilers,
                stage,
            )
        &&& (self.link is Some <==> self.jobs.len() > 1)
        &&& (self.link matches Some(l) ==> {
            &&& strs(l.inputs@) == objects_of(self.jobs@)
            &&& l.output@ == link_output(build_dir, stage)
            &&& l.command.runs(compilers.linker@, link_args(objects_of(self.jobs@), l.output@, stage))
        })
        &&& self.object@ == (match self.link {
            Some(l) => l.output@,
            None => self.jobs@[0].object@,
        })
        &&& (self.exe_in_build is Some <==> stage.build.build_executable)
        &&& (self.exe_in_build matches Some(e) ==> exe_planned(
            e,
            build_dir,
            self.object@,
            compilers,
            stage,
        ))
        &&& opt_view(self.target_dir) == (if stage.build.build_executable {
            opt_view(stage.build.target_dir)
        } else {
            None
        })
        &&& (self.exe_in_target matches Some(e) ==> exe_planned(
            e,
            self.target_dir->0@,
            self.object@,
            compilers,
            stage,
        ))
        &&& opt_view(self.post_script) == opt_view(stage.post_script)
    }

    pub open spec fn with_phase(self, p: Phase) -> StageRun {
        StageRun { phase: p, ..self }
    }

    pub open spec fn after_exe(self) -> Phase {
        if self.post_script is Some {
            Phase::PostScript
        } else {
            Phase::Done
        }
    }

    pub open spec fn after_link(self) -> Phase {
        if self.exe_in_build is Some {
            if self.exe_in_target is Some {
                Phase::TargetDir
            } else {
                Phase::ExeCheck(false)
            }
        } else {
            self.after_exe()
        }
    }

    pub open spec fn after_objects(self) -> Phase {
        if self.link is Some {
            Phase::LinkCheck
        } else {
            self.after_link()
        }
    }

    pub open spec fn after_compile(self, i: usize) -> Phase {
        if i + 1 < self.jobs.len() {
            Phase::CompileCheck((i + 1) as usize)
        } else {
            self.after_objects()
        }
    }

    /// The phase that follows `p` on event `ev`. An event that does not
    /// answer `p`'s action leaves the phase as it is.
    pub open spec fn next(self, p: Phase, ev: Event) -> Phase {
        match p {
            Phase::Mirror => match ev {
                Event::DirsCreated => Phase::CompileCheck(0),
                _ => p,
            },
            Phase::CompileCheck(i) => match ev {
                Event::Stamps { target, sources } => if all_up_to_date(target, sources@) {
                    self.after_compile(i)
                } else {
                    Phase::Compile(i)
                },
                _ => p,
            },
            Phase::Compile(i) => match ev {
                Event::Finished(Outcome::NotStarted) => Phase::Failed(Failure::CompileSpawn(i)),
                Event::Finished(Outcome::Exited { success }) => if success {
                    self.after_compile(i)
                } else {
                    Phase::Failed(Failure::CompileExit(i))
                },
                _ => p,
            },
            Phase::LinkCheck => match ev {
                Event::Stamps { target, sources } => if all_up_to_date(target, sources@) {
                    self.after_link()
                } else {
                    Phase::Link
                },
                _ => p,
            },
            Phase::Link => match ev {
                Event::Finished(Outcome::NotStarted) => Phase::Failed(Failure::LinkSpawn),
                Event::Finished(Outcome::Exited { success }) => if success {
                    self.after_link()
                } else {
                    Phase::Failed(Failure::LinkExit)
                },
                _ => p,
            },
            Phase::TargetDir => match ev {
                Event::TargetDir { exists } => Phase::ExeCheck(exists),
                _ => p,
            },
            Phase::ExeCheck(b) => match ev {
                Event::Stamps { target, sources } => if all_up_to_date(target, sources@) {
                    self.after_exe()
                } else {
                    Phase::Exe(b)
                },
                _ => p,
            },
            Phase::Exe(b) => match ev {
                Event::Finished(Outcome::NotStarted) => Phase::Failed(Failure::ExeSpawn(b)),
                Event::Finished(Outcome::Exited { success }) => if success {
                    self.after_exe()
                } else {
                    Phase::Failed(Failure::ExeExit(b))
                },
                _ => p,
            },
            Phase::PostScript => match ev {
                Event::PostScriptDone => Phase::Done,
                _ => p,
            },
            _ => p,
        }
    }

    /// `e` is the error that failure `f` reports.
    pub open spec fn reports(self, f: Failure, e: BuildError) -> bool {
        match f {
            Failure::CompileSpawn(i) => match e {
                BuildError::CompileSpawnFailed { compiler, file } => compiler@
                    == self.jobs@[i as int].command.program@ && file@ == self.jobs@[i as int].name@,
                _ => false,
            },
            Failure::CompileExit(i) => match e {
                BuildError::CompileNonZeroExit { compiler, file } => compiler@
                    == self.jobs@[i as int].command.program@ && file@ == self.jobs@[i as int].name@,
                _ => false,
            },
            Failure::LinkSpawn => match e {
                BuildError::LinkSpawnFailed { linker, output } => linker@
                    == self.link->0.command.program@ && output@ == self.link->0.output@,
                _ => false,
            },
            Failure::LinkExit => match e {
                BuildError::LinkNonZeroExit { linker, output } => linker@
                    == self.link->0.command.program@ && output@ == self.link->0.output@,
                _ => false,
            },
            Failure::ExeSpawn(b) => match e {
                BuildError::ExecutableSpawnFailed { compiler, executable } => compiler@
                    == self.exe(b).command.program@ && executable@ == self.exe(b).path@,
                _ => false,
            },
            Failure::ExeExit(b) => match e {
                BuildError::ExecutableNonZeroExit { compiler, executable } => compiler@
                    == self.exe(b).command.program@ && executable@ == self.exe(b).path@,
                _ => false,
            },
        }
    }

    /// `a` is the action of the current phase.
    pub open spec fn emits(self, a: Action) -> bool {
        match self.phase {
            Phase::Mirror => match a {
                Action::CreateDirs(d) => strs(d@) == strs(self.dirs@),
                _ => false,
            },
            Phase::CompileCheck(i) => match a {
                Action::Check { target, sources } => target@ == self.jobs@[i as int].object@
                    && strs(sources@) == seq![self.jobs@[i as int].source@],
                _ => false,
            },
            Phase::Compile(i) => match a {
                Action::Spawn(c) => c.same_as(self.jobs@[i as int].command),
                _ => false,
            },
            Phase::LinkCheck => match a {
                Action::Check { target, sources } => target@ == self.link->0.output@ && strs(
                    sources@,
                ) == strs(self.link->0.inputs@),
                _ => false,
            },
            Phase::Link => match a {
                Action::Spawn(c) => c.same_as(self.link->0.command),
                _ => false,
            },
            Phase::TargetDir => match a {
                Action::ProbeTargetDir(d) => d@ == self.target_dir->0@,
                _ => false,
            },
            Phase::ExeCheck(b) => match a {
                Action::Check { target, sources } => target@ == self.exe(b).path@ && strs(
                    sources@,
                ) == seq![self.exe(b).object@],
                _ => false,
            },
            Phase::Exe(b) => match a {
                Action::Spawn(c) => c.same_as(self.exe(b).command),
                _ => false,
            },
            Phase::PostScript => match a {
                Action::RunPostScript(s) => s@ == self.post_script->0@,
                _ => false,
            },
            Phase::Done => a is Finish,
            Phase::Failed(f) => match a {
                Action::Fail(e) => self.reports(f, e),
                _ => false,
            },
        }
    }
}

impl StageRun {
    /// Plans `stage` for a build in `build_dir` of the sources in `tree`;
    /// fails with `NoSourceFiles`, before anything runs, when there are none.
    pub fn new(compilers: &Compilers, stage: &Stage, build_dir: &String, tree: &SourceTree) -> (r:
        Result<StageRun, BuildError>)
        ensures
            match r {
                Ok(run) => {
                    &&& tree.sources().len() > 0
                    &&& run.wf()
                    &&& run.phase == Phase::Mirror
                    &&& run.plans(*compilers, *stage, build_dir@, *tree)
                },
                Err(e) => tree.sources().len() == 0 && e == BuildError::NoSourceFiles,
            },
    {
        let files = match get_src_files(tree, build_dir) {
            Ok(files) => files,
            Err(e) => return Err(e),
        };
        let dirs = setup_build_dir(tree, build_dir);
        let jobs = compile_src_files(&files, compilers, stage);
        let mut objects: Vec<String> = Vec::new();
        let mut i: usize = 0;
        while i < jobs.len()
            invariant
                i <= jobs.len(),
                strs(objects@) == objects_of(jobs@).subrange(0, i as int),
            decreases jobs.len() - i,
        {
            let ghost prev = objects@;
            objects.push(jobs[i].object.clone());
            assert(strs(objects@) =~= strs(prev).push(jobs@[i as int].object@));
            assert(objects_of(jobs@).subrange(0, i + 1) =~= objects_of(jobs@).subrange(
                0,
                i as int,
            ).push(jobs@[i as int].object@));
            i = i + 1;
        }
        assert(objects_of(jobs@).subrange(0, jobs.len() as int) =~= objects_of(jobs@));
        let link = if jobs.len() > 1 {
            Some(link_object_files(&objects, build_dir, compilers, stage))
        } else {
            None
        };
        let object = match &link {
            Some(l) => l.output.clone(),
            None => jobs[0].object.clone(),
        };
        let (exe_in_build, target_dir, exe_in_target) = if stage.build.build_executable {
            let name = match &stage.build.executable {
                Some(e) => e.clone(),
                None => String::from_str("a.out"),
            };
            let in_build = create_executable(&name, &object, build_dir, compilers, stage);
            match &stage.build.target_dir {
                Some(t) => {
                    let in_target = create_executable(&name, &object, t, compilers, stage);
                    (Some(in_build), Some(t.clone()), Some(in_target))
                },
                None => (Some(in_build), None, None),
            }
        } else {
            (None, None, None)
        };
        let post_script = match &stage.post_script {
            Some(s) => Some(s.clone()),
            None => None,
        };
        Ok(
            StageRun {
                name: stage.name.clone(),
                dirs,
                files,
                jobs,
                link,
                object,
                exe_in_build,
                target_dir,
                exe_in_target,
                post_script,
                phase: Phase::Mirror,
            },
        )
    }

    fn after_exe_exec(&self) -> (p: Phase)
        ensures
            p == self.after_exe(),
    {
        if self.post_script.is_some() {
            Phase::PostScript
        } else {
            Phase::Done
        }
    }

    fn after_link_exec(&self) -> (p: Phase)
        ensures
            p == self.after_link(),
    {
        if self.exe_in_build.is_some() {
            if self.exe_in_target.is_some() {
                Phase::TargetDir
            } else {
                Phase::ExeCheck(false)
            }
        } else {
            self.after_exe_exec()
        }
    }

    fn after_compile_exec(&self, i: usize) -> (p: Phase)
        requires
            i < self.jobs.len(),
        ensures
            p == self.after_compile(i),
    {
        if i + 1 < self.jobs.len() {
            Phase::CompileCheck(i + 1)
        } else if self.link.is_some() {
            Phase::LinkCheck
        } else {
            self.after_link_exec()
        }
    }

    /// Moves to the phase that follows the current one on `ev`.
    pub fn step(&mut self, ev: Event)
        requires
            old(self).wf(),
        ensures
            final(self).wf(),
            *final(self) == old(self).with_phase(old(self).next(old(self).phase, ev)),
    {
        let p = match (self.phase, &ev) {
            (Phase::Mirror, Event::DirsCreated) => Phase::CompileCheck(0),
            (Phase::CompileCheck(i), Event::Stamps { target, sources }) => {
                if inputs_up_to_date(*target, sources) {
                    self.after_compile_exec(i)
                } else {
                    Phase::Compile(i)
                }
            },
            (Phase::Compile(i), Event::Finished(o)) => match o {
                Outcome::NotStarted => Phase::Failed(Failure::CompileSpawn(i)),
                Outcome::Exited { success } => if *success {
                    self.after_compile_exec(i)
                } else {
                    Phase::Failed(Failure::CompileExit(i))
                },
            },
            (Phase::LinkCheck, Event::Stamps { target, sources }) => {
                if inputs_up_to_date(*target, sources) {
                    self.after_link_exec()
                } else {
                    Phase::Link
                }
            },
            (Phase::Link, Event::Finished(o)) => match o {
                Outcome::NotStarted => Phase::Failed(Failure::LinkSpawn),
                Outcome::Exited { success } => if *success {
                    self.after_link_exec()
                } else {
                    Phase::Failed(Failure::LinkExit)
                },
            },
            (Phase::TargetDir, Event::TargetDir { exists }) => Phase::ExeCheck(*exists),
            (Phase::ExeCheck(b), Event::Stamps { target, sources }) => {
                if inputs_up_to_date(*target, sources) {
                    self.after_exe_exec()
                } else {
                    Phase::Exe(b)
                }
            },
            (Phase::Exe(b), Event::Finished(o)) => match o {
                Outcome::NotStarted => Phase::Failed(Failure::ExeSpawn(b)),
                Outcome::Exited { success } => if *success {
                    self.after_exe_exec()
                } else {
                    Phase::Failed(Failure::ExeExit(b))
                },
            },
            (Phase::PostScript, Event::PostScriptDone) => Phase::Done,
            _ => self.phase,
        };
        self.phase = p;
    }

    fn exe_job(&self, in_target: bool) -> (r: &ExeJob)
        requires
            self.exe_ok(in_target),
        ensures
            *r == self.exe(in_target),
    {
        if in_target {
            self.exe_in_target.as_ref().unwrap()
        } else {
            self.exe_in_build.as_ref().unwrap()
        }
    }

    fn failure_error(&self, f: Failure) -> (e: BuildError)
        requires
            self.phase_ok(Phase::Failed(f)),
        ensures
            self.reports(f, e),
    {
        match f {
            Failure::CompileSpawn(i) => BuildError::CompileSpawnFailed {
                compiler: self.jobs[i].command.program.clone(),
                file: self.jobs[i].name.clone(),
            },
            Failure::CompileExit(i) => BuildError::CompileNonZeroExit {
                compiler: self.jobs[i].command.program.clone(),
                file: self.jobs[i].name.clone(),
            },
            Failure::LinkSpawn => {
                let l = self.link.as_ref().unwrap();
                BuildError::LinkSpawnFailed {
                    linker: l.command.program.clone(),
                    output: l.output.clone(),
                }
            },
            Failure::LinkExit => {
                let l = self.link.as_ref().unwrap();
                BuildError::LinkNonZeroExit {
                    linker: l.command.program.clone(),
                    output: l.output.clone(),
                }
            },
            Failure::ExeSpawn(b) => {
                let x = self.exe_job(b);
                BuildError::ExecutableSpawnFailed {
                    compiler: x.command.program.clone(),
                    executable: x.path.clone(),
                }
            },
            Failure::ExeExit(b) => {
                let x = self.exe_job(b);
                BuildError::ExecutableNonZeroExit {
                    compiler: x.command.program.clone(),
                    executable: x.path.clone(),
                }
            },
        }
    }

    /// The action the current phase asks for.
    pub fn action(&self) -> (a: Action)
        requires
            self.wf(),
        ensures
            self.emits(a),
    {
        match self.phase {
            Phase::Mirror => Action::CreateDirs(copy_strings(&self.dirs)),
            Phase::CompileCheck(i) => {
                let job = &self.jobs[i];
                let sources = vec![job.source.clone()];
                assert(strs(sources@) =~= seq![job.source@]);
                Action::Check { target: job.object.clone(), sources }
            },
            Phase::Compile(i) => Action::Spawn(self.jobs[i].command.duplicate()),
            Phase::LinkCheck => {
                let l = self.link.as_ref().unwrap();
                Action::Check { target: l.output.clone(), sources: copy_strings(&l.inputs) }
            },
            Phase::Link => Action::Spawn(self.link.as_ref().unwrap().command.duplicate()),
            Phase::TargetDir => Action::ProbeTargetDir(self.target_dir.as_ref().unwrap().clone()),
            Phase::ExeCheck(b) => {
                let x = self.exe_job(b);
                let sources = vec![x.object.clone()];
                assert(strs(sources@) =~= seq![x.object@]);
                Action::Check { target: x.path.clone(), sources }
            },
            Phase::Exe(b) => Action::Spawn(self.exe_job(b).command.duplicate()),
            Phase::PostScript => Action::RunPostScript(self.post_script.as_ref().unwrap().clone()),
            Phase::Done => Action::Finish,
            Phase::Failed(f) => Action::Fail(self.failure_error(f)),
        }
    }
}

impl StageRun {
    /// The phases a run passes through from `p` as it receives `evs`.
    pub open spec fn trace(self, p: Phase, evs: Seq<Event>) -> Seq<Phase>
        decreases evs.len(),
    {
        if evs.len() == 0 {
            seq![p]
        } else {
            seq![p] + self.trace(self.next(p, evs[0]), evs.drop_first())
        }
    }

    /// A trace starts at its phase and moves by `next` on each event.
    pub proof fn lemma_trace(self, p: Phase, evs: Seq<Event>)
        ensures
            self.trace(p, evs).len() == evs.len() + 1,
            self.trace(p, evs)[0] == p,
            forall|t: int|
                0 <= t < evs.len() ==> #[trigger] self.trace(p, evs)[t + 1] == self.next(
                    self.trace(p, evs)[t],
                    evs[t],
                ),
        decreases evs.len(),
    {
        if evs.len() > 0 {
            let q = self.next(p, evs[0]);
            let rest = evs.drop_first();
            self.lemma_trace(q, rest);
            assert forall|t: int| 0 <= t < evs.len() implies #[trigger] self.trace(p, evs)[t + 1]
                == self.next(self.trace(p, evs)[t], evs[t]) by {
                if t > 0 {
                    assert(self.trace(q, rest)[(t - 1) + 1] == self.next(
                        self.trace(q, rest)[t - 1],
                        rest[t - 1],
                    ));
                }
            }
        }
    }
}

/// Rerunning with nothing changed: when every staleness check reports its
/// target up to date, a stage run from its start spawns no compiler,
/// assembler or linker, and does not link the executable.
pub proof fn lemma_current_run_spawns_nothing(run: StageRun, evs: Seq<Event>)
    requires
        forall|t: int| 0 <= t < evs.len() ==> reports_current(#[trigger] evs[t]),
    ensures
        forall|t: int|
            0 <= t < run.trace(Phase::Mirror, evs).len() ==> !(#[trigger] run.trace(
                Phase::Mirror,
                evs,
            )[t]).spawns(),
{
    run.lemma_trace(Phase::Mirror, evs);
    let tr = run.trace(Phase::Mirror, evs);
    assert forall|t: int| 0 <= t < tr.len() implies !(#[trigger] tr[t]).spawns() by {
        lemma_quiet_prefix(run, evs, t);
    }
}

proof fn lemma_quiet_prefix(run: StageRun, evs: Seq<Event>, t: int)
    requires
        forall|u: int| 0 <= u < evs.len() ==> reports_current(#[trigger] evs[u]),
        0 <= t <= evs.len(),
    ensures
        !run.trace(Phase::Mirror, evs)[t].spawns(),
    decreases t,
{
    run.lemma_trace(Phase::Mirror, evs);
    if t > 0 {
        lemma_quiet_prefix(run, evs, t - 1);
        assert(run.trace(Phase::Mirror, evs)[(t - 1) + 1] == run.next(
            run.trace(Phase::Mirror, evs)[t - 1],
            evs[t - 1],
        ));
        assert(reports_current(evs[t - 1]));
    }
}

/// Touching one source: when every staleness check of a source other than
/// the `k`-th reports its object up to date, the only source a stage run
/// compiles is the `k`-th, and it does compile it when its own check finds
/// the object stale; the other objects are left as they are.
pub proof fn lemma_only_stale_source_compiles(run: StageRun, k: usize, evs: Seq<Event>)
    requires
        forall|t: int|
            0 <= t < evs.len() && (run.trace(Phase::Mirror, evs)[t] matches Phase::CompileCheck(j)
                && j != k) ==> reports_current(#[trigger] evs[t]),
    ensures
        forall|t: int|
            0 <= t < run.trace(Phase::Mirror, evs).len() && (#[trigger] run.trace(
                Phase::Mirror,
                evs,
            )[t]) is Compile ==> run.trace(Phase::Mirror, evs)[t] == Phase::Compile(k),
        forall|t: int|
            0 <= t < evs.len() && run.trace(Phase::Mirror, evs)[t] == Phase::CompileCheck(k)
                && (#[trigger] evs[t]) is Stamps && !reports_current(evs[t]) ==> run.trace(
                Phase::Mirror,
                evs,
            )[t + 1] == Phase::Compile(k),
{
    run.lemma_trace(Phase::Mirror, evs);
    let tr = run.trace(Phase::Mirror, evs);
    assert forall|t: int| 0 <= t < tr.len() && (#[trigger] tr[t]) is Compile implies tr[t]
        == Phase::Compile(k) by {
        lemma_compiles_only(run, k, evs, t);
    }
}

proof fn lemma_compiles_only(run: StageRun, k: usize, evs: Seq<Event>, t: int)
    requires
        forall|u: int|
            0 <= u < evs.len() && (run.trace(Phase::Mirror, evs)[u] matches Phase::CompileCheck(j)
                && j != k) ==> reports_current(#[trigger] evs[u]),
        0 <= t <= evs.len(),
    ensures
        run.trace(Phase::Mirror, evs)[t] is Compile ==> run.trace(Phase::Mirror, evs)[t]
            == Phase::Compile(k),
    decreases t,
{
    run.lemma_trace(Phase::Mirror, evs);
    if t > 0 {
        lemma_compiles_only(run, k, evs, t - 1);
        let tr = run.trace(Phase::Mirror, evs);
        assert(tr[(t - 1) + 1] == run.next(tr[t - 1], evs[t - 1]));
        match tr[t - 1] {
            Phase::CompileCheck(j) => {
                if j != k {
                    assert(reports_current(evs[t - 1]));
                }
            },
            _ => {},
        }
    }
}

/// One stale input forces a full relink: when the linked object is missing
/// or older than any one input object, the link check leads to the link.
pub proof fn lemma_stale_input_forces_relink(
    run: StageRun,
    target: Option<i128>,
    sources: Vec<Option<i128>>,
    j: int,
)
    requires
        0 <= j < sources.len(),
        !up_to_date(target, sources@[j]),
    ensures
        run.next(Phase::LinkCheck, Event::Stamps { target, sources }) == Phase::Link,
{
}

/// A stage that wants no executable never reaches a step of the executable
/// link, whatever events it receives.
pub proof fn lemma_no_executable_step(
    run: StageRun,
    compilers: Compilers,
    stage: Stage,
    build_dir: Seq<char>,
    tree: SourceTree,
    evs: Seq<Event>,
)
    requires
        run.plans(compilers, stage, build_dir, tree),
        !stage.build.build_executable,
    ensures
        forall|t: int|
            0 <= t < run.trace(Phase::Mirror, evs).len() ==> !(#[trigger] run.trace(
                Phase::Mirror,
                evs,
            )[t]).is_exe_step(),
{
    run.lemma_trace(Phase::Mirror, evs);
    let tr = run.trace(Phase::Mirror, evs);
    assert forall|t: int| 0 <= t < tr.len() implies !(#[trigger] tr[t]).is_exe_step() by {
        lemma_no_exe_prefix(run, evs, t);
    }
}

proof fn lemma_no_exe_prefix(run: StageRun, evs: Seq<Event>, t: int)
    requires
        run.exe_in_build is None,
        0 <= t <= evs.len(),
    ensures
        !run.trace(Phase::Mirror, evs)[t].is_exe_step(),
    decreases t,
{
    run.lemma_trace(Phase::Mirror, evs);
    if t > 0 {
        lemma_no_exe_prefix(run, evs, t - 1);
        let tr = run.trace(Phase::Mirror, evs);
        assert(tr[(t - 1) + 1] == run.next(tr[t - 1], evs[t - 1]));
    }
}

} // verus!

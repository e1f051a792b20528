//! Compiler, linker and executable invocations, and the staleness check
//! that decides whether each one is needed.
use vstd::prelude::*;
use crate::config::{Compilers, Stage};
use crate::files::{Language, SourceFile};
use crate::paths::{join, path_join, path_with_extension, strs, trim, trimmed, with_extension};

verus! {

/// An external program and its arguments.
pub struct Invocation {
    pub program: String,
    pub args: Vec<String>,
}

impl Invocation {
    pub open spec fn runs(self, program: Seq<char>, args: Seq<Seq<char>>) -> bool {
        self.program@ == program && strs(self.args@) == args
    }
}

/// How one source file becomes an object file.
pub struct CompileJob {
    pub source: String,
    pub object: String,
    /// The source's file name, for messages.
    pub name: String,
    pub command: Invocation,
}

/// How several object files become one relocatable object.
pub struct LinkJob {
    pub inputs: Vec<String>,
    pub output: String,
    pub command: Invocation,
}

/// How an object file becomes the stage's executable.
pub struct ExeJob {
    pub object: String,
    pub path: String,
    pub command: Invocation,
}

/// An artifact created at `target` is current for an input last modified at
/// `source`; `None` stands for a missing file.
pub open spec fn up_to_date(target: Option<i128>, source: Option<i128>) -> bool {
    target is Some && source is Some && target->0 >= source->0
}

/// An artifact is current for every one of a nonempty list of inputs.
pub open spec fn all_up_to_date(target: Option<i128>, sources: Seq<Option<i128>>) -> bool {
    sources.len() > 0 && forall|i: int| 0 <= i < sources.len() ==> up_to_date(target, sources[i])
}

pub open spec fn out_extension(lang: Language) -> Seq<char> {
    match lang {
        Language::ASM => "asm.o"@,
        _ => "o"@,
    }
}

pub open spec fn compiler_for(lang: Language, compilers: Compilers) -> Seq<char> {
    match lang {
        Language::C => compilers.cc@,
        Language::CXX => compilers.cxx@,
        Language::ASM => compilers.assembler@,
    }
}

pub open spec fn flags_for(lang: Language, stage: Stage) -> Seq<Seq<char>> {
    match lang {
        Language::C => strs(stage.flags.cflags@),
        Language::CXX => strs(stage.flags.cxxflags@),
        Language::ASM => strs(stage.flags.asmflags@),
    }
}

/// One argument per include directory: the include prefix, then the directory.
pub open spec fn include_args(stage: Stage) -> Seq<Seq<char>> {
    strs(stage.includes.include_dirs@).map_values(
        |d: Seq<char>| stage.includes.include_prefix@ + trimmed(d),
    )
}

/// Where the object file of `f` goes.
pub open spec fn object_path(f: SourceFile) -> Seq<char> {
    path_with_extension(f.out_path@, out_extension(f.lang))
}

/// The compiler's arguments for `f`: compile-only flag (not for the
/// assembler), source, output, include directories (C and C++ only), flags.
pub open spec fn compile_args(f: SourceFile, stage: Stage) -> Seq<Seq<char>> {
    let out = object_path(f);
    match f.lang {
        Language::ASM => seq![f.path@, "-o"@, out] + flags_for(f.lang, stage),
        _ => seq!["-c"@, f.path@, "-o"@, out] + include_args(stage) + flags_for(f.lang, stage),
    }
}

/// `job` compiles `f` as the stage says.
pub open spec fn compiles(job: CompileJob, f: SourceFile, compilers: Compilers, stage: Stage) -> bool {
    &&& job.source@ == f.path@
    &&& job.object@ == object_path(f)
    &&& job.name@ == f.name@
    &&& job.command.runs(compiler_for(f.lang, compilers), compile_args(f, stage))
}

/// The name of the linked object: the executable's name, or a fixed fallback.
pub open spec fn link_name(stage: Stage) -> Seq<char> {
    match stage.build.executable {
        Some(e) => e@,
        None => "full_project_out"@,
    }
}

pub open spec fn link_output(build_dir: Seq<char>, stage: Stage) -> Seq<char> {
    path_with_extension(path_join(build_dir, link_name(stage)), "o"@)
}

pub open spec fn link_args(objects: Seq<Seq<char>>, output: Seq<char>, stage: Stage) -> Seq<Seq<char>> {
    objects + seq!["-o"@, output] + strs(stage.flags.ldflags@)
}

/// The name of the executable: the configured one, or `a.out`.
pub open spec fn exe_name(stage: Stage) -> Seq<char> {
    match stage.build.executable {
        Some(e) => e@,
        None => "a.out"@,
    }
}

/// The C flags, then the extra executable flags if any.
pub open spec fn exe_flags(stage: Stage) -> Seq<Seq<char>> {
    strs(stage.flags.cflags@) + match stage.build.executable_extra_flags {
        Some(extra) => strs(extra@),
        None => Seq::empty(),
    }
}

pub open spec fn exe_args(object: Seq<char>, path: Seq<char>, stage: Stage) -> Seq<Seq<char>> {
    seq![object, "-o"@, path] + exe_flags(stage)
}

/// Whether an artifact created at `target` is current for an input last
/// modified at `source` (`None`: the file is missing).
pub fn is_up_to_date(target: Option<i128>, source: Option<i128>) -> (r: bool)
    ensures
        r == up_to_date(target, source),
{
    match (target, source) {
        (Some(t), Some(s)) => t >= s,
        _ => false,
    }
}

/// Whether an artifact is current for each of its inputs; never for none.
pub fn inputs_up_to_date(target: Option<i128>, sources: &Vec<Option<i128>>) -> (r: bool)
    ensures
        r == all_up_to_date(target, sources@),
{
    if sources.len() == 0 {
        return false;
    }
    let mut i: usize = 0;
    while i < sources.len()
        invariant
            i <= sources.len(),
            forall|k: int| 0 <= k < i ==> up_to_date(target, sources@[k]),
        decreases sources.len() - i,
    {
        if !is_up_to_date(target, sources[i]) {
            return false;
        }
        i = i + 1;
    }
    true
}

fn push_one(args: &mut Vec<String>, s: String)
    ensures
        strs(final(args)@) == strs(old(args)@).push(s@),
{
    args.push(s);
    assert(strs(final(args)@) =~= strs(old(args)@).push(s@));
}

fn push_all(args: &mut Vec<String>, items: &Vec<String>)
    ensures
        strs(final(args)@) == strs(old(args)@) + strs(items@),
{
    let ghost start = strs(args@);
    let mut i: usize = 0;
    while i < items.len()
        invariant
            i <= items.len(),
            strs(args@) == start + strs(items@).subrange(0, i as int),
        decreases items.len() - i,
    {
        push_one(args, items[i].clone());
        assert(strs(items@).subrange(0, i + 1) =~= strs(items@).subrange(0, i as int).push(
            items@[i as int]@,
        ));
        i = i + 1;
    }
    assert(strs(items@).subrange(0, items.len() as int) =~= strs(items@));
}

fn push_includes(args: &mut Vec<String>, stage: &Stage)
    ensures
        strs(final(args)@) == strs(old(args)@) + include_args(*stage),
{
    let ghost start = strs(args@);
    let dirs = &stage.includes.include_dirs;
    let mut i: usize = 0;
    while i < dirs.len()
        invariant
            i <= dirs.len(),
            dirs == stage.includes.include_dirs,
            strs(args@) == start + include_args(*stage).subrange(0, i as int),
        decreases dirs.len() - i,
    {
        let mut arg = stage.includes.include_prefix.clone();
        let dir = trim(dirs[i].as_str());
        arg.append(dir.as_str());
        push_one(args, arg);
        assert(include_args(*stage).subrange(0, i + 1) =~= include_args(*stage).subrange(
            0,
            i as int,
        ).push(arg@));
        i = i + 1;
    }
    assert(include_args(*stage).subrange(0, dirs.len() as int) =~= include_args(*stage));
}

/// The invocation that compiles `file` into its object file.
pub fn compile(file: &SourceFile, compilers: &Compilers, stage: &Stage) -> (r: CompileJob)
    ensures
        compiles(r, *file, *compilers, *stage),
{
    let (compiler, flags, ext) = match file.lang {
        Language::C => (&compilers.cc, &stage.flags.cflags, "o"),
        Language::CXX => (&compilers.cxx, &stage.flags.cxxflags, "o"),
        Language::ASM => (&compilers.assembler, &stage.flags.asmflags, "asm.o"),
    };
    let out = with_extension(file.out_path.as_str(), ext);
    let mut args: Vec<String> = Vec::new();
    match file.lang {
        Language::ASM => {},
        _ => push_one(&mut args, String::from_str("-c")),
    }
    push_one(&mut args, file.path.clone());
    push_one(&mut args, String::from_str("-o"));
    push_one(&mut args, out.clone());
    match file.lang {
        Language::ASM => {},
        _ => push_includes(&mut args, stage),
    }
    push_all(&mut args, flags);
    let job = CompileJob {
        source: file.path.clone(),
        object: out,
        name: file.name.clone(),
        command: Invocation { program: compiler.clone(), args },
    };
    assert(strs(job.command.args@) =~= compile_args(*file, *stage));
    job
}

/// The compile invocation of each source file, in order.
pub fn compile_src_files(src_files: &Vec<SourceFile>, compilers: &Compilers, stage: &Stage) -> (r:
    Vec<CompileJob>)
    ensures
        r.len() == src_files.len(),
        forall|k: int|
            0 <= k < r.len() ==> compiles(#[trigger] r@[k], src_files@[k], *compilers, *stage),
{
    let mut jobs: Vec<CompileJob> = Vec::new();
    let mut i: usize = 0;
    while i < src_files.len()
        invariant
            i <= src_files.len(),
            jobs.len() == i,
            forall|k: int|
                0 <= k < i ==> compiles(#[trigger] jobs@[k], src_files@[k], *compilers, *stage),
        decreases src_files.len() - i,
    {
        jobs.push(compile(&src_files[i], compilers, stage));
        i = i + 1;
    }
    jobs
}

/// The invocation that links `obj_files` into one relocatable object in `build_dir`.
pub fn link_object_files(
    obj_files: &Vec<String>,
    build_dir: &String,
    compilers: &Compilers,
    stage: &Stage,
) -> (r: LinkJob)
    ensures
        strs(r.inputs@) == strs(obj_files@),
        r.output@ == link_output(build_dir@, *stage),
        r.command.runs(compilers.linker@, link_args(strs(obj_files@), r.output@, *stage)),
{
    let name = match &stage.build.executable {
        Some(e) => e.clone(),
        None => String::from_str("full_project_out"),
    };
    let output = with_extension(join(build_dir.as_str(), name.as_str()).as_str(), "o");
    let mut args: Vec<String> = Vec::new();
    push_all(&mut args, obj_files);
    push_one(&mut args, String::from_str("-o"));
    push_one(&mut args, output.clone());
    push_all(&mut args, &stage.flags.ldflags);
    let mut inputs: Vec<String> = Vec::new();
    push_all(&mut inputs, obj_files);
    assert(strs(inputs@) =~= strs(obj_files@));
    assert(strs(args@) =~= link_args(strs(obj_files@), output@, *stage));
    LinkJob { inputs, output, command: Invocation { program: compilers.linker.clone(), args } }
}

/// The invocation of the C compiler that links `obj_file` into the
/// executable `executable_name` inside `dir`.
pub fn create_executable(
    executable_name: &String,
    obj_file: &String,
    dir: &String,
    compilers: &Compilers,
    stage: &Stage,
) -> (r: ExeJob)
    ensures
        r.object@ == obj_file@,
        r.path@ == path_join(dir@, executable_name@),
        r.command.runs(compilers.cc@, exe_args(obj_file@, r.path@, *stage)),
{
    let path = join(dir.as_str(), executable_name.as_str());
    let mut args: Vec<String> = Vec::new();
    push_one(&mut args, obj_file.clone());
    push_one(&mut args, String::from_str("-o"));
    push_one(&mut args, path.clone());
    push_all(&mut args, &stage.flags.cflags);
    match &stage.build.executable_extra_flags {
        Some(extra) => push_all(&mut args, extra),
        None => {},
    }
    assert(strs(args@) =~= exe_args(obj_file@, path@, *stage));
    ExeJob {
        object: obj_file.clone(),
        path,
        command: Invocation { program: compilers.cc.clone(), args },
    }
}

} // verus!

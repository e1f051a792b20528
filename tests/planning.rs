use cbt::compilation::{
    compile, compile_src_files, create_executable, inputs_up_to_date, is_up_to_date,
    link_object_files,
};
use cbt::config::{Build, Compilers, Config, Flags, Includes, Stage};
use cbt::files::{Language, SourceFile};
use cbt::paths::{join, mirror, with_extension};

fn strings(v: &[&str]) -> Vec<String> {
    v.iter().map(|s| s.to_string()).collect()
}

fn file(name: &str, lang: Language) -> SourceFile {
    SourceFile {
        path: format!("/p/src/{}", name),
        out_path: format!("/p/build/objects/{}", name),
        name: name.to_string(),
        lang,
    }
}

fn stage() -> Stage {
    let mut s = Stage::default();
    s.flags.cflags = strings(&["-O2", "-Wall"]);
    s.flags.cxxflags = strings(&["-std=c++17"]);
    s.flags.ldflags = strings(&["-r"]);
    s.includes.include_dirs = strings(&["include", " third_party "]);
    s
}

#[test]
fn staleness_oracle() {
    assert!(is_up_to_date(Some(10), Some(10)));
    assert!(is_up_to_date(Some(11), Some(10)));
    assert!(!is_up_to_date(Some(9), Some(10)));
    assert!(!is_up_to_date(None, Some(10)));
    assert!(!is_up_to_date(Some(10), None));
    assert!(!is_up_to_date(None, None));
    assert!(is_up_to_date(Some(-5), Some(-6)));
}

#[test]
fn staleness_of_several_inputs() {
    assert!(inputs_up_to_date(Some(10), &vec![Some(1), Some(10)]));
    assert!(!inputs_up_to_date(Some(10), &vec![Some(1), Some(11)]));
    assert!(!inputs_up_to_date(Some(10), &vec![Some(1), None]));
    assert!(!inputs_up_to_date(Some(10), &vec![]));
}

#[test]
fn compile_c_source() {
    let job = compile(&file("a.c", Language::C), &Compilers::default(), &stage());
    assert_eq!(job.source, "/p/src/a.c");
    assert_eq!(job.object, "/p/build/objects/a.o");
    assert_eq!(job.name, "a.c");
    assert_eq!(job.command.program, "gcc");
    assert_eq!(
        job.command.args,
        strings(&[
            "-c",
            "/p/src/a.c",
            "-o",
            "/p/build/objects/a.o",
            "-Iinclude",
            "-Ithird_party",
            "-O2",
            "-Wall"
        ])
    );
}

#[test]
fn compile_cxx_source_with_prefix() {
    let mut s = stage();
    s.includes.include_prefix = "-isystem".to_string();
    let job = compile(&file("b.cpp", Language::CXX), &Compilers::default(), &s);
    assert_eq!(job.command.program, "g++");
    assert_eq!(
        job.command.args,
        strings(&[
            "-c",
            "/p/src/b.cpp",
            "-o",
            "/p/build/objects/b.o",
            "-isysteminclude",
            "-isystemthird_party",
            "-std=c++17"
        ])
    );
}

#[test]
fn compile_assembly_source() {
    let job = compile(&file("boot.asm", Language::ASM), &Compilers::default(), &stage());
    assert_eq!(job.command.program, "nasm");
    assert_eq!(job.object, "/p/build/objects/boot.asm.o");
    assert_eq!(
        job.command.args,
        strings(&["/p/src/boot.asm", "-o", "/p/build/objects/boot.asm.o", "-felf64"])
    );
}

#[test]
fn compile_all_in_order() {
    let files = vec![file("a.c", Language::C), file("s.S", Language::ASM)];
    let jobs = compile_src_files(&files, &Compilers::default(), &stage());
    assert_eq!(jobs.len(), 2);
    assert_eq!(jobs[0].object, "/p/build/objects/a.o");
    assert_eq!(jobs[1].object, "/p/build/objects/s.asm.o");
}

#[test]
fn link_objects() {
    let objs = strings(&["/b/objects/a.o", "/b/objects/b.o"]);
    let mut c = Compilers::default();
    c.linker = "ld.lld".to_string();
    let job = link_object_files(&objs, &"/b".to_string(), &c, &stage());
    assert_eq!(job.output, "/b/default.o");
    assert_eq!(job.inputs, objs);
    assert_eq!(job.command.program, "ld.lld");
    assert_eq!(
        job.command.args,
        strings(&["/b/objects/a.o", "/b/objects/b.o", "-o", "/b/default.o", "-r"])
    );
}

#[test]
fn link_name_fallback() {
    let mut s = stage();
    s.build.executable = None;
    let job = link_object_files(&strings(&["x.o", "y.o"]), &"b".to_string(), &Compilers::default(), &s);
    assert_eq!(job.output, "b/full_project_out.o");
    s.build.executable = Some("tool.v2".to_string());
    let job = link_object_files(&strings(&["x.o", "y.o"]), &"b".to_string(), &Compilers::default(), &s);
    assert_eq!(job.output, "b/tool.o");
}

#[test]
fn executable_with_extra_flags() {
    let mut s = stage();
    s.build.executable_extra_flags = Some(strings(&["-lm"]));
    let job = create_executable(
        &"app".to_string(),
        &"/b/app.o".to_string(),
        &"/out".to_string(),
        &Compilers::default(),
        &s,
    );
    assert_eq!(job.path, "/out/app");
    assert_eq!(job.object, "/b/app.o");
    assert_eq!(job.command.program, "gcc");
    assert_eq!(job.command.args, strings(&["/b/app.o", "-o", "/out/app", "-O2", "-Wall", "-lm"]));
}

#[test]
fn path_helpers() {
    assert_eq!(join("a", "b"), "a/b");
    assert_eq!(join("a/", "b"), "a/b");
    assert_eq!(join("", "b"), "b");
    assert_eq!(with_extension("x/y.c", "o"), "x/y.o");
    assert_eq!(with_extension("x/y", "o"), "x/y.o");
    assert_eq!(with_extension("v1.2/app", "o"), "v1.2/app.o");
    assert_eq!(with_extension("d/.hidden", "o"), "d/.hidden.o");
    assert_eq!(with_extension("a.tar.gz", "asm.o"), "a.tar.asm.o");
    assert_eq!(mirror(&"root".to_string(), &strings(&["a", "b.c"])), "root/a/b.c");
    assert_eq!(mirror(&"root".to_string(), &vec![]), "root");
}

#[test]
fn defaults() {
    let c = Config::default();
    assert_eq!(c.compilers.cc, "gcc");
    assert_eq!(c.compilers.cxx, "g++");
    assert_eq!(c.compilers.assembler, "nasm");
    assert_eq!(c.compilers.linker, "ld");
    assert_eq!(c.stages.len(), 1);
    let s = &c.stages[0];
    assert_eq!(s.name, "default");
    assert_eq!(s.flags.asmflags, strings(&["-felf64"]));
    assert!(s.flags.cflags.is_empty());
    assert_eq!(s.includes.include_dirs, strings(&["include"]));
    assert_eq!(s.includes.include_prefix, "-I");
    assert!(s.exclude.dirs.is_empty() && s.exclude.files.is_empty());
    assert_eq!(s.source.source_dir, "src");
    assert_eq!(s.build.build_dir, "build");
    assert_eq!(s.build.executable, Some("default".to_string()));
    assert!(s.build.build_executable);
    assert!(s.build.target_dir.is_none());
    assert!(s.post_script.is_none());
    let b = Build::default();
    assert!(b.executable_extra_flags.is_none());
    let f = Flags::default();
    assert!(f.ldflags.is_empty() && f.cxxflags.is_empty());
    let i = Includes::default();
    assert_eq!(i.include_dirs.len(), 1);
}

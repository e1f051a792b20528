//! The pipeline description: compilers, and an ordered list of stages, each
//! with its own sources, flags, include paths, exclusions and build settings.
use vstd::prelude::*;

verus! {

/// The whole pipeline: the compilers and the stages, run in order.
pub struct Config {
    pub compilers: Compilers,
    pub stages: Vec<Stage>,
}

/// One named unit of the pipeline.
pub struct Stage {
    pub name: String,
    pub flags: Flags,
    pub includes: Includes,
    pub exclude: Exclude,
    pub source: Source,
    pub build: Build,
    /// A shell command run once the stage's artifacts are built.
    pub post_script: Option<String>,
}

/// Executables that compile, assemble and link.
pub struct Compilers {
    pub cc: String,
    pub cxx: String,
    pub assembler: String,
    pub linker: String,
}

/// Flags handed verbatim to each tool.
pub struct Flags {
    pub cflags: Vec<String>,
    pub cxxflags: Vec<String>,
    pub asmflags: Vec<String>,
    pub ldflags: Vec<String>,
}

/// Include directories, each passed to the C and C++ compilers after `include_prefix`.
pub struct Includes {
    pub include_dirs: Vec<String>,
    pub include_prefix: String,
}

/// Directories and files, by path, that discovery leaves out.
pub struct Exclude {
    pub dirs: Vec<String>,
    pub files: Vec<String>,
}

pub struct Source {
    pub source_dir: String,
}

pub struct Build {
    pub build_dir: String,
    /// Where the executable goes instead of `build_dir`, when that directory exists.
    pub target_dir: Option<String>,
    pub executable: Option<String>,
    /// Flags added after the C flags when the executable is linked.
    pub executable_extra_flags: Option<Vec<String>>,
    pub build_executable: bool,
}

/// The name a stage gets when none is given.
pub open spec fn default_stage_name() -> Seq<char> {
    "default"@
}

impl Compilers {
    pub open spec fn is_default(self) -> bool {
        &&& self.cc@ == "gcc"@
        &&& self.cxx@ == "g++"@
        &&& self.assembler@ == "nasm"@
        &&& self.linker@ == "ld"@
    }
}

impl Flags {
    pub open spec fn is_default(self) -> bool {
        &&& self.cflags@.len() == 0
        &&& self.cxxflags@.len() == 0
        &&& self.asmflags@.len() == 1
        &&& self.asmflags@[0]@ == "-felf64"@
        &&& self.ldflags@.len() == 0
    }
}

impl Includes {
    pub open spec fn is_default(self) -> bool {
        &&& self.include_dirs@.len() == 1
        &&& self.include_dirs@[0]@ == "include"@
        &&& self.include_prefix@ == "-I"@
    }
}

impl Exclude {
    pub open spec fn is_default(self) -> bool {
        self.dirs@.len() == 0 && self.files@.len() == 0
    }
}

impl Source {
    pub open spec fn is_default(self) -> bool {
        self.source_dir@ == "src"@
    }
}

impl Build {
    pub open spec fn is_default(self) -> bool {
        &&& self.build_dir@ == "build"@
        &&& self.target_dir is None
        &&& self.executable matches Some(e) && e@ == "default"@
        &&& self.executable_extra_flags is None
        &&& self.build_executable
    }
}

impl Stage {
    pub open spec fn is_default(self) -> bool {
        &&& self.name@ == default_stage_name()
        &&& self.flags.is_default()
        &&& self.includes.is_default()
        &&& self.exclude.is_default()
        &&& self.source.is_default()
        &&& self.build.is_default()
        &&& self.post_script is None
    }
}

impl Config {
    pub open spec fn is_default(self) -> bool {
        &&& self.compilers.is_default()
        &&& self.stages@.len() == 1
        &&& self.stages@[0].is_default()
    }
}

impl Default for Compilers {
    fn default() -> (r: Self)
        ensures
            r.is_default(),
    {
        Compilers {
            cc: String::from_str("gcc"),
            cxx: String::from_str("g++"),
            assembler: String::from_str("nasm"),
            linker: String::from_str("ld"),
        }
    }
}

impl Default for Flags {
    fn default() -> (r: Self)
        ensures
            r.is_default(),
    {
        Flags {
            cflags: Vec::new(),
            cxxflags: Vec::new(),
            asmflags: vec![String::from_str("-felf64")],
            ldflags: Vec::new(),
        }
    }
}

impl Default for Includes {
    fn default() -> (r: Self)
        ensures
            r.is_default(),
    {
        Includes {
            include_dirs: vec![String::from_str("include")],
            include_prefix: String::from_str("-I"),
        }
    }
}

impl Default for Exclude {
    fn default() -> (r: Self)
        ensures
            r.is_default(),
    {
        Exclude { dirs: Vec::new(), files: Vec::new() }
    }
}

impl Default for Source {
    fn default() -> (r: Self)
        ensures
            r.is_default(),
    {
        Source { source_dir: String::from_str("src") }
    }
}

impl Default for Build {
    fn default() -> (r: Self)
        ensures
            r.is_default(),
    {
        Build {
            build_dir: String::from_str("build"),
            target_dir: None,
            executable: Some(String::from_str("default")),
            executable_extra_flags: None,
            build_executable: true,
        }
    }
}

impl Default for Stage {
    fn default() -> (r: Self)
        ensures
            r.is_default(),
    {
        Stage {
            name: String::from_str("default"),
            flags: Flags::default(),
            includes: Includes::default(),
            exclude: Exclude::default(),
            source: Source::default(),
            build: Build::default(),
            post_script: None,
        }
    }
}

impl Default for Config {
    fn default() -> (r: Self)
        ensures
            r.is_default(),
    {
        Config { compilers: Compilers::default(), stages: vec![Stage::default()] }
    }
}

} // verus!

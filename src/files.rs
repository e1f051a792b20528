//! Source discovery and build-directory mirroring.
//!
//! The directory walk itself happens outside; it hands over a [`SourceTree`]:
//! every entry under the source directory, by its path relative to that
//! directory and its canonical path, with the canonical forms of the stage's
//! exclusions. Everything decided about those entries is decided here.
use vstd::prelude::*;
use crate::config::Stage;
use crate::error::BuildError;
use crate::paths::{
    eq_ignore_case, extension_of, extension_start, is_component, is_root, join,
    lemma_mirrored_injective, mirror, mirrored, path_join, spells, strs,
};

verus! {

/// The language of a source file, from its extension.
#[derive(Debug, Clone, Copy, PartialEq, Eq, Structural)]
pub enum Language {
    C,
    CXX,
    ASM,
}

/// A discovered source file.
pub struct SourceFile {
    /// Canonical path of the source.
    pub path: String,
    /// Where the source's compiled artifact lives, before its extension is set.
    pub out_path: String,
    /// File name, for display.
    pub name: String,
    pub lang: Language,
}

/// One file or directory found under a source directory.
pub struct Entry {
    /// Path components relative to the source directory.
    pub rel: Vec<String>,
    pub canonical: String,
    pub is_dir: bool,
}

/// Everything found under a stage's source directory, in walk order, with
/// the canonical paths of the stage's excluded directories and files.
pub struct SourceTree {
    pub entries: Vec<Entry>,
    pub excluded_dirs: Vec<String>,
    pub excluded_files: Vec<String>,
}

/// The language of a file named `name`: `.c` is C, `.cpp` C++, `.s` and
/// `.asm` assembly, in any letter case; any other name has none.
pub open spec fn language_of(name: Seq<char>) -> Option<Language> {
    match extension_of(name) {
        Some(e) => if spells(e, "c"@) {
            Some(Language::C)
        } else if spells(e, "cpp"@) {
            Some(Language::CXX)
        } else if spells(e, "s"@) || spells(e, "asm"@) {
            Some(Language::ASM)
        } else {
            None
        },
        None => None,
    }
}

/// `outer` names a directory strictly above `inner`.
pub open spec fn encloses(outer: Seq<Seq<char>>, inner: Seq<Seq<char>>) -> bool {
    outer.len() < inner.len() && inner.subrange(0, outer.len() as int) == outer
}

/// The indices below `n` that satisfy `keep`, in increasing order.
pub open spec fn pick(n: int, keep: spec_fn(int) -> bool) -> Seq<int>
    decreases n,
{
    if n <= 0 {
        Seq::empty()
    } else if keep(n - 1) {
        pick(n - 1, keep).push(n - 1)
    } else {
        pick(n - 1, keep)
    }
}

/// What `pick` returns: each index below `n` that satisfies `keep`, once, in order.
pub proof fn lemma_pick(n: int, keep: spec_fn(int) -> bool)
    requires
        n >= 0,
    ensures
        forall|k: int|
            0 <= k < pick(n, keep).len() ==> 0 <= #[trigger] pick(n, keep)[k] < n && keep(
                pick(n, keep)[k],
            ),
        forall|k1: int, k2: int|
            0 <= k1 < k2 < pick(n, keep).len() ==> #[trigger] pick(n, keep)[k1]
                < #[trigger] pick(n, keep)[k2],
        forall|i: int| 0 <= i < n && keep(i) ==> pick(n, keep).contains(i),
    decreases n,
{
    if n > 0 {
        lemma_pick(n - 1, keep);
        let prev = pick(n - 1, keep);
        if keep(n - 1) {
            assert(pick(n, keep) == prev.push(n - 1));
            assert forall|i: int| 0 <= i < n && keep(i) implies pick(n, keep).contains(i) by {
                if i < n - 1 {
                    assert(prev.contains(i));
                    let k = choose|k: int| 0 <= k < prev.len() && prev[k] == i;
                    assert(pick(n, keep)[k] == i);
                } else {
                    assert(pick(n, keep)[prev.len() as int] == i);
                }
            }
        }
    }
}

/// The directory under a build directory that holds object files.
pub open spec fn objects_dir(build_dir: Seq<char>) -> Seq<char> {
    path_join(build_dir, "objects"@)
}

impl SourceTree {
    pub open spec fn rel(self, i: int) -> Seq<Seq<char>> {
        strs(self.entries@[i].rel@)
    }

    /// The file name of entry `i`.
    pub open spec fn name(self, i: int) -> Seq<char> {
        let r = self.rel(i);
        if r.len() > 0 {
            r.last()
        } else {
            Seq::empty()
        }
    }

    pub open spec fn canonical(self, i: int) -> Seq<char> {
        self.entries@[i].canonical@
    }

    pub open spec fn excludes_dir(self, canonical: Seq<char>) -> bool {
        strs(self.excluded_dirs@).contains(canonical)
    }

    pub open spec fn excludes_file(self, canonical: Seq<char>) -> bool {
        strs(self.excluded_files@).contains(canonical)
    }

    /// Entry `j` is an excluded directory.
    pub open spec fn drops_dir(self, j: int) -> bool {
        self.entries@[j].is_dir && self.excludes_dir(self.canonical(j))
    }

    /// Entry `i` lies inside an excluded directory.
    pub open spec fn shadowed(self, i: int) -> bool {
        exists|j: int|
            0 <= j < self.entries.len() && #[trigger] self.drops_dir(j) && encloses(
                self.rel(j),
                self.rel(i),
            )
    }

    /// Entry `i` is excluded, itself or through a directory above it.
    pub open spec fn excluded(self, i: int) -> bool {
        ||| self.shadowed(i)
        ||| self.drops_dir(i)
        ||| (!self.entries@[i].is_dir && self.excludes_file(self.canonical(i)))
    }

    /// Entry `i` is a source file that discovery reports.
    pub open spec fn is_source(self, i: int) -> bool {
        !self.entries@[i].is_dir && !self.excluded(i) && language_of(self.name(i)) is Some
    }

    /// Entry `i` is a directory that the build directory mirrors.
    pub open spec fn is_kept_dir(self, i: int) -> bool {
        self.entries@[i].is_dir && !self.excluded(i)
    }

    /// Indices, in order, of the source files among the first `n` entries.
    pub open spec fn source_indices(self, n: int) -> Seq<int> {
        pick(n, |i: int| self.is_source(i))
    }

    /// Indices, in order, of the mirrored directories among the first `n` entries.
    pub open spec fn dir_indices(self, n: int) -> Seq<int> {
        pick(n, |i: int| self.is_kept_dir(i))
    }

    pub open spec fn sources(self) -> Seq<int> {
        self.source_indices(self.entries.len() as int)
    }

    pub open spec fn dirs(self) -> Seq<int> {
        self.dir_indices(self.entries.len() as int)
    }

    /// `f` is what discovery makes of entry `i` for a build in `build_dir`.
    pub open spec fn describes(self, f: SourceFile, i: int, build_dir: Seq<char>) -> bool {
        &&& f.path@ == self.canonical(i)
        &&& f.out_path@ == mirrored(objects_dir(build_dir), self.rel(i))
        &&& f.name@ == self.name(i)
        &&& language_of(f.name@) == Some(f.lang)
    }

    /// Whether the canonical path `canonical` is an excluded directory: the
    /// walk need not descend into it.
    pub fn skips_dir(&self, canonical: &String) -> (r: bool)
        ensures
            r == self.excludes_dir(canonical@),
    {
        listed(&self.excluded_dirs, canonical)
    }

    fn is_shadowed(&self, i: usize) -> (r: bool)
        requires
            i < self.entries.len(),
        ensures
            r == self.shadowed(i as int),
    {
        let n = self.entries.len();
        let mut j: usize = 0;
        while j < n
            invariant
                j <= n,
                n == self.entries.len(),
                i < n,
                forall|k: int|
                    0 <= k < j ==> !(#[trigger] self.drops_dir(k) && encloses(
                        self.rel(k),
                        self.rel(i as int),
                    )),
            decreases n - j,
        {
            let e = &self.entries[j];
            if e.is_dir && listed(&self.excluded_dirs, &e.canonical) && encloses_exec(
                &e.rel,
                &self.entries[i].rel,
            ) {
                assert(self.drops_dir(j as int));
                return true;
            }
            j = j + 1;
        }
        false
    }

    fn is_excluded(&self, i: usize) -> (r: bool)
        requires
            i < self.entries.len(),
        ensures
            r == self.excluded(i as int),
    {
        let e = &self.entries[i];
        if self.is_shadowed(i) {
            true
        } else if e.is_dir {
            listed(&self.excluded_dirs, &e.canonical)
        } else {
            listed(&self.excluded_files, &e.canonical)
        }
    }

    fn name_of(&self, i: usize) -> (r: String)
        requires
            i < self.entries.len(),
        ensures
            r@ == self.name(i as int),
    {
        let rel = &self.entries[i].rel;
        if rel.len() > 0 {
            rel[rel.len() - 1].clone()
        } else {
            String::new()
        }
    }
}

/// Whether `p` is one of `list`.
fn listed(list: &Vec<String>, p: &String) -> (r: bool)
    ensures
        r == strs(list@).contains(p@),
{
    let mut i: usize = 0;
    while i < list.len()
        invariant
            i <= list.len(),
            forall|k: int| 0 <= k < i ==> strs(list@)[k] != p@,
        decreases list.len() - i,
    {
        if list[i] == *p {
            assert(strs(list@)[i as int] == p@);
            return true;
        }
        i = i + 1;
    }
    false
}

fn encloses_exec(outer: &Vec<String>, inner: &Vec<String>) -> (r: bool)
    ensures
        r == encloses(strs(outer@), strs(inner@)),
{
    if outer.len() >= inner.len() {
        return false;
    }
    let mut i: usize = 0;
    while i < outer.len()
        invariant
            i <= outer.len() < inner.len(),
            forall|k: int| 0 <= k < i ==> strs(inner@)[k] == strs(outer@)[k],
        decreases outer.len() - i,
    {
        if outer[i] != inner[i] {
            assert(strs(inner@).subrange(0, outer.len() as int)[i as int] != strs(outer@)[i as int]);
            return false;
        }
        i = i + 1;
    }
    assert(strs(inner@).subrange(0, outer.len() as int) =~= strs(outer@));
    true
}

/// The language of a file named `name`, if it is a source file.
pub fn classify(name: &String) -> (r: Option<Language>)
    ensures
        r == language_of(name@),
{
    let n = name.as_str().unicode_len();
    match extension_start(name.as_str()) {
        None => None,
        Some(d) => {
            let ext = name.as_str().substring_char(d + 1, n);
            if eq_ignore_case(ext, "c") {
                Some(Language::C)
            } else if eq_ignore_case(ext, "cpp") {
                Some(Language::CXX)
            } else if eq_ignore_case(ext, "s") || eq_ignore_case(ext, "asm") {
                Some(Language::ASM)
            } else {
                None
            }
        },
    }
}

/// The source files of a stage, in walk order, each with its output path
/// mirrored under `build_dir`'s object directory; `NoSourceFiles` when
/// exclusion and classification leave none.
pub fn get_src_files(tree: &SourceTree, build_dir: &String) -> (r: Result<Vec<SourceFile>, BuildError>)
    ensures
        match r {
            Ok(files) => {
                &&& tree.sources().len() > 0
                &&& files.len() == tree.sources().len()
                &&& forall|k: int|
                    0 <= k < files.len() ==> tree.describes(
                        #[trigger] files@[k],
                        tree.sources()[k],
                        build_dir@,
                    )
            },
            Err(e) => tree.sources().len() == 0 && e == BuildError::NoSourceFiles,
        },
{
    let objects = join(build_dir.as_str(), "objects");
    let n = tree.entries.len();
    let mut files: Vec<SourceFile> = Vec::new();
    let mut i: usize = 0;
    while i < n
        invariant
            i <= n,
            n == tree.entries.len(),
            objects@ == objects_dir(build_dir@),
            files.len() == tree.source_indices(i as int).len(),
            forall|k: int|
                0 <= k < files.len() ==> tree.describes(
                    #[trigger] files@[k],
                    tree.source_indices(i as int)[k],
                    build_dir@,
                ),
        decreases n - i,
    {
        let e = &tree.entries[i];
        if !e.is_dir && !tree.is_excluded(i) {
            let name = tree.name_of(i);
            match classify(&name) {
                Some(lang) => {
                    let f = SourceFile {
                        path: e.canonical.clone(),
                        out_path: mirror(&objects, &e.rel),
                        name,
                        lang,
                    };
                    files.push(f);
                },
                None => {},
            }
        }
        i = i + 1;
    }
    if files.len() == 0 {
        Err(BuildError::NoSourceFiles)
    } else {
        Ok(files)
    }
}

/// The directories to create under `to_root`: one for each directory of the
/// tree that is not excluded, at the same relative position.
pub fn copy_dir_structure(tree: &SourceTree, to_root: &String) -> (r: Vec<String>)
    ensures
        r.len() == tree.dirs().len(),
        forall|k: int|
            0 <= k < r.len() ==> (#[trigger] r@[k])@ == mirrored(
                to_root@,
                tree.rel(tree.dirs()[k]),
            ),
{
    let n = tree.entries.len();
    let mut dirs: Vec<String> = Vec::new();
    let mut i: usize = 0;
    while i < n
        invariant
            i <= n,
            n == tree.entries.len(),
            dirs.len() == tree.dir_indices(i as int).len(),
            forall|k: int|
                0 <= k < dirs.len() ==> (#[trigger] dirs@[k])@ == mirrored(
                    to_root@,
                    tree.rel(tree.dir_indices(i as int)[k]),
                ),
        decreases n - i,
    {
        let e = &tree.entries[i];
        if e.is_dir && !tree.is_excluded(i) {
            dirs.push(mirror(to_root, &e.rel));
        }
        i = i + 1;
    }
    dirs
}

/// Every directory that must exist before compiling: the object directory
/// under `build_dir`, then the mirror of the source tree inside it.
pub fn setup_build_dir(tree: &SourceTree, build_dir: &String) -> (r: Vec<String>)
    ensures
        r.len() == tree.dirs().len() + 1,
        r@[0]@ == objects_dir(build_dir@),
        forall|k: int|
            0 <= k < tree.dirs().len() ==> (#[trigger] r@[k + 1])@ == mirrored(
                objects_dir(build_dir@),
                tree.rel(tree.dirs()[k]),
            ),
{
    let objects = join(build_dir.as_str(), "objects");
    let mirrored_dirs = copy_dir_structure(tree, &objects);
    let mut r: Vec<String> = vec![objects];
    let mut i: usize = 0;
    while i < mirrored_dirs.len()
        invariant
            i <= mirrored_dirs.len(),
            r.len() == i + 1,
            r@[0]@ == objects_dir(build_dir@),
            forall|k: int| 0 <= k < i ==> (#[trigger] r@[k + 1])@ == mirrored_dirs@[k]@,
        decreases mirrored_dirs.len() - i,
    {
        r.push(mirrored_dirs[i].clone());
        i = i + 1;
    }
    r
}

/// The stage's source and build directories, resolved against `cwd`.
pub fn get_dirs(cwd: &String, stage: &Stage) -> (r: (String, String))
    ensures
        r.0@ == path_join(cwd@, stage.source.source_dir@),
        r.1@ == path_join(cwd@, stage.build.build_dir@),
{
    (join(cwd.as_str(), stage.source.source_dir.as_str()), join(cwd.as_str(), stage.build.build_dir.as_str()))
}

/// Discovery reports every source file once and nothing else: where the
/// listing's canonical paths are distinct, a discovered list holds an
/// entry's path exactly once when the entry is a file, not excluded, whose
/// extension is `c`, `cpp`, `s` or `asm` in any letter case, and never otherwise.
pub proof fn lemma_discovery_exact(tree: SourceTree, files: Seq<SourceFile>, build_dir: Seq<char>)
    requires
        forall|i: int, j: int|
            0 <= i < j < tree.entries.len() ==> tree.canonical(i) != tree.canonical(j),
        files.len() == tree.sources().len(),
        forall|k: int|
            0 <= k < files.len() ==> tree.describes(#[trigger] files[k], tree.sources()[k], build_dir),
    ensures
        forall|i: int|
            0 <= i < tree.entries.len() && tree.is_source(i) ==> exists|k: int|
                0 <= k < files.len() && (#[trigger] files[k]).path@ == tree.canonical(i),
        forall|k1: int, k2: int|
            0 <= k1 < k2 < files.len() ==> (#[trigger] files[k1]).path@ != (#[trigger] files[k2]).path@,
        forall|i: int, k: int|
            0 <= i < tree.entries.len() && !tree.is_source(i) && 0 <= k < files.len()
                ==> (#[trigger] files[k]).path@ != #[trigger] tree.canonical(i),
{
    let n = tree.entries.len() as int;
    lemma_pick(n, |i: int| tree.is_source(i));
    let src = tree.sources();
    assert forall|i: int| 0 <= i < n && tree.is_source(i) implies exists|k: int|
        0 <= k < files.len() && (#[trigger] files[k]).path@ == tree.canonical(i) by {
        assert(src.contains(i));
        let k = choose|k: int| 0 <= k < src.len() && src[k] == i;
        assert(files[k].path@ == tree.canonical(i));
    }
    assert forall|k1: int, k2: int|
        0 <= k1 < k2 < files.len() implies (#[trigger] files[k1]).path@ != (#[trigger] files[k2]).path@ by {
        assert(tree.describes(files[k1], src[k1], build_dir));
        assert(tree.describes(files[k2], src[k2], build_dir));
        assert(src[k1] < src[k2]);
    }
    assert forall|i: int, k: int|
        0 <= i < n && !tree.is_source(i) && 0 <= k < files.len() implies (#[trigger] files[k]).path@
        != #[trigger] tree.canonical(i) by {
        assert(tree.describes(files[k], src[k], build_dir));
        assert(tree.is_source(src[k]));
    }
}

/// Excluded entries leave no trace: for a listing whose entries have
/// distinct canonical paths and distinct relative paths made of proper
/// components, no discovered source is an excluded entry, and no directory
/// created under `root` is an excluded entry or the mirror of one; an entry
/// is excluded when it is listed, or lies inside a listed directory.
pub proof fn lemma_exclusions_hold(
    tree: SourceTree,
    files: Seq<SourceFile>,
    build_dir: Seq<char>,
    dirs: Seq<String>,
    root: Seq<char>,
)
    requires
        forall|i: int, j: int|
            0 <= i < j < tree.entries.len() ==> tree.canonical(i) != tree.canonical(j),
        forall|i: int, j: int| 0 <= i < j < tree.entries.len() ==> tree.rel(i) != tree.rel(j),
        forall|i: int, k: int|
            0 <= i < tree.entries.len() && 0 <= k < tree.rel(i).len() ==> is_component(
                #[trigger] tree.rel(i)[k],
            ),
        is_root(root),
        files.len() == tree.sources().len(),
        forall|k: int|
            0 <= k < files.len() ==> tree.describes(#[trigger] files[k], tree.sources()[k], build_dir),
        dirs.len() == tree.dirs().len(),
        forall|k: int|
            0 <= k < dirs.len() ==> (#[trigger] dirs[k])@ == mirrored(root, tree.rel(tree.dirs()[k])),
    ensures
        forall|i: int, k: int|
            0 <= i < tree.entries.len() && tree.excluded(i) && 0 <= k < files.len()
                ==> (#[trigger] files[k]).path@ != #[trigger] tree.canonical(i),
        forall|k: int| 0 <= k < dirs.len() ==> !tree.excluded(#[trigger] tree.dirs()[k]),
        forall|i: int, k: int|
            0 <= i < tree.entries.len() && tree.excluded(i) && 0 <= k < dirs.len()
                ==> (#[trigger] dirs[k])@ != mirrored(root, #[trigger] tree.rel(i)),
{
    let n = tree.entries.len() as int;
    lemma_pick(n, |i: int| tree.is_source(i));
    lemma_pick(n, |i: int| tree.is_kept_dir(i));
    assert forall|i: int, k: int|
        0 <= i < n && tree.excluded(i) && 0 <= k < files.len() implies (#[trigger] files[k]).path@
        != #[trigger] tree.canonical(i) by {
        assert(tree.describes(files[k], tree.sources()[k], build_dir));
        assert(tree.is_source(tree.sources()[k]));
    }
    assert forall|i: int, k: int|
        0 <= i < n && tree.excluded(i) && 0 <= k < dirs.len() implies (#[trigger] dirs[k])@
        != mirrored(root, #[trigger] tree.rel(i)) by {
        let j = tree.dirs()[k];
        assert(tree.is_kept_dir(j));
        if dirs[k]@ == mirrored(root, tree.rel(i)) {
            lemma_mirrored_injective(root, tree.rel(j), tree.rel(i));
            if i < j {
                assert(tree.rel(i) != tree.rel(j));
            } else {
                assert(tree.rel(j) != tree.rel(i));
            }
        }
    }
    assert forall|k: int| 0 <= k < dirs.len() implies !tree.excluded(#[trigger] tree.dirs()[k]) by {
        assert(tree.is_kept_dir(tree.dirs()[k]));
    }
}

} // verus!

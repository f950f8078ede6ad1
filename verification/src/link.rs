//! The link-line synthesizer: selection of the C runtime startup objects and
//! GCC-provided objects for an output kind, discovery of the highest
//! semantic-version GCC library directory among a set of names, and the
//! construction of the full, ordered linker argument vector. The filesystem
//! probing itself is the caller's: everything here maps plain values to
//! plain values.

use vstd::prelude::*;
use vstd::string::*;
use crate::arch::{Arch, spec_dynamic_linker, spec_emulation};
use crate::args::{Args, ArgsModel, OutputKind, opt_str, strs};
use crate::text::{concat2, join_path};

verus! {

/// The numeric triple of a semantic version string, where it parses as one.
pub uninterp spec fn semver_key(s: Seq<char>) -> Option<(u64, u64, u64)>;

/// Relies on semver::Version::parse: which strings parse as a semantic
/// version, and the major, minor and patch numbers of one, depend on the
/// text alone.
#[verifier::external_body]
fn parse_semver_triple(s: &str) -> (r: Option<(u64, u64, u64)>)
    ensures
        r == semver_key(s@),
{
    match semver::Version::parse(s) {
        Ok(v) => Some((v.major, v.minor, v.patch)),
        Err(_) => None,
    }
}

/// Numeric version order: major first, then minor, then patch.
pub open spec fn triple_le(a: (u64, u64, u64), b: (u64, u64, u64)) -> bool {
    a.0 < b.0 || (a.0 == b.0 && (a.1 < b.1 || (a.1 == b.1 && a.2 <= b.2)))
}

fn triple_le_exec(a: (u64, u64, u64), b: (u64, u64, u64)) -> (r: bool)
    ensures
        r == triple_le(a, b),
{
    a.0 < b.0 || (a.0 == b.0 && (a.1 < b.1 || (a.1 == b.1 && a.2 <= b.2)))
}

/// The index of the highest version among `names`: the names that do not
/// parse do not take part, and of equal versions the later one stands.
pub open spec fn spec_best_version(names: Seq<Seq<char>>) -> Option<int>
    decreases names.len(),
{
    if names.len() == 0 {
        None
    } else {
        let pre = spec_best_version(names.drop_last());
        match semver_key(names.last()) {
            None => pre,
            Some(k) => match pre {
                None => Some(names.len() - 1),
                Some(b) => if triple_le(semver_key(names[b])->Some_0, k) {
                    Some(names.len() - 1)
                } else {
                    Some(b)
                },
            },
        }
    }
}

/// The index of the entry of `names` that carries the highest semantic
/// version, when any parses as one.
pub fn highest_version_index(names: &Vec<String>) -> (r: Option<usize>)
    ensures
        match r {
            Some(i) => i < names@.len() && spec_best_version(strs(names@)) == Some(i as int),
            None => spec_best_version(strs(names@)) is None,
        },
{
    let n = names.len();
    let mut best: Option<usize> = None;
    let mut best_key: (u64, u64, u64) = (0, 0, 0);
    let mut i: usize = 0;
    while i < n
        invariant
            n == names@.len(),
            i <= n,
            match best {
                Some(b) => b < i && spec_best_version(strs(names@).subrange(0, i as int)) == Some(
                    b as int,
                ) && semver_key(names@[b as int]@) == Some(best_key),
                None => spec_best_version(strs(names@).subrange(0, i as int)) is None,
            },
        decreases n - i,
    {
        let ghost pre = strs(names@).subrange(0, i as int);
        proof {
            assert(strs(names@).subrange(0, i + 1).drop_last() =~= pre);
            assert(strs(names@).subrange(0, i + 1).last() == names@[i as int]@);
        }
        match parse_semver_triple(names[i].as_str()) {
            Some(k) => {
                let take = match best {
                    None => true,
                    Some(_) => triple_le_exec(best_key, k),
                };
                if take {
                    best = Some(i);
                    best_key = k;
                }
            },
            None => {},
        }
        i += 1;
    }
    proof {
        assert(strs(names@).subrange(0, n as int) =~= strs(names@));
    }
    best
}

/// A link-line synthesis failure: there is no safe substitute for missing
/// C runtime infrastructure.
#[derive(Debug, PartialEq, Eq, Structural, Clone, Copy)]
pub enum LinkError {
    /// No candidate system library directory holds `crti.o`.
    NoCrtDirectory,
    /// No name under the GCC library root parses as a version.
    NoGccVersionDirectory,
}

impl LinkError {
    pub fn message(&self) -> (r: String)
        ensures
            self == LinkError::NoCrtDirectory ==> r@
                == "no system library directory holds crti.o"@,
            self == LinkError::NoGccVersionDirectory ==> r@
                == "no GCC version directory was found"@,
    {
        match self {
            LinkError::NoCrtDirectory => String::from_str("no system library directory holds crti.o"),
            LinkError::NoGccVersionDirectory => String::from_str(
                "no GCC version directory was found",
            ),
        }
    }
}

/// The fixed, ordered list of system library directories that are probed,
/// in order, for the first one holding `crti.o`.
pub open spec fn spec_crt_probe_dirs() -> Seq<Seq<char>> {
    seq!["/usr/lib64"@, "/lib64"@, "/lib"@, "/usr/lib"@]
}

pub fn crt_probe_dirs() -> (r: Vec<String>)
    ensures
        strs(r@) == spec_crt_probe_dirs(),
{
    let mut v: Vec<String> = Vec::new();
    v.push(String::from_str("/usr/lib64"));
    v.push(String::from_str("/lib64"));
    v.push(String::from_str("/lib"));
    v.push(String::from_str("/usr/lib"));
    proof {
        assert(strs(v@) =~= spec_crt_probe_dirs());
    }
    v
}

/// The candidate GCC library roots, probed in order for one that exists.
pub open spec fn spec_gcc_root_candidates() -> Seq<Seq<char>> {
    seq!["/usr/lib64/gcc/x86_64-pc-linux-gnu"@, "/usr/lib/gcc/x86_64-pc-linux-gnu"@]
}

pub fn gcc_root_candidates() -> (r: Vec<String>)
    ensures
        strs(r@) == spec_gcc_root_candidates(),
{
    let mut v: Vec<String> = Vec::new();
    v.push(String::from_str("/usr/lib64/gcc/x86_64-pc-linux-gnu"));
    v.push(String::from_str("/usr/lib/gcc/x86_64-pc-linux-gnu"));
    proof {
        assert(strs(v@) =~= spec_gcc_root_candidates());
    }
    v
}

/// The C runtime start object for an output kind; a shared object takes
/// none.
pub open spec fn spec_crt1_name(kind: OutputKind) -> Option<Seq<char>> {
    match kind {
        OutputKind::DynamicPie => Some("Scrt1.o"@),
        OutputKind::StaticPie => Some("rcrt1.o"@),
        OutputKind::Dynamic => Some("crt1.o"@),
        OutputKind::Static => Some("crt1.o"@),
        OutputKind::SharedObject => None,
    }
}

pub fn crt1_name(kind: &OutputKind) -> (r: Option<&'static str>)
    ensures
        match r {
            Some(s) => spec_crt1_name(*kind) == Some(s@),
            None => spec_crt1_name(*kind) is None,
        },
{
    match kind {
        OutputKind::DynamicPie => Some("Scrt1.o"),
        OutputKind::StaticPie => Some("rcrt1.o"),
        OutputKind::Dynamic => Some("crt1.o"),
        OutputKind::Static => Some("crt1.o"),
        OutputKind::SharedObject => None,
    }
}

/// The GCC begin object matching an output kind.
pub open spec fn spec_begin_object_name(kind: OutputKind) -> Seq<char> {
    match kind {
        OutputKind::DynamicPie => "crtbeginS.o"@,
        OutputKind::StaticPie => "crtbeginS.o"@,
        OutputKind::SharedObject => "crtbeginS.o"@,
        OutputKind::Dynamic => "crtbegin.o"@,
        OutputKind::Static => "crtbeginT.o"@,
    }
}

pub fn begin_object_name(kind: &OutputKind) -> (r: &'static str)
    ensures
        r@ == spec_begin_object_name(*kind),
{
    match kind {
        OutputKind::DynamicPie => "crtbeginS.o",
        OutputKind::StaticPie => "crtbeginS.o",
        OutputKind::SharedObject => "crtbeginS.o",
        OutputKind::Dynamic => "crtbegin.o",
        OutputKind::Static => "crtbeginT.o",
    }
}

/// The paths to the C runtime objects for one link, all under the first
/// probed directory that held `crti.o`.
#[derive(Debug)]
pub struct SystemLibraryPaths {
    pub crt1: Option<String>,
    pub crti: String,
    pub crtn: String,
    pub library_paths: Vec<String>,
}

#[verifier::ext_equal]
pub struct SystemLibraryPathsModel {
    pub crt1: Option<Seq<char>>,
    pub crti: Seq<char>,
    pub crtn: Seq<char>,
    pub library_paths: Seq<Seq<char>>,
}

impl View for SystemLibraryPaths {
    type V = SystemLibraryPathsModel;

    open spec fn view(&self) -> SystemLibraryPathsModel {
        SystemLibraryPathsModel {
            crt1: opt_str(self.crt1),
            crti: self.crti@,
            crtn: self.crtn@,
            library_paths: strs(self.library_paths@),
        }
    }
}

/// The ideal system library paths for an output kind, rooted in `dir`.
pub open spec fn spec_system_library_paths(kind: OutputKind, dir: Seq<char>) -> SystemLibraryPathsModel {
    SystemLibraryPathsModel {
        crt1: match spec_crt1_name(kind) {
            Some(n) => Some(dir + seq!['/'] + n),
            None => None,
        },
        crti: dir + seq!['/'] + "crti.o"@,
        crtn: dir + seq!['/'] + "crtn.o"@,
        library_paths: spec_crt_probe_dirs(),
    }
}

/// The C runtime object paths for one link. `found_dir` is the first entry
/// of the probe list in which the caller found `crti.o`; picking it is the
/// caller's only part, since probing the filesystem is not done here.
pub fn system_library_paths(kind: &OutputKind, found_dir: &str) -> (r: SystemLibraryPaths)
    ensures
        r@ == spec_system_library_paths(*kind, found_dir@),
{
    let crt1: Option<String> = match crt1_name(kind) {
        Some(n) => Some(join_path(found_dir, n)),
        None => None,
    };
    let r = SystemLibraryPaths {
        crt1,
        crti: join_path(found_dir, "crti.o"),
        crtn: join_path(found_dir, "crtn.o"),
        library_paths: crt_probe_dirs(),
    };
    proof {
        assert(r@ =~= spec_system_library_paths(*kind, found_dir@));
    }
    r
}

/// Settles the CRT probe: the first probed directory that held `crti.o`
/// decides every C runtime path for the link, and a probe that found none is
/// fatal, since there is no safe substitute for missing CRT infrastructure.
pub fn resolve_system_library_paths(kind: &OutputKind, found_dir: Option<&str>) -> (r: Result<
    SystemLibraryPaths,
    LinkError,
>)
    ensures
        match found_dir {
            Some(d) => r matches Ok(s) && s@ == spec_system_library_paths(*kind, d@),
            None => r == Err::<SystemLibraryPaths, LinkError>(LinkError::NoCrtDirectory),
        },
{
    match found_dir {
        Some(d) => Ok(system_library_paths(kind, d)),
        None => Err(LinkError::NoCrtDirectory),
    }
}

/// The GCC-provided objects for one link, all under the highest-version
/// directory of the GCC library root.
#[derive(Debug)]
pub struct GccObjects {
    pub begin_object: String,
    pub end_object: String,
    pub lib_dir: String,
}

#[verifier::ext_equal]
pub struct GccObjectsModel {
    pub begin_object: Seq<char>,
    pub end_object: Seq<char>,
    pub lib_dir: Seq<char>,
}

impl View for GccObjects {
    type V = GccObjectsModel;

    open spec fn view(&self) -> GccObjectsModel {
        GccObjectsModel {
            begin_object: self.begin_object@,
            end_object: self.end_object@,
            lib_dir: self.lib_dir@,
        }
    }
}

/// The ideal GCC objects when the best version name is `name` under `root`.
pub open spec fn spec_gcc_objects(kind: OutputKind, root: Seq<char>, name: Seq<char>) -> GccObjectsModel {
    let lib_dir = root + seq!['/'] + name;
    GccObjectsModel {
        begin_object: lib_dir + seq!['/'] + spec_begin_object_name(kind),
        end_object: lib_dir + seq!['/'] + "crtend.o"@,
        lib_dir: lib_dir,
    }
}

/// Selects the highest semantic version among the directory names the
/// caller read under the GCC library root `gcc_root`, and names the begin
/// and end objects for the output kind under it. Fails when no name parses
/// as a version.
pub fn gcc_objects(kind: &OutputKind, gcc_root: &str, version_dir_names: &Vec<String>) -> (r:
    Result<GccObjects, LinkError>)
    ensures
        match spec_best_version(strs(version_dir_names@)) {
            Some(b) => r matches Ok(g) && g@ == spec_gcc_objects(
                *kind,
                gcc_root@,
                strs(version_dir_names@)[b],
            ),
            None => r == Err::<GccObjects, LinkError>(LinkError::NoGccVersionDirectory),
        },
{
    match highest_version_index(version_dir_names) {
        None => Err(LinkError::NoGccVersionDirectory),
        Some(i) => {
            let lib_dir = join_path(gcc_root, version_dir_names[i].as_str());
            let begin_object = join_path(lib_dir.as_str(), begin_object_name(kind));
            let end_object = join_path(lib_dir.as_str(), "crtend.o");
            let g = GccObjects { begin_object, end_object, lib_dir };
            proof {
                assert(g@ =~= spec_gcc_objects(*kind, gcc_root@, strs(version_dir_names@)[i as int]));
            }
            Ok(g)
        },
    }
}

/// Each element of `xs` with `p` put in front of it.
pub open spec fn prefix_each(p: Seq<char>, xs: Seq<Seq<char>>) -> Seq<Seq<char>> {
    Seq::new(xs.len(), |i: int| p + xs[i])
}

/// The output-kind-specific flags of the linker invocation.
pub open spec fn spec_output_kind_args(kind: OutputKind, arch: Arch) -> Seq<Seq<char>> {
    match kind {
        OutputKind::DynamicPie => seq!["-pie"@, "--dynamic-linker"@, spec_dynamic_linker(arch)],
        OutputKind::StaticPie => seq!["-static"@, "-pie"@],
        OutputKind::Dynamic => seq!["--dynamic-linker"@, spec_dynamic_linker(arch)],
        OutputKind::Static => seq!["-static"@],
        OutputKind::SharedObject => seq!["-shared"@],
    }
}

/// The default system libraries: the C++ runtime first in C++ mode, then the
/// GCC support and C libraries, in the static or the shared arrangement.
pub open spec fn spec_default_libs(cpp_mode: bool, kind: OutputKind) -> Seq<Seq<char>> {
    (if cpp_mode {
        seq!["-lstdc++"@, "-lm"@]
    } else {
        Seq::empty()
    }) + (if kind == OutputKind::Static || kind == OutputKind::StaticPie {
        seq!["-lgcc"@, "-lgcc_eh"@, "-lc"@]
    } else {
        seq!["-lgcc"@, "--as-needed"@, "-lgcc_s"@, "--no-as-needed"@, "-lc"@]
    })
}

/// The whole linker argument vector, in its fixed order: identity flags and
/// emulation, output-kind flags, the output path, start objects, begin
/// object, search paths, the caller's objects, paths, libraries, scripts and
/// pass-through arguments, the default libraries unless suppressed, and the
/// end objects.
pub open spec fn spec_linker_invocation(
    m: ArgsModel,
    cpp_mode: bool,
    sys: SystemLibraryPathsModel,
    gcc: GccObjectsModel,
) -> Seq<Seq<char>> {
    seq!["--hash-style=gnu"@, "--build-id"@, "--eh-frame-hdr"@, "-m"@, spec_emulation(m.arch)]
        + spec_output_kind_args(m.output_kind, m.arch) + seq!["-o"@, m.output] + (match sys.crt1 {
        Some(p) => seq![p],
        None => Seq::empty(),
    }) + seq![sys.crti, gcc.begin_object, seq!['-', 'L'] + gcc.lib_dir] + prefix_each(
        seq!['-', 'L'],
        sys.library_paths,
    ) + m.objects + prefix_each(seq!['-', 'L'], m.multis.additional_search_paths) + prefix_each(
        seq!['-', 'l'],
        m.multis.additional_libs,
    ) + prefix_each(seq!['-', 'T'], m.multis.scripts) + m.multis.linker_args + (if !m.toggles.nodefaultlibs
        && !m.toggles.nostdlib {
        spec_default_libs(cpp_mode, m.output_kind)
    } else {
        Seq::empty()
    }) + seq![gcc.end_object, sys.crtn]
}

fn push_str(out: &mut Vec<String>, s: &str)
    ensures
        strs(final(out)@) == strs(old(out)@).push(s@),
{
    out.push(s.to_owned());
    proof {
        assert(strs(out@) =~= strs(old(out)@).push(s@));
    }
}

fn push_string(out: &mut Vec<String>, s: String)
    ensures
        strs(final(out)@) == strs(old(out)@).push(s@),
{
    let ghost sv = s@;
    out.push(s);
    proof {
        assert(strs(out@) =~= strs(old(out)@).push(sv));
    }
}

fn push_all(out: &mut Vec<String>, xs: &Vec<String>)
    ensures
        strs(final(out)@) == strs(old(out)@) + strs(xs@),
{
    let n = xs.len();
    let mut i: usize = 0;
    while i < n
        invariant
            n == xs@.len(),
            i <= n,
            strs(out@) == strs(old(out)@) + strs(xs@).subrange(0, i as int),
        decreases n - i,
    {
        let ghost pre = strs(out@);
        out.push(xs[i].clone());
        proof {
            assert(strs(out@) =~= pre.push(xs@[i as int]@));
            assert(pre.push(xs@[i as int]@) =~= strs(old(out)@) + strs(xs@).subrange(0, i + 1));
        }
        i += 1;
    }
    proof {
        assert(strs(xs@).subrange(0, n as int) =~= strs(xs@));
    }
}

fn push_prefixed_all(out: &mut Vec<String>, prefix: &str, xs: &Vec<String>)
    ensures
        strs(final(out)@) == strs(old(out)@) + prefix_each(prefix@, strs(xs@)),
{
    let n = xs.len();
    let mut i: usize = 0;
    while i < n
        invariant
            n == xs@.len(),
            i <= n,
            strs(out@) == strs(old(out)@) + prefix_each(prefix@, strs(xs@)).subrange(0, i as int),
        decreases n - i,
    {
        let ghost pre = strs(out@);
        let item = concat2(prefix, xs[i].as_str());
        out.push(item);
        proof {
            assert(strs(out@) =~= pre.push(prefix@ + xs@[i as int]@));
            assert(pre.push(prefix@ + xs@[i as int]@) =~= strs(old(out)@) + prefix_each(
                prefix@,
                strs(xs@),
            ).subrange(0, i + 1));
        }
        i += 1;
    }
    proof {
        assert(prefix_each(prefix@, strs(xs@)).subrange(0, n as int) =~= prefix_each(
            prefix@,
            strs(xs@),
        ));
    }
}

fn push_output_kind_args(out: &mut Vec<String>, kind: &OutputKind, arch: &Arch)
    ensures
        strs(final(out)@) == strs(old(out)@) + spec_output_kind_args(*kind, *arch),
{
    match kind {
        OutputKind::DynamicPie => {
            push_str(out, "-pie");
            push_str(out, "--dynamic-linker");
            push_str(out, arch.dynamic_linker());
        },
        OutputKind::StaticPie => {
            push_str(out, "-static");
            push_str(out, "-pie");
        },
        OutputKind::Dynamic => {
            push_str(out, "--dynamic-linker");
            push_str(out, arch.dynamic_linker());
        },
        OutputKind::Static => {
            push_str(out, "-static");
        },
        OutputKind::SharedObject => {
            push_str(out, "-shared");
        },
    }
    proof {
        assert(strs(out@) =~= strs(old(out)@) + spec_output_kind_args(*kind, *arch));
    }
}

fn push_opt_str(out: &mut Vec<String>, s: &Option<String>)
    ensures
        strs(final(out)@) == strs(old(out)@) + (match opt_str(*s) {
            Some(p) => seq![p],
            None => Seq::<Seq<char>>::empty(),
        }),
{
    match s {
        Some(p) => {
            push_str(out, p.as_str());
        },
        None => {},
    }
    proof {
        assert(strs(out@) =~= strs(old(out)@) + (match opt_str(*s) {
            Some(p) => seq![p],
            None => Seq::<Seq<char>>::empty(),
        }));
    }
}

fn push_default_libs(out: &mut Vec<String>, cpp_mode: bool, kind: &OutputKind, suppressed: bool)
    ensures
        strs(final(out)@) == strs(old(out)@) + (if !suppressed {
            spec_default_libs(cpp_mode, *kind)
        } else {
            Seq::<Seq<char>>::empty()
        }),
{
    if !suppressed {
        if cpp_mode {
            push_str(out, "-lstdc++");
            push_str(out, "-lm");
        }
        let is_static = match kind {
            OutputKind::Static => true,
            OutputKind::StaticPie => true,
            _ => false,
        };
        if is_static {
            push_str(out, "-lgcc");
            push_str(out, "-lgcc_eh");
            push_str(out, "-lc");
        } else {
            push_str(out, "-lgcc");
            push_str(out, "--as-needed");
            push_str(out, "-lgcc_s");
            push_str(out, "--no-as-needed");
            push_str(out, "-lc");
        }
    }
    proof {
        assert(strs(out@) =~= strs(old(out)@) + (if !suppressed {
            spec_default_libs(cpp_mode, *kind)
        } else {
            Seq::<Seq<char>>::empty()
        }));
    }
}

/// Builds the full linker argument vector for a finalized record, in the
/// fixed order that `spec_linker_invocation` states.
pub fn build_linker_invocation(
    args: &Args,
    cpp_mode: bool,
    sys: &SystemLibraryPaths,
    gcc: &GccObjects,
) -> (r: Vec<String>)
    ensures
        strs(r@) == spec_linker_invocation(args@, cpp_mode, sys@, gcc@),
{
    let mut out: Vec<String> = Vec::new();
    push_str(&mut out, "--hash-style=gnu");
    push_str(&mut out, "--build-id");
    push_str(&mut out, "--eh-frame-hdr");
    push_str(&mut out, "-m");
    push_str(&mut out, args.arch.emulation());
    push_output_kind_args(&mut out, &args.output_kind, &args.arch);
    push_str(&mut out, "-o");
    push_str(&mut out, args.output.as_str());
    push_opt_str(&mut out, &sys.crt1);
    push_str(&mut out, sys.crti.as_str());
    push_str(&mut out, gcc.begin_object.as_str());
    push_string(&mut out, concat2("-L", gcc.lib_dir.as_str()));
    proof {
        reveal_strlit("-L");
        reveal_strlit("-l");
        reveal_strlit("-T");
        assert("-L"@ =~= seq!['-', 'L']);
        assert("-l"@ =~= seq!['-', 'l']);
        assert("-T"@ =~= seq!['-', 'T']);
    }
    push_prefixed_all(&mut out, "-L", &sys.library_paths);
    push_all(&mut out, &args.objects);
    push_prefixed_all(&mut out, "-L", &args.additional_search_paths);
    push_prefixed_all(&mut out, "-l", &args.additional_libs);
    push_prefixed_all(&mut out, "-T", &args.scripts);
    push_all(&mut out, &args.linker_args);
    push_default_libs(&mut out, cpp_mode, &args.output_kind, args.nodefaultlibs || args.nostdlib);
    push_str(&mut out, gcc.end_object.as_str());
    push_str(&mut out, sys.crtn.as_str());
    proof {
        assert(strs(out@) =~= spec_linker_invocation(args@, cpp_mode, sys@, gcc@));
    }
    out
}

} // verus!

//! The driver argument model: the record that one parse pass populates, the
//! derived `Mode` and `OutputKind`, and the field identifiers through which
//! the declarative parser routes what it matched.

use vstd::prelude::*;
use vstd::string::StringExecFns;
use crate::arch::{Arch, TripleError, TripleErrorKind, spec_target_arch};
use crate::arg_parser::{
    ArgDeclModel, ArgParser, ArgTarget, DeclError, FlagDeclModel, ParseError, arg_decls_view,
    flag_decls_view, spec_parse_tokens,
};

verus! {

/// What the invocation asks the driver to do, derived from the record after
/// parsing and never mutated again.
#[derive(Debug, PartialEq, Eq, Structural, Clone, Copy)]
pub enum Mode {
    NoWork,
    CompileOnly,
    LinkOnly,
    CompileAndLink,
}

impl Default for Mode {
    fn default() -> (r: Self)
        ensures
            r == Mode::NoWork,
    {
        Mode::NoWork
    }
}

/// The kind of artifact the link step is to produce.
#[derive(Debug, PartialEq, Eq, Structural, Clone, Copy)]
pub enum OutputKind {
    DynamicPie,
    StaticPie,
    Dynamic,
    Static,
    SharedObject,
}

impl Default for OutputKind {
    fn default() -> (r: Self)
        ensures
            r == OutputKind::DynamicPie,
    {
        OutputKind::DynamicPie
    }
}

/// The resolved output kind, by strict priority: `static_pie` over
/// `static_exe` over `shared` over `pie`; later flags never downgrade
/// earlier ones.
pub open spec fn spec_output_kind(
    static_pie: bool,
    static_exe: bool,
    shared: bool,
    pie: bool,
) -> OutputKind {
    if static_pie {
        OutputKind::StaticPie
    } else if static_exe {
        OutputKind::Static
    } else if shared {
        OutputKind::SharedObject
    } else if pie {
        OutputKind::DynamicPie
    } else {
        OutputKind::Dynamic
    }
}

impl OutputKind {
    /// Drivers resolve these four toggles by priority, in order of option
    /// importance: `-static-pie`, then `-static`, then `-shared`, then
    /// `-(no-)pie`. The options never override each other, so for example
    /// `-static -shared` is the same as `-static` alone.
    pub fn from_args(args: &Args) -> (r: Self)
        ensures
            r == spec_output_kind(args.static_pie, args.static_exe, args.shared, args.pie),
    {
        if args.static_pie {
            OutputKind::StaticPie
        } else if args.static_exe {
            OutputKind::Static
        } else if args.shared {
            OutputKind::SharedObject
        } else if args.pie {
            OutputKind::DynamicPie
        } else {
            OutputKind::Dynamic
        }
    }
}

/// The boolean toggles a flag declaration can bind to.
#[derive(Debug, PartialEq, Eq, Structural, Clone, Copy)]
pub enum FlagField {
    Pie,
    Shared,
    StaticExe,
    StaticPie,
    Pthread,
    Nodefaultlibs,
    Nostartfiles,
    Nostdlib,
    Coverage,
    Profile,
    DontLink,
    DontAssemble,
    Help,
}

/// The overwrite-on-repeat value slots an argument declaration can bind to.
#[derive(Debug, PartialEq, Eq, Structural, Clone, Copy)]
pub enum SingleField {
    Out,
    Language,
    Target,
    Sysroot,
}

/// The append-on-repeat value lists an argument declaration can bind to.
#[derive(Debug, PartialEq, Eq, Structural, Clone, Copy)]
pub enum MultiField {
    CompilerBArgs,
    AdditionalLibs,
    AdditionalSearchPaths,
    Scripts,
    LinkerArgs,
}

/// The sequence of views of a list of strings.
pub open spec fn strs(v: Seq<String>) -> Seq<Seq<char>> {
    Seq::new(v.len(), |i: int| v[i]@)
}

/// The view of an optional string.
pub open spec fn opt_str(v: Option<String>) -> Option<Seq<char>> {
    match v {
        Some(s) => Some(s@),
        None => None,
    }
}

/// The boolean toggles of the record.
#[verifier::ext_equal]
pub struct TogglesModel {
    pub pthread: bool,
    pub pie: bool,
    pub shared: bool,
    pub static_exe: bool,
    pub static_pie: bool,
    pub nodefaultlibs: bool,
    pub nostartfiles: bool,
    pub nostdlib: bool,
    pub coverage: bool,
    pub profile: bool,
    pub dont_assemble: bool,
    pub dont_link: bool,
    pub help: bool,
}

/// The overwrite-on-repeat value slots of the record.
#[verifier::ext_equal]
pub struct SinglesModel {
    pub sysroot: Option<Seq<char>>,
    pub target: Option<Seq<char>>,
    pub language: Option<Seq<char>>,
    pub out: Option<Seq<char>>,
}

/// The append-on-repeat value lists of the record.
#[verifier::ext_equal]
pub struct MultisModel {
    pub scripts: Seq<Seq<char>>,
    pub linker_args: Seq<Seq<char>>,
    pub additional_libs: Seq<Seq<char>>,
    pub additional_search_paths: Seq<Seq<char>>,
    pub compiler_b_args: Seq<Seq<char>>,
}

/// The mathematical value of an argument record: every string as a
/// `Seq<char>`, every list as a `Seq` of those.
#[verifier::ext_equal]
pub struct ArgsModel {
    pub toggles: TogglesModel,
    pub singles: SinglesModel,
    pub multis: MultisModel,
    pub output: Seq<char>,
    pub output_kind: OutputKind,
    pub mode: Mode,
    pub arch: Arch,
    pub objects: Seq<Seq<char>>,
    pub sources: Seq<Seq<char>>,
    pub unknown_args: Seq<Seq<char>>,
}

/// The driver argument record: created with its defaults, populated by one
/// parse pass, then finalized by deriving `output_kind`, `arch`, `output`
/// and `mode`.
#[derive(Debug)]
pub struct Args {
    pub pthread: bool,
    pub sysroot: Option<String>,
    pub scripts: Vec<String>,
    pub pie: bool,
    pub shared: bool,
    pub static_exe: bool,
    pub static_pie: bool,
    pub linker_args: Vec<String>,
    pub additional_libs: Vec<String>,
    pub additional_search_paths: Vec<String>,
    pub compiler_b_args: Vec<String>,
    pub nodefaultlibs: bool,
    pub nostartfiles: bool,
    pub nostdlib: bool,
    pub coverage: bool,
    pub profile: bool,
    pub target: Option<String>,
    pub language: Option<String>,
    pub dont_assemble: bool,
    pub dont_link: bool,
    pub out: Option<String>,
    pub output: String,
    pub output_kind: OutputKind,
    pub mode: Mode,
    pub arch: Arch,
    pub objects: Vec<String>,
    pub sources: Vec<String>,
    pub unknown_args: Vec<String>,
    pub help: bool,
}

impl View for Args {
    type V = ArgsModel;

    open spec fn view(&self) -> ArgsModel {
        ArgsModel {
            toggles: TogglesModel {
                pthread: self.pthread,
                pie: self.pie,
                shared: self.shared,
                static_exe: self.static_exe,
                static_pie: self.static_pie,
                nodefaultlibs: self.nodefaultlibs,
                nostartfiles: self.nostartfiles,
                nostdlib: self.nostdlib,
                coverage: self.coverage,
                profile: self.profile,
                dont_assemble: self.dont_assemble,
                dont_link: self.dont_link,
                help: self.help,
            },
            singles: SinglesModel {
                sysroot: opt_str(self.sysroot),
                target: opt_str(self.target),
                language: opt_str(self.language),
                out: opt_str(self.out),
            },
            multis: MultisModel {
                scripts: strs(self.scripts@),
                linker_args: strs(self.linker_args@),
                additional_libs: strs(self.additional_libs@),
                additional_search_paths: strs(self.additional_search_paths@),
                compiler_b_args: strs(self.compiler_b_args@),
            },
            output: self.output@,
            output_kind: self.output_kind,
            mode: self.mode,
            arch: self.arch,
            objects: strs(self.objects@),
            sources: strs(self.sources@),
            unknown_args: strs(self.unknown_args@),
        }
    }
}

/// The record every parse starts from: `pie` set, output `a.out`, everything
/// else empty or cleared.
pub open spec fn spec_default_args() -> ArgsModel {
    ArgsModel {
        toggles: TogglesModel {
            pthread: false,
            pie: true,
            shared: false,
            static_exe: false,
            static_pie: false,
            nodefaultlibs: false,
            nostartfiles: false,
            nostdlib: false,
            coverage: false,
            profile: false,
            dont_assemble: false,
            dont_link: false,
            help: false,
        },
        singles: SinglesModel { sysroot: None, target: None, language: None, out: None },
        multis: MultisModel {
            scripts: Seq::empty(),
            linker_args: Seq::empty(),
            additional_libs: Seq::empty(),
            additional_search_paths: Seq::empty(),
            compiler_b_args: Seq::empty(),
        },
        output: "a.out"@,
        output_kind: OutputKind::DynamicPie,
        mode: Mode::NoWork,
        arch: Arch::X86_64,
        objects: Seq::empty(),
        sources: Seq::empty(),
        unknown_args: Seq::empty(),
    }
}

impl Default for Args {
    fn default() -> (r: Self)
        ensures
            r@ == spec_default_args(),
    {
        let r = Args {
            pthread: false,
            sysroot: None,
            scripts: Vec::new(),
            pie: true,
            shared: false,
            static_exe: false,
            static_pie: false,
            linker_args: Vec::new(),
            additional_libs: Vec::new(),
            additional_search_paths: Vec::new(),
            compiler_b_args: Vec::new(),
            nodefaultlibs: false,
            nostartfiles: false,
            nostdlib: false,
            coverage: false,
            profile: false,
            target: None,
            language: None,
            dont_assemble: false,
            dont_link: false,
            out: None,
            output: default_output_name(),
            output_kind: OutputKind::DynamicPie,
            mode: Mode::NoWork,
            arch: Arch::X86_64,
            objects: Vec::new(),
            sources: Vec::new(),
            unknown_args: Vec::new(),
            help: false,
        };
        proof {
            assert(r@.multis.scripts =~= Seq::<Seq<char>>::empty());
            assert(r@.multis.linker_args =~= Seq::<Seq<char>>::empty());
            assert(r@.multis.additional_libs =~= Seq::<Seq<char>>::empty());
            assert(r@.multis.additional_search_paths =~= Seq::<Seq<char>>::empty());
            assert(r@.multis.compiler_b_args =~= Seq::<Seq<char>>::empty());
            assert(r@.objects =~= Seq::<Seq<char>>::empty());
            assert(r@.sources =~= Seq::<Seq<char>>::empty());
            assert(r@.unknown_args =~= Seq::<Seq<char>>::empty());
            assert(r@ =~= spec_default_args());
        }
        r
    }
}

/// The name a link produces when no `-o` was given.
pub fn default_output_name() -> (r: String)
    ensures
        r@ == "a.out"@,
{
    String::from_str("a.out")
}

/// `t` with the toggle `f` set to `v`.
pub open spec fn spec_set_toggle(t: TogglesModel, f: FlagField, v: bool) -> TogglesModel {
    match f {
        FlagField::Pie => TogglesModel { pie: v, ..t },
        FlagField::Shared => TogglesModel { shared: v, ..t },
        FlagField::StaticExe => TogglesModel { static_exe: v, ..t },
        FlagField::StaticPie => TogglesModel { static_pie: v, ..t },
        FlagField::Pthread => TogglesModel { pthread: v, ..t },
        FlagField::Nodefaultlibs => TogglesModel { nodefaultlibs: v, ..t },
        FlagField::Nostartfiles => TogglesModel { nostartfiles: v, ..t },
        FlagField::Nostdlib => TogglesModel { nostdlib: v, ..t },
        FlagField::Coverage => TogglesModel { coverage: v, ..t },
        FlagField::Profile => TogglesModel { profile: v, ..t },
        FlagField::DontLink => TogglesModel { dont_link: v, ..t },
        FlagField::DontAssemble => TogglesModel { dont_assemble: v, ..t },
        FlagField::Help => TogglesModel { help: v, ..t },
    }
}

/// `m` with the toggle `f` set to `v`.
pub open spec fn spec_set_flag(m: ArgsModel, f: FlagField, v: bool) -> ArgsModel {
    ArgsModel { toggles: spec_set_toggle(m.toggles, f, v), ..m }
}

/// `s` with the single-value slot `f` overwritten with `v`.
pub open spec fn spec_set_single_slot(
    s: SinglesModel,
    f: SingleField,
    v: Seq<char>,
) -> SinglesModel {
    SinglesModel {
        out: if f == SingleField::Out {
            Some(v)
        } else {
            s.out
        },
        language: if f == SingleField::Language {
            Some(v)
        } else {
            s.language
        },
        target: if f == SingleField::Target {
            Some(v)
        } else {
            s.target
        },
        sysroot: if f == SingleField::Sysroot {
            Some(v)
        } else {
            s.sysroot
        },
    }
}

/// `m` with the single-value slot `f` overwritten with `v`.
pub open spec fn spec_set_single(m: ArgsModel, f: SingleField, v: Seq<char>) -> ArgsModel {
    ArgsModel { singles: spec_set_single_slot(m.singles, f, v), ..m }
}

/// `u` with `vs` appended to the multi-value list `f`.
pub open spec fn spec_append_multi_list(
    u: MultisModel,
    f: MultiField,
    vs: Seq<Seq<char>>,
) -> MultisModel {
    MultisModel {
        compiler_b_args: if f == MultiField::CompilerBArgs {
            u.compiler_b_args + vs
        } else {
            u.compiler_b_args
        },
        additional_libs: if f == MultiField::AdditionalLibs {
            u.additional_libs + vs
        } else {
            u.additional_libs
        },
        additional_search_paths: if f == MultiField::AdditionalSearchPaths {
            u.additional_search_paths + vs
        } else {
            u.additional_search_paths
        },
        scripts: if f == MultiField::Scripts {
            u.scripts + vs
        } else {
            u.scripts
        },
        linker_args: if f == MultiField::LinkerArgs {
            u.linker_args + vs
        } else {
            u.linker_args
        },
    }
}

/// `m` with `vs` appended to the multi-value list `f`.
pub open spec fn spec_append_multi(m: ArgsModel, f: MultiField, vs: Seq<Seq<char>>) -> ArgsModel {
    ArgsModel { multis: spec_append_multi_list(m.multis, f, vs), ..m }
}

impl Args {
    fn set_pie_flag(&mut self, v: bool)
        ensures
            final(self)@ == spec_set_flag(old(self)@, FlagField::Pie, v),
    {
        self.pie = v;
    }

    fn set_shared_flag(&mut self, v: bool)
        ensures
            final(self)@ == spec_set_flag(old(self)@, FlagField::Shared, v),
    {
        self.shared = v;
    }

    fn set_static_exe_flag(&mut self, v: bool)
        ensures
            final(self)@ == spec_set_flag(old(self)@, FlagField::StaticExe, v),
    {
        self.static_exe = v;
    }

    fn set_static_pie_flag(&mut self, v: bool)
        ensures
            final(self)@ == spec_set_flag(old(self)@, FlagField::StaticPie, v),
    {
        self.static_pie = v;
    }

    fn set_pthread_flag(&mut self, v: bool)
        ensures
            final(self)@ == spec_set_flag(old(self)@, FlagField::Pthread, v),
    {
        self.pthread = v;
    }

    fn set_nodefaultlibs_flag(&mut self, v: bool)
        ensures
            final(self)@ == spec_set_flag(old(self)@, FlagField::Nodefaultlibs, v),
    {
        self.nodefaultlibs = v;
    }

    fn set_nostartfiles_flag(&mut self, v: bool)
        ensures
            final(self)@ == spec_set_flag(old(self)@, FlagField::Nostartfiles, v),
    {
        self.nostartfiles = v;
    }

    fn set_nostdlib_flag(&mut self, v: bool)
        ensures
            final(self)@ == spec_set_flag(old(self)@, FlagField::Nostdlib, v),
    {
        self.nostdlib = v;
    }

    fn set_coverage_flag(&mut self, v: bool)
        ensures
            final(self)@ == spec_set_flag(old(self)@, FlagField::Coverage, v),
    {
        self.coverage = v;
    }

    fn set_profile_flag(&mut self, v: bool)
        ensures
            final(self)@ == spec_set_flag(old(self)@, FlagField::Profile, v),
    {
        self.profile = v;
    }

    fn set_dont_link_flag(&mut self, v: bool)
        ensures
            final(self)@ == spec_set_flag(old(self)@, FlagField::DontLink, v),
    {
        self.dont_link = v;
    }

    fn set_dont_assemble_flag(&mut self, v: bool)
        ensures
            final(self)@ == spec_set_flag(old(self)@, FlagField::DontAssemble, v),
    {
        self.dont_assemble = v;
    }

    fn set_help_flag(&mut self, v: bool)
        ensures
            final(self)@ == spec_set_flag(old(self)@, FlagField::Help, v),
    {
        self.help = v;
    }

    pub fn set_flag(&mut self, f: FlagField, v: bool)
        ensures
            final(self)@ == spec_set_flag(old(self)@, f, v),
    {
        match f {
            FlagField::Pie => self.set_pie_flag(v),
            FlagField::Shared => self.set_shared_flag(v),
            FlagField::StaticExe => self.set_static_exe_flag(v),
            FlagField::StaticPie => self.set_static_pie_flag(v),
            FlagField::Pthread => self.set_pthread_flag(v),
            FlagField::Nodefaultlibs => self.set_nodefaultlibs_flag(v),
            FlagField::Nostartfiles => self.set_nostartfiles_flag(v),
            FlagField::Nostdlib => self.set_nostdlib_flag(v),
            FlagField::Coverage => self.set_coverage_flag(v),
            FlagField::Profile => self.set_profile_flag(v),
            FlagField::DontLink => self.set_dont_link_flag(v),
            FlagField::DontAssemble => self.set_dont_assemble_flag(v),
            FlagField::Help => self.set_help_flag(v),
        }
    }

    fn set_out_single(&mut self, v: String)
        ensures
            final(self)@ == spec_set_single(old(self)@, SingleField::Out, v@),
    {
        self.out = Some(v);
    }

    fn set_language_single(&mut self, v: String)
        ensures
            final(self)@ == spec_set_single(old(self)@, SingleField::Language, v@),
    {
        self.language = Some(v);
    }

    fn set_target_single(&mut self, v: String)
        ensures
            final(self)@ == spec_set_single(old(self)@, SingleField::Target, v@),
    {
        self.target = Some(v);
    }

    fn set_sysroot_single(&mut self, v: String)
        ensures
            final(self)@ == spec_set_single(old(self)@, SingleField::Sysroot, v@),
    {
        self.sysroot = Some(v);
    }

    pub fn set_single(&mut self, f: SingleField, v: String)
        ensures
            final(self)@ == spec_set_single(old(self)@, f, v@),
    {
        match f {
            SingleField::Out => self.set_out_single(v),
            SingleField::Language => self.set_language_single(v),
            SingleField::Target => self.set_target_single(v),
            SingleField::Sysroot => self.set_sysroot_single(v),
        }
    }

    fn push_compiler_b_args_multi(&mut self, v: String)
        ensures
            final(self)@ == spec_append_multi(old(self)@, MultiField::CompilerBArgs, seq![v@]),
    {
        let ghost vv = v@;
        self.compiler_b_args.push(v);
        proof {
            assert(strs(self.compiler_b_args@) =~= strs(old(self).compiler_b_args@) + seq![vv]);
        }
    }

    fn push_additional_libs_multi(&mut self, v: String)
        ensures
            final(self)@ == spec_append_multi(old(self)@, MultiField::AdditionalLibs, seq![v@]),
    {
        let ghost vv = v@;
        self.additional_libs.push(v);
        proof {
            assert(strs(self.additional_libs@) =~= strs(old(self).additional_libs@) + seq![vv]);
        }
    }

    fn push_additional_search_paths_multi(&mut self, v: String)
        ensures
            final(self)@ == spec_append_multi(old(self)@, MultiField::AdditionalSearchPaths, seq![v@]),
    {
        let ghost vv = v@;
        self.additional_search_paths.push(v);
        proof {
            assert(strs(self.additional_search_paths@) =~= strs(old(self).additional_search_paths@) + seq![vv]);
        }
    }

    fn push_scripts_multi(&mut self, v: String)
        ensures
            final(self)@ == spec_append_multi(old(self)@, MultiField::Scripts, seq![v@]),
    {
        let ghost vv = v@;
        self.scripts.push(v);
        proof {
            assert(strs(self.scripts@) =~= strs(old(self).scripts@) + seq![vv]);
        }
    }

    fn push_linker_args_multi(&mut self, v: String)
        ensures
            final(self)@ == spec_append_multi(old(self)@, MultiField::LinkerArgs, seq![v@]),
    {
        let ghost vv = v@;
        self.linker_args.push(v);
        proof {
            assert(strs(self.linker_args@) =~= strs(old(self).linker_args@) + seq![vv]);
        }
    }

    pub fn push_multi(&mut self, f: MultiField, v: String)
        ensures
            final(self)@ == spec_append_multi(old(self)@, f, seq![v@]),
    {
        match f {
            MultiField::CompilerBArgs => self.push_compiler_b_args_multi(v),
            MultiField::AdditionalLibs => self.push_additional_libs_multi(v),
            MultiField::AdditionalSearchPaths => self.push_additional_search_paths_multi(v),
            MultiField::Scripts => self.push_scripts_multi(v),
            MultiField::LinkerArgs => self.push_linker_args_multi(v),
        }
    }

    /// Appends every element of `vs` to the multi-value list `f`, in order.
    pub fn push_multi_all(&mut self, f: MultiField, vs: Vec<String>)
        ensures
            final(self)@ == spec_append_multi(old(self)@, f, strs(vs@)),
    {
        let n = vs.len();
        let mut i: usize = 0;
        while i < n
            invariant
                n == vs@.len(),
                i <= n,
                self@ == spec_append_multi(old(self)@, f, strs(vs@.subrange(0, i as int))),
            decreases n - i,
        {
            let ghost prev = strs(vs@.subrange(0, i as int));
            self.push_multi(f, vs[i].clone());
            proof {
                lemma_append_multi_assoc(old(self)@, f, prev, seq![vs@[i as int]@]);
                assert(prev + seq![vs@[i as int]@] =~= strs(vs@.subrange(0, i + 1)));
            }
            i += 1;
        }
        proof {
            assert(strs(vs@.subrange(0, n as int)) =~= strs(vs@));
        }
    }

    /// Appends `t` to `sources` when its suffix marks it as source code, and
    /// to `objects` otherwise.
    pub fn push_free_token(&mut self, t: &str)
        ensures
            final(self)@ == spec_classify_free(old(self)@, t@),
    {
        let ghost tv = t@;
        if is_source_name(t) {
            self.sources.push(t.to_owned());
            proof {
                assert(strs(self.sources@) =~= strs(old(self).sources@).push(tv));
            }
        } else {
            self.objects.push(t.to_owned());
            proof {
                assert(strs(self.objects@) =~= strs(old(self).objects@).push(tv));
            }
        }
    }
}

/// Appending `a` and then `b` to one list appends their concatenation.
pub proof fn lemma_append_multi_assoc(m: ArgsModel, f: MultiField, a: Seq<Seq<char>>, b: Seq<Seq<char>>)
    ensures
        spec_append_multi(spec_append_multi(m, f, a), f, b) == spec_append_multi(m, f, a + b),
{
    assert(spec_append_multi(spec_append_multi(m, f, a), f, b) =~= spec_append_multi(m, f, a + b));
}

/// A free token names source code exactly when it carries one of the
/// suffixes `.c`, `.cc`, `.cpp`, `.s`, `.S`.
pub open spec fn spec_is_source_name(t: Seq<char>) -> bool {
    crate::text::is_suffix_of(".c"@, t) || crate::text::is_suffix_of(".cc"@, t)
        || crate::text::is_suffix_of(".cpp"@, t) || crate::text::is_suffix_of(".s"@, t)
        || crate::text::is_suffix_of(".S"@, t)
}

pub fn is_source_name(t: &str) -> (r: bool)
    ensures
        r == spec_is_source_name(t@),
{
    crate::text::str_ends_with(t, ".c") || crate::text::str_ends_with(t, ".cc")
        || crate::text::str_ends_with(t, ".cpp") || crate::text::str_ends_with(t, ".s")
        || crate::text::str_ends_with(t, ".S")
}

/// Every free token is classified exactly once: by suffix into `sources`,
/// else into `objects`.
pub open spec fn spec_classify_free(m: ArgsModel, t: Seq<char>) -> ArgsModel {
    if spec_is_source_name(t) {
        ArgsModel { sources: m.sources.push(t), ..m }
    } else {
        ArgsModel { objects: m.objects.push(t), ..m }
    }
}

/// The full catalog of driver flags, in declaration order.
#[verifier::opaque]
pub open spec fn spec_driver_flags() -> Seq<FlagDeclModel> {
    seq![
        FlagDeclModel {
            long_name: None,
            short_name: Some("pie"@),
            supports_negation: true,
            field: FlagField::Pie,
        },
        FlagDeclModel {
            long_name: Some("shared"@),
            short_name: Some("shared"@),
            supports_negation: false,
            field: FlagField::Shared,
        },
        FlagDeclModel {
            long_name: Some("static"@),
            short_name: Some("static"@),
            supports_negation: false,
            field: FlagField::StaticExe,
        },
        FlagDeclModel {
            long_name: None,
            short_name: Some("static-pie"@),
            supports_negation: false,
            field: FlagField::StaticPie,
        },
        FlagDeclModel {
            long_name: Some("pthread"@),
            short_name: Some("pthread"@),
            supports_negation: true,
            field: FlagField::Pthread,
        },
        FlagDeclModel {
            long_name: None,
            short_name: Some("nodefaultlibs"@),
            supports_negation: false,
            field: FlagField::Nodefaultlibs,
        },
        FlagDeclModel {
            long_name: Some("nostartfiles"@),
            short_name: None,
            supports_negation: false,
            field: FlagField::Nostartfiles,
        },
        FlagDeclModel {
            long_name: Some("nostdlib"@),
            short_name: None,
            supports_negation: false,
            field: FlagField::Nostdlib,
        },
        FlagDeclModel {
            long_name: Some("coverage"@),
            short_name: Some("coverage"@),
            supports_negation: false,
            field: FlagField::Coverage,
        },
        FlagDeclModel {
            long_name: Some("profile"@),
            short_name: Some("pg"@),
            supports_negation: false,
            field: FlagField::Profile,
        },
        FlagDeclModel {
            long_name: None,
            short_name: Some("c"@),
            supports_negation: false,
            field: FlagField::DontLink,
        },
        FlagDeclModel {
            long_name: None,
            short_name: Some("S"@),
            supports_negation: false,
            field: FlagField::DontAssemble,
        },
        FlagDeclModel {
            long_name: Some("help"@),
            short_name: None,
            supports_negation: false,
            field: FlagField::Help,
        },
    ]
}

/// The full catalog of driver value arguments, in declaration order; the
/// order decides greedy short-prefix matching.
#[verifier::opaque]
pub open spec fn spec_driver_value_args() -> Seq<ArgDeclModel> {
    seq![
        ArgDeclModel {
            long_name: None,
            short_name: Some("o"@),
            separator: None,
            unstripped: false,
            target: ArgTarget::Single(SingleField::Out),
        },
        ArgDeclModel {
            long_name: None,
            short_name: Some("x"@),
            separator: None,
            unstripped: false,
            target: ArgTarget::Single(SingleField::Language),
        },
        ArgDeclModel {
            long_name: None,
            short_name: Some("B"@),
            separator: None,
            unstripped: false,
            target: ArgTarget::Multi(MultiField::CompilerBArgs),
        },
        ArgDeclModel {
            long_name: None,
            short_name: Some("l"@),
            separator: None,
            unstripped: false,
            target: ArgTarget::Multi(MultiField::AdditionalLibs),
        },
        ArgDeclModel {
            long_name: None,
            short_name: Some("L"@),
            separator: None,
            unstripped: false,
            target: ArgTarget::Multi(MultiField::AdditionalSearchPaths),
        },
        ArgDeclModel {
            long_name: Some("target"@),
            short_name: Some("target"@),
            separator: None,
            unstripped: false,
            target: ArgTarget::Single(SingleField::Target),
        },
        ArgDeclModel {
            long_name: Some("sysroot"@),
            short_name: None,
            separator: None,
            unstripped: false,
            target: ArgTarget::Single(SingleField::Sysroot),
        },
        ArgDeclModel {
            long_name: None,
            short_name: Some("T"@),
            separator: None,
            unstripped: false,
            target: ArgTarget::Multi(MultiField::Scripts),
        },
        ArgDeclModel {
            long_name: None,
            short_name: Some("Wl"@),
            separator: Some(','),
            unstripped: false,
            target: ArgTarget::Multi(MultiField::LinkerArgs),
        },
        ArgDeclModel {
            long_name: None,
            short_name: Some("Xlinker"@),
            separator: None,
            unstripped: false,
            target: ArgTarget::Multi(MultiField::LinkerArgs),
        },
        ArgDeclModel {
            long_name: None,
            short_name: Some("z"@),
            separator: None,
            unstripped: true,
            target: ArgTarget::Multi(MultiField::LinkerArgs),
        },
    ]
}

/// Registers the whole driver catalog into a fresh parser.
pub fn setup_parser() -> (r: Result<ArgParser, DeclError>)
    ensures
        r is Ok,
        r matches Ok(p) ==> flag_decls_view(p.flags@) == spec_driver_flags() && arg_decls_view(
            p.value_args@,
        ) == spec_driver_value_args() && p.args@ == spec_default_args() && p.unknown_args@
            == Seq::<String>::empty(),
{
    let mut parser = ArgParser::new();

    ArgParser::declare_flag().short("pie").with_negation(true).bind(FlagField::Pie).build(
        &mut parser,
    )?;
    ArgParser::declare_flag().long("shared").short("shared").bind(FlagField::Shared).build(
        &mut parser,
    )?;
    ArgParser::declare_flag().long("static").short("static").bind(FlagField::StaticExe).build(
        &mut parser,
    )?;
    ArgParser::declare_flag().short("static-pie").bind(FlagField::StaticPie).build(&mut parser)?;
    ArgParser::declare_flag().long("pthread").short("pthread").with_negation(true).bind(
        FlagField::Pthread,
    ).build(&mut parser)?;
    ArgParser::declare_flag().short("nodefaultlibs").bind(FlagField::Nodefaultlibs).build(
        &mut parser,
    )?;
    ArgParser::declare_flag().long("nostartfiles").bind(FlagField::Nostartfiles).build(
        &mut parser,
    )?;
    ArgParser::declare_flag().long("nostdlib").bind(FlagField::Nostdlib).build(&mut parser)?;
    ArgParser::declare_flag().long("coverage").short("coverage").bind(FlagField::Coverage).build(
        &mut parser,
    )?;
    ArgParser::declare_flag().long("profile").short("pg").bind(FlagField::Profile).build(
        &mut parser,
    )?;
    ArgParser::declare_flag().short("c").bind(FlagField::DontLink).build(&mut parser)?;
    ArgParser::declare_flag().short("S").bind(FlagField::DontAssemble).build(&mut parser)?;
    ArgParser::declare_flag().long("help").bind(FlagField::Help).build(&mut parser)?;

    ArgParser::declare_arg().short("o").bind(ArgTarget::Single(SingleField::Out)).build(
        &mut parser,
    )?;
    ArgParser::declare_arg().short("x").bind(ArgTarget::Single(SingleField::Language)).build(
        &mut parser,
    )?;
    ArgParser::declare_arg().short("B").bind(ArgTarget::Multi(MultiField::CompilerBArgs)).build(
        &mut parser,
    )?;
    ArgParser::declare_arg().short("l").bind(ArgTarget::Multi(MultiField::AdditionalLibs)).build(
        &mut parser,
    )?;
    ArgParser::declare_arg().short("L").bind(
        ArgTarget::Multi(MultiField::AdditionalSearchPaths),
    ).build(&mut parser)?;
    ArgParser::declare_arg().short("target").long("target").bind(
        ArgTarget::Single(SingleField::Target),
    ).build(&mut parser)?;
    ArgParser::declare_arg().long("sysroot").bind(ArgTarget::Single(SingleField::Sysroot)).build(
        &mut parser,
    )?;
    ArgParser::declare_arg().short("T").bind(ArgTarget::Multi(MultiField::Scripts)).build(
        &mut parser,
    )?;
    ArgParser::declare_arg().short("Wl").with_separator(',').bind(
        ArgTarget::Multi(MultiField::LinkerArgs),
    ).build(&mut parser)?;
    ArgParser::declare_arg().short("Xlinker").bind(ArgTarget::Multi(MultiField::LinkerArgs)).build(
        &mut parser,
    )?;
    ArgParser::declare_arg().short("z").bind(ArgTarget::Multi(MultiField::LinkerArgs)).unstripped()
        .build(&mut parser)?;

    proof {
        reveal(spec_driver_flags);
        reveal(spec_driver_value_args);
        assert(flag_decls_view(parser.flags@) =~= spec_driver_flags());
        assert(arg_decls_view(parser.value_args@) =~= spec_driver_value_args());
    }
    Ok(parser)
}

/// Why a whole driver invocation was rejected.
#[derive(Debug)]
pub enum DriverError {
    /// A value argument with no token left to supply its value.
    Parse(ParseError),
    /// An explicit target triple that names no supported target.
    Triple(TripleError),
}

impl DriverError {
    /// The full report for the caller: the fixed text of the failure with
    /// the offending token or triple behind it.
    pub fn message(&self) -> (r: String)
        ensures
            r@ == (match self {
                DriverError::Parse(e) => "unexpected end of arguments after: "@ + e.token@,
                DriverError::Triple(t) => crate::arch::spec_triple_error_prefix(t.kind)
                    + t.input@,
            }),
    {
        match self {
            DriverError::Parse(e) => e.message(),
            DriverError::Triple(e) => e.message(),
        }
    }
}

/// The ideal value of a rejected invocation's error.
pub enum DriverErrorSpec {
    MissingValue(Seq<char>),
    Triple(TripleErrorKind, Seq<char>),
}

/// The mathematical value of a `DriverError`.
pub open spec fn spec_driver_error(d: DriverError) -> DriverErrorSpec {
    match d {
        DriverError::Parse(p) => DriverErrorSpec::MissingValue(p.token@),
        DriverError::Triple(t) => DriverErrorSpec::Triple(t.kind, t.input@),
    }
}

/// The derived mode: `-S` or `-c` force a pure compile; else any source
/// forces compile-and-link; else any object forces a pure link.
pub open spec fn spec_mode(m: ArgsModel) -> Mode {
    if m.toggles.dont_assemble || m.toggles.dont_link {
        Mode::CompileOnly
    } else if m.sources.len() > 0 {
        Mode::CompileAndLink
    } else if m.objects.len() > 0 {
        Mode::LinkOnly
    } else {
        Mode::NoWork
    }
}

/// Finalizing a freshly parsed record: the output kind, the architecture
/// (an explicit `target` is authoritative, else the caller's inferred one,
/// else the default), the output path, the mode and the unknown bucket.
pub open spec fn spec_finalize(m: ArgsModel, unknown: Seq<Seq<char>>, host: Option<Arch>) -> Result<
    ArgsModel,
    TripleErrorKind,
> {
    let resolved = match m.singles.target {
        Some(t) => spec_target_arch(t),
        None => Ok(
            match host {
                Some(a) => a,
                None => m.arch,
            },
        ),
    };
    match resolved {
        Err(k) => Err(k),
        Ok(a) => Ok(
            ArgsModel {
                output_kind: spec_output_kind(
                    m.toggles.static_pie,
                    m.toggles.static_exe,
                    m.toggles.shared,
                    m.toggles.pie,
                ),
                arch: a,
                output: match m.singles.out {
                    Some(o) => o,
                    None => m.output,
                },
                mode: spec_mode(m),
                unknown_args: unknown,
                ..m
            },
        ),
    }
}

/// What `Args::parse_args` yields on a token stream: one parse pass from the
/// default record over the driver catalog, then finalization.
pub open spec fn spec_parse_args(tokens: Seq<Seq<char>>, host: Option<Arch>) -> Result<
    ArgsModel,
    DriverErrorSpec,
> {
    match spec_parse_tokens(
        spec_driver_flags(),
        spec_driver_value_args(),
        spec_default_args(),
        Seq::empty(),
        tokens,
    ) {
        Err(t) => Err(DriverErrorSpec::MissingValue(t)),
        Ok(mu) => match spec_finalize(mu.0, mu.1, host) {
            Ok(m2) => Ok(m2),
            Err(k) => Err(
                DriverErrorSpec::Triple(
                    k,
                    match mu.0.singles.target {
                        Some(t) => t,
                        None => Seq::empty(),
                    },
                ),
            ),
        },
    }
}

impl Args {
    /// The derived mode of the record, per the fixed rule.
    pub fn derive_mode(&self) -> (r: Mode)
        ensures
            r == spec_mode(self@),
    {
        if self.dont_assemble || self.dont_link {
            Mode::CompileOnly
        } else if self.sources.len() > 0 {
            Mode::CompileAndLink
        } else if self.objects.len() > 0 {
            Mode::LinkOnly
        } else {
            Mode::NoWork
        }
    }

    /// An explicit `target` value is authoritative; absent one, the
    /// architecture the caller inferred applies, and absent both, the record
    /// keeps its default.
    fn resolve_arch(&self, host: Option<Arch>) -> (r: Result<Arch, TripleError>)
        ensures
            ({
                let resolved = match self@.singles.target {
                    Some(t) => spec_target_arch(t),
                    None => Ok(
                        match host {
                            Some(a) => a,
                            None => self@.arch,
                        },
                    ),
                };
                match r {
                    Ok(a) => resolved == Ok::<Arch, TripleErrorKind>(a),
                    Err(e) => resolved == Err::<Arch, TripleErrorKind>(e.kind)
                        && self@.singles.target == Some(e.input@),
                }
            }),
    {
        match &self.target {
            Some(t) => crate::arch::target_arch(t.as_str()),
            None => Ok(
                match host {
                    Some(a) => a,
                    None => self.arch,
                },
            ),
        }
    }

    /// The output path: what `-o` supplied, or the default.
    fn resolved_output(&self) -> (r: String)
        ensures
            r@ == (match self@.singles.out {
                Some(o) => o,
                None => self@.output,
            }),
    {
        match &self.out {
            Some(o) => o.clone(),
            None => self.output.clone(),
        }
    }

    /// One full driver parse: a fresh parser over the catalog, one pass over
    /// `tokens`, then the derived fields. An architecture inferred by the
    /// caller from the invoked binary name is used only when no explicit
    /// `target` was parsed.
    #[verifier::rlimit(100)]
    pub fn parse_args(tokens: &Vec<String>, target: Option<Arch>) -> (r: Result<Args, DriverError>)
        ensures
            match spec_parse_args(strs(tokens@), target) {
                Ok(m) => r matches Ok(a) && a@ == m,
                Err(e) => r matches Err(d) && spec_driver_error(d) == e,
            },
    {
        let mut parser = match setup_parser() {
            Ok(p) => p,
            Err(_) => vstd::pervasive::unreached(),
        };
        proof {
            assert(strs(parser.unknown_args@) =~= Seq::<Seq<char>>::empty());
        }
        match parser.parse(tokens) {
            Ok(()) => {},
            Err(e) => {
                return Err(DriverError::Parse(e));
            },
        }
        let mut args = parser.args;
        let kind_v = OutputKind::from_args(&args);
        let arch_v = match args.resolve_arch(target) {
            Ok(a) => a,
            Err(e) => {
                return Err(DriverError::Triple(e));
            },
        };
        let out_v = args.resolved_output();
        let mode_v = args.derive_mode();
        args.output_kind = kind_v;
        args.arch = arch_v;
        args.output = out_v;
        args.mode = mode_v;
        args.unknown_args = parser.unknown_args;
        proof {
            let parsed = spec_parse_tokens(
                spec_driver_flags(),
                spec_driver_value_args(),
                spec_default_args(),
                Seq::<Seq<char>>::empty(),
                strs(tokens@),
            );
            assert(args@ =~= spec_finalize(parsed->Ok_0.0, parsed->Ok_0.1, target)->Ok_0);
        }
        Ok(args)
    }
}

/// What the invoked binary name decides: nothing when the driver was run
/// under its own name; otherwise C++ mode exactly when the name ends in
/// `++`, and, when a `-` separates a leading triple from the tool name, the
/// architecture of that triple, which must then be supported.
pub open spec fn spec_invocation_context(exe: Seq<char>, bin: Seq<char>) -> Result<
    (bool, Option<Arch>),
    TripleErrorKind,
> {
    if exe == bin {
        Ok((false, None))
    } else {
        let cpp = crate::text::is_suffix_of("++"@, exe);
        match crate::text::find_last_char_in(exe, '-') {
            Some(i) => match spec_target_arch(exe.subrange(0, i)) {
                Ok(a) => Ok((cpp, Some(a))),
                Err(k) => Err(k),
            },
            None => Ok((cpp, None)),
        }
    }
}

/// Resolves what the name the driver was invoked under asks for: C++ mode,
/// and the architecture of a target-prefixed tool name.
pub fn invocation_context(executable_name: &str, binary_name: &str) -> (r: Result<
    (bool, Option<Arch>),
    TripleError,
>)
    ensures
        match r {
            Ok(p) => spec_invocation_context(executable_name@, binary_name@) == Ok::<
                (bool, Option<Arch>),
                TripleErrorKind,
            >(p),
            Err(e) => spec_invocation_context(executable_name@, binary_name@) == Err::<
                (bool, Option<Arch>),
                TripleErrorKind,
            >(e.kind),
        },
{
    if crate::text::str_eq(executable_name, binary_name) {
        return Ok((false, None));
    }
    let cpp = crate::text::str_ends_with(executable_name, "++");
    match crate::text::str_find_last_char(executable_name, '-') {
        Some(i) => {
            proof {
                crate::text::lemma_find_last_char_in(executable_name@, '-');
            }
            let triple = executable_name.substring_char(0, i);
            match crate::arch::target_arch(triple) {
                Ok(a) => Ok((cpp, Some(a))),
                Err(e) => Err(e),
            }
        },
        None => Ok((cpp, None)),
    }
}

/// Law: the resolved output kind follows the strict priority
/// `static_pie` over `static_exe` over `shared` over `pie`; for every
/// combination of the four toggles the first matching rule decides, and a
/// later flag never downgrades an earlier one.
pub proof fn law_output_kind_priority(static_pie: bool, static_exe: bool, shared: bool, pie: bool)
    ensures
        static_pie ==> spec_output_kind(static_pie, static_exe, shared, pie)
            == OutputKind::StaticPie,
        !static_pie && static_exe ==> spec_output_kind(static_pie, static_exe, shared, pie)
            == OutputKind::Static,
        !static_pie && !static_exe && shared ==> spec_output_kind(
            static_pie,
            static_exe,
            shared,
            pie,
        ) == OutputKind::SharedObject,
        !static_pie && !static_exe && !shared && pie ==> spec_output_kind(
            static_pie,
            static_exe,
            shared,
            pie,
        ) == OutputKind::DynamicPie,
        !static_pie && !static_exe && !shared && !pie ==> spec_output_kind(
            static_pie,
            static_exe,
            shared,
            pie,
        ) == OutputKind::Dynamic,
{
}

/// Law: the mode derivation. No sources and no objects leave the mode at
/// `CompileOnly` or `NoWork` per the `-c`/`-S` rule; any source present
/// forces `CompileAndLink`; objects alone force `LinkOnly`.
pub proof fn law_mode_derivation(m: ArgsModel)
    ensures
        (m.toggles.dont_assemble || m.toggles.dont_link) ==> spec_mode(m) == Mode::CompileOnly,
        !(m.toggles.dont_assemble || m.toggles.dont_link) && m.sources.len() > 0 ==> spec_mode(m)
            == Mode::CompileAndLink,
        !(m.toggles.dont_assemble || m.toggles.dont_link) && m.sources.len() == 0
            && m.objects.len() > 0 ==> spec_mode(m) == Mode::LinkOnly,
        !(m.toggles.dont_assemble || m.toggles.dont_link) && m.sources.len() == 0
            && m.objects.len() == 0 ==> spec_mode(m) == Mode::NoWork,
{
}

} // verus!

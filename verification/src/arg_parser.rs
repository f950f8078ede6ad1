//! The declarative argument-parsing engine: flag and value-argument
//! declarations are registered through builders, each bound to a field of the
//! driver argument record, and one pass over the token stream populates the
//! record. The whole pass is specified by `spec_parse_tokens`, a pure
//! function over the token sequence.

use vstd::prelude::*;
use vstd::string::*;
use crate::args::{
    Args, ArgsModel, FlagField, MultiField, SingleField, spec_append_multi, spec_classify_free,
    spec_default_args, spec_set_flag, spec_set_single, strs, opt_str,
};
use crate::text::{find_char_in, is_prefix_of, split_nonempty_parts};

verus! {

/// Which slot of the record a value argument routes into, and how repeats
/// combine there.
#[derive(Debug, PartialEq, Eq, Structural, Clone, Copy)]
pub enum ArgTarget {
    Single(SingleField),
    Multi(MultiField),
}

/// A registered flag: one or both names, whether `no-<name>` is accepted,
/// and the toggle it binds to.
#[derive(Debug)]
pub struct FlagDecl {
    pub long_name: Option<String>,
    pub short_name: Option<String>,
    pub supports_negation: bool,
    pub field: FlagField,
}

#[verifier::ext_equal]
pub struct FlagDeclModel {
    pub long_name: Option<Seq<char>>,
    pub short_name: Option<Seq<char>>,
    pub supports_negation: bool,
    pub field: FlagField,
}

impl View for FlagDecl {
    type V = FlagDeclModel;

    open spec fn view(&self) -> FlagDeclModel {
        FlagDeclModel {
            long_name: opt_str(self.long_name),
            short_name: opt_str(self.short_name),
            supports_negation: self.supports_negation,
            field: self.field,
        }
    }
}

/// A registered value argument: one or both names, an optional separator for
/// splitting one token into several values, whether the spelled-out option
/// name itself is kept in front of its values, and the slot it binds to.
#[derive(Debug)]
pub struct ArgDecl {
    pub long_name: Option<String>,
    pub short_name: Option<String>,
    pub separator: Option<char>,
    pub unstripped: bool,
    pub target: ArgTarget,
}

#[verifier::ext_equal]
pub struct ArgDeclModel {
    pub long_name: Option<Seq<char>>,
    pub short_name: Option<Seq<char>>,
    pub separator: Option<char>,
    pub unstripped: bool,
    pub target: ArgTarget,
}

impl View for ArgDecl {
    type V = ArgDeclModel;

    open spec fn view(&self) -> ArgDeclModel {
        ArgDeclModel {
            long_name: opt_str(self.long_name),
            short_name: opt_str(self.short_name),
            separator: self.separator,
            unstripped: self.unstripped,
            target: self.target,
        }
    }
}

/// The models of a list of flag declarations.
pub open spec fn flag_decls_view(v: Seq<FlagDecl>) -> Seq<FlagDeclModel> {
    Seq::new(v.len(), |i: int| v[i]@)
}

/// The models of a list of value-argument declarations.
pub open spec fn arg_decls_view(v: Seq<ArgDecl>) -> Seq<ArgDeclModel> {
    Seq::new(v.len(), |i: int| v[i]@)
}

/// A configuration error raised when a declaration is built.
#[derive(Debug, PartialEq, Eq, Structural, Clone, Copy)]
pub enum DeclError {
    /// The declaration was never bound to a field of the record.
    MissingBinding,
    /// The declaration has neither a long nor a short name.
    MissingName,
}

impl DeclError {
    pub fn message(&self) -> (r: String)
        ensures
            self == DeclError::MissingBinding ==> r@ == "a field must be bound to the declaration"@,
            self == DeclError::MissingName ==> r@ == "the declaration has no name"@,
    {
        match self {
            DeclError::MissingBinding => String::from_str("a field must be bound to the declaration"),
            DeclError::MissingName => String::from_str("the declaration has no name"),
        }
    }
}

/// The parser: the declaration tables, the record being populated, and the
/// bucket of prefixed tokens no declaration matched.
#[derive(Debug)]
pub struct ArgParser {
    pub flags: Vec<FlagDecl>,
    pub value_args: Vec<ArgDecl>,
    pub args: Args,
    pub unknown_args: Vec<String>,
}

impl ArgParser {
    /// A parser with no declarations and a default record.
    pub fn new() -> (r: Self)
        ensures
            r.flags@ == Seq::<FlagDecl>::empty(),
            r.value_args@ == Seq::<ArgDecl>::empty(),
            r.args@ == spec_default_args(),
            r.unknown_args@ == Seq::<String>::empty(),
    {
        ArgParser {
            flags: Vec::new(),
            value_args: Vec::new(),
            args: Args::default(),
            unknown_args: Vec::new(),
        }
    }

    /// Starts the declaration of a flag.
    pub fn declare_flag() -> (r: FlagBuilder)
        ensures
            r@ == (FlagBuilderModel {
                long_name: None,
                short_name: None,
                supports_negation: false,
                field: None,
            }),
    {
        FlagBuilder { long_name: None, short_name: None, supports_negation: false, field: None }
    }

    /// Starts the declaration of a value argument.
    pub fn declare_arg() -> (r: ArgBuilder)
        ensures
            r@ == (ArgBuilderModel {
                long_name: None,
                short_name: None,
                separator: None,
                unstripped: false,
                target: None,
            }),
    {
        ArgBuilder {
            long_name: None,
            short_name: None,
            separator: None,
            unstripped: false,
            target: None,
        }
    }
}

/// A flag declaration in the making.
pub struct FlagBuilder {
    pub long_name: Option<String>,
    pub short_name: Option<String>,
    pub supports_negation: bool,
    pub field: Option<FlagField>,
}

#[verifier::ext_equal]
pub struct FlagBuilderModel {
    pub long_name: Option<Seq<char>>,
    pub short_name: Option<Seq<char>>,
    pub supports_negation: bool,
    pub field: Option<FlagField>,
}

impl View for FlagBuilder {
    type V = FlagBuilderModel;

    open spec fn view(&self) -> FlagBuilderModel {
        FlagBuilderModel {
            long_name: opt_str(self.long_name),
            short_name: opt_str(self.short_name),
            supports_negation: self.supports_negation,
            field: self.field,
        }
    }
}

/// The declaration a finished flag builder registers: nothing when no field
/// was bound or no name was given.
pub open spec fn spec_flag_build(b: FlagBuilderModel) -> Result<FlagDeclModel, DeclError> {
    match b.field {
        None => Err(DeclError::MissingBinding),
        Some(f) => if b.long_name is None && b.short_name is None {
            Err(DeclError::MissingName)
        } else {
            Ok(
                FlagDeclModel {
                    long_name: b.long_name,
                    short_name: b.short_name,
                    supports_negation: b.supports_negation,
                    field: f,
                },
            )
        },
    }
}

impl FlagBuilder {
    #[must_use]
    pub fn short(self, name: &str) -> (r: Self)
        ensures
            r@ == (FlagBuilderModel { short_name: Some(name@), ..self@ }),
    {
        FlagBuilder { short_name: Some(name.to_owned()), ..self }
    }

    #[must_use]
    pub fn long(self, name: &str) -> (r: Self)
        ensures
            r@ == (FlagBuilderModel { long_name: Some(name@), ..self@ }),
    {
        FlagBuilder { long_name: Some(name.to_owned()), ..self }
    }

    #[must_use]
    pub fn with_negation(self, supports_negation: bool) -> (r: Self)
        ensures
            r@ == (FlagBuilderModel { supports_negation, ..self@ }),
    {
        FlagBuilder { supports_negation, ..self }
    }

    #[must_use]
    pub fn bind(self, field: FlagField) -> (r: Self)
        ensures
            r@ == (FlagBuilderModel { field: Some(field), ..self@ }),
    {
        FlagBuilder { field: Some(field), ..self }
    }

    /// Registers the flag with `parser`; fails when no field was bound or no
    /// name was given, before any parsing can happen.
    pub fn build(self, parser: &mut ArgParser) -> (r: Result<(), DeclError>)
        ensures
            final(parser).value_args == old(parser).value_args,
            final(parser).args == old(parser).args,
            final(parser).unknown_args == old(parser).unknown_args,
            match spec_flag_build(self@) {
                Ok(d) => r is Ok && flag_decls_view(final(parser).flags@) == flag_decls_view(
                    old(parser).flags@,
                ).push(d),
                Err(e) => r == Err::<(), DeclError>(e) && final(parser).flags == old(parser).flags,
            },
    {
        let field = match self.field {
            Some(f) => f,
            None => {
                return Err(DeclError::MissingBinding);
            },
        };
        if self.long_name.is_none() && self.short_name.is_none() {
            return Err(DeclError::MissingName);
        }
        let decl = FlagDecl {
            long_name: self.long_name,
            short_name: self.short_name,
            supports_negation: self.supports_negation,
            field,
        };
        let ghost dm = decl@;
        parser.flags.push(decl);
        proof {
            assert(flag_decls_view(parser.flags@) =~= flag_decls_view(old(parser).flags@).push(dm));
        }
        Ok(())
    }
}

/// A value-argument declaration in the making.
pub struct ArgBuilder {
    pub long_name: Option<String>,
    pub short_name: Option<String>,
    pub separator: Option<char>,
    pub unstripped: bool,
    pub target: Option<ArgTarget>,
}

#[verifier::ext_equal]
pub struct ArgBuilderModel {
    pub long_name: Option<Seq<char>>,
    pub short_name: Option<Seq<char>>,
    pub separator: Option<char>,
    pub unstripped: bool,
    pub target: Option<ArgTarget>,
}

impl View for ArgBuilder {
    type V = ArgBuilderModel;

    open spec fn view(&self) -> ArgBuilderModel {
        ArgBuilderModel {
            long_name: opt_str(self.long_name),
            short_name: opt_str(self.short_name),
            separator: self.separator,
            unstripped: self.unstripped,
            target: self.target,
        }
    }
}

/// The declaration a finished argument builder registers: nothing when no
/// slot was bound or no name was given.
pub open spec fn spec_arg_build(b: ArgBuilderModel) -> Result<ArgDeclModel, DeclError> {
    match b.target {
        None => Err(DeclError::MissingBinding),
        Some(t) => if b.long_name is None && b.short_name is None {
            Err(DeclError::MissingName)
        } else {
            Ok(
                ArgDeclModel {
                    long_name: b.long_name,
                    short_name: b.short_name,
                    separator: b.separator,
                    unstripped: b.unstripped,
                    target: t,
                },
            )
        },
    }
}

impl ArgBuilder {
    #[must_use]
    pub fn short(self, name: &str) -> (r: Self)
        ensures
            r@ == (ArgBuilderModel { short_name: Some(name@), ..self@ }),
    {
        ArgBuilder { short_name: Some(name.to_owned()), ..self }
    }

    #[must_use]
    pub fn long(self, name: &str) -> (r: Self)
        ensures
            r@ == (ArgBuilderModel { long_name: Some(name@), ..self@ }),
    {
        ArgBuilder { long_name: Some(name.to_owned()), ..self }
    }

    #[must_use]
    pub fn with_separator(self, separator: char) -> (r: Self)
        ensures
            r@ == (ArgBuilderModel { separator: Some(separator), ..self@ }),
    {
        ArgBuilder { separator: Some(separator), ..self }
    }

    /// Keeps the spelled-out option name itself in front of the values it
    /// routes, as `-z` does on a linker command line.
    #[must_use]
    pub fn unstripped(self) -> (r: Self)
        ensures
            r@ == (ArgBuilderModel { unstripped: true, ..self@ }),
    {
        ArgBuilder { unstripped: true, ..self }
    }

    #[must_use]
    pub fn bind(self, target: ArgTarget) -> (r: Self)
        ensures
            r@ == (ArgBuilderModel { target: Some(target), ..self@ }),
    {
        ArgBuilder { target: Some(target), ..self }
    }

    /// Registers the value argument with `parser`; fails when no slot was
    /// bound or no name was given, before any parsing can happen.
    pub fn build(self, parser: &mut ArgParser) -> (r: Result<(), DeclError>)
        ensures
            final(parser).flags == old(parser).flags,
            final(parser).args == old(parser).args,
            final(parser).unknown_args == old(parser).unknown_args,
            match spec_arg_build(self@) {
                Ok(d) => r is Ok && arg_decls_view(final(parser).value_args@) == arg_decls_view(
                    old(parser).value_args@,
                ).push(d),
                Err(e) => r == Err::<(), DeclError>(e) && final(parser).value_args == old(
                    parser,
                ).value_args,
            },
    {
        let target = match self.target {
            Some(t) => t,
            None => {
                return Err(DeclError::MissingBinding);
            },
        };
        if self.long_name.is_none() && self.short_name.is_none() {
            return Err(DeclError::MissingName);
        }
        let decl = ArgDecl {
            long_name: self.long_name,
            short_name: self.short_name,
            separator: self.separator,
            unstripped: self.unstripped,
            target,
        };
        let ghost dm = decl@;
        parser.value_args.push(decl);
        proof {
            assert(arg_decls_view(parser.value_args@) =~= arg_decls_view(
                old(parser).value_args@,
            ).push(dm));
        }
        Ok(())
    }
}

/// The remainder of `t` past its option prefix: two dashes mark a long
/// token, one dash a short one, anything else is a free token.
pub open spec fn strip_dashes(t: Seq<char>) -> Option<(Seq<char>, bool)> {
    if t.len() >= 2 && t[0] == '-' && t[1] == '-' {
        Some((t.subrange(2, t.len() as int), true))
    } else if t.len() >= 1 && t[0] == '-' {
        Some((t.subrange(1, t.len() as int), false))
    } else {
        None
    }
}

/// The remainder of `s` past a `no-` negation prefix.
pub open spec fn strip_negation(s: Seq<char>) -> Option<Seq<char>> {
    if s.len() >= 3 && s[0] == 'n' && s[1] == 'o' && s[2] == '-' {
        Some(s.subrange(3, s.len() as int))
    } else {
        None
    }
}

/// The name a flag declaration carries on the given side.
pub open spec fn flag_decl_name(d: FlagDeclModel, is_long: bool) -> Option<Seq<char>> {
    if is_long {
        d.long_name
    } else {
        d.short_name
    }
}

/// The first flag declaration whose name on the given side is `name`.
pub open spec fn find_flag(decls: Seq<FlagDeclModel>, name: Seq<char>, is_long: bool) -> Option<
    FlagDeclModel,
>
    decreases decls.len(),
{
    if decls.len() == 0 {
        None
    } else if flag_decl_name(decls[0], is_long) == Some(name) {
        Some(decls[0])
    } else {
        find_flag(decls.subrange(1, decls.len() as int), name, is_long)
    }
}

proof fn lemma_find_flag_none(decls: Seq<FlagDeclModel>, name: Seq<char>, is_long: bool)
    requires
        forall|j: int| 0 <= j < decls.len() ==> flag_decl_name(#[trigger] decls[j], is_long)
            != Some(name),
    ensures
        find_flag(decls, name, is_long) is None,
    decreases decls.len(),
{
    if decls.len() > 0 {
        let t = decls.subrange(1, decls.len() as int);
        assert(forall|j: int| 0 <= j < t.len() ==> t[j] == decls[j + 1]);
        lemma_find_flag_none(t, name, is_long);
    }
}

proof fn lemma_find_flag_at(decls: Seq<FlagDeclModel>, name: Seq<char>, is_long: bool, i: int)
    requires
        0 <= i < decls.len(),
        flag_decl_name(decls[i], is_long) == Some(name),
        forall|j: int| 0 <= j < i ==> flag_decl_name(#[trigger] decls[j], is_long) != Some(name),
    ensures
        find_flag(decls, name, is_long) == Some(decls[i]),
    decreases decls.len(),
{
    if i > 0 {
        let t = decls.subrange(1, decls.len() as int);
        assert(forall|j: int| 0 <= j < t.len() ==> t[j] == decls[j + 1]);
        lemma_find_flag_at(t, name, is_long, i - 1);
    }
}

/// The lookup-and-set step shared by both spellings of a flag token.
pub open spec fn flag_hit(
    flags: Seq<FlagDeclModel>,
    m: ArgsModel,
    name: Seq<char>,
    value: bool,
    is_long: bool,
) -> Option<ArgsModel> {
    match find_flag(flags, name, is_long) {
        Some(d) => if value || d.supports_negation {
            Some(spec_set_flag(m, d.field, value))
        } else {
            None
        },
        None => None,
    }
}

/// One token, tried as a flag: `Some` is the record after the matched toggle
/// is set, `None` means no flag matched and the token falls through.
pub open spec fn spec_parse_flag(
    flags: Seq<FlagDeclModel>,
    m: ArgsModel,
    t: Seq<char>,
) -> Option<ArgsModel> {
    match strip_dashes(t) {
        None => None,
        Some((stripped, is_long)) => match strip_negation(stripped) {
            Some(n) => flag_hit(flags, m, n, false, is_long),
            None => flag_hit(flags, m, stripped, true, is_long),
        },
    }
}

fn flag_decl_matches(d: &FlagDecl, name: &str, is_long: bool) -> (r: bool)
    ensures
        r == (flag_decl_name(d@, is_long) == Some(name@)),
{
    let slot: &Option<String> = if is_long {
        &d.long_name
    } else {
        &d.short_name
    };
    match slot {
        Some(s) => crate::text::str_eq(s.as_str(), name),
        None => false,
    }
}

impl ArgParser {
    fn find_flag_index(&self, name: &str, is_long: bool) -> (r: Option<usize>)
        ensures
            match r {
                Some(i) => i < self.flags@.len() && find_flag(
                    flag_decls_view(self.flags@),
                    name@,
                    is_long,
                ) == Some(self.flags@[i as int]@),
                None => find_flag(flag_decls_view(self.flags@), name@, is_long) is None,
            },
    {
        let ghost decls = flag_decls_view(self.flags@);
        let n = self.flags.len();
        let mut i: usize = 0;
        while i < n
            invariant
                n == self.flags@.len(),
                i <= n,
                decls == flag_decls_view(self.flags@),
                forall|j: int| 0 <= j < i ==> flag_decl_name(#[trigger] decls[j], is_long) != Some(
                    name@,
                ),
            decreases n - i,
        {
            if flag_decl_matches(&self.flags[i], name, is_long) {
                proof {
                    lemma_find_flag_at(decls, name@, is_long, i as int);
                }
                return Some(i);
            }
            i += 1;
        }
        proof {
            lemma_find_flag_none(decls, name@, is_long);
        }
        None
    }

    /// Looks `name` up in the flag table of the given side and, on a hit that
    /// is not a refused negation, sets the bound toggle to `value`.
    fn apply_flag(&mut self, name: &str, value: bool, is_long: bool) -> (r: bool)
        ensures
            final(self).flags == old(self).flags,
            final(self).value_args == old(self).value_args,
            final(self).unknown_args == old(self).unknown_args,
            match flag_hit(flag_decls_view(old(self).flags@), old(self).args@, name@, value, is_long) {
                Some(m) => r && final(self).args@ == m,
                None => !r && final(self).args == old(self).args,
            },
    {
        match self.find_flag_index(name, is_long) {
            Some(i) => {
                let supports_negation = self.flags[i].supports_negation;
                let field = self.flags[i].field;
                if value || supports_negation {
                    self.args.set_flag(field, value);
                    true
                } else {
                    false
                }
            },
            None => false,
        }
    }

    /// Tries `raw_arg` as a flag token; a match sets the bound toggle.
    /// Flags never consume a following token.
    pub fn parse_flag(&mut self, raw_arg: &str) -> (r: bool)
        ensures
            final(self).flags == old(self).flags,
            final(self).value_args == old(self).value_args,
            final(self).unknown_args == old(self).unknown_args,
            match spec_parse_flag(flag_decls_view(old(self).flags@), old(self).args@, raw_arg@) {
                Some(m) => r && final(self).args@ == m,
                None => !r && final(self).args == old(self).args,
            },
    {
        let n = raw_arg.unicode_len();
        let is_long: bool;
        let stripped: &str;
        if n >= 2 && raw_arg.get_char(0) == '-' && raw_arg.get_char(1) == '-' {
            stripped = raw_arg.substring_char(2, n);
            is_long = true;
        } else if n >= 1 && raw_arg.get_char(0) == '-' {
            stripped = raw_arg.substring_char(1, n);
            is_long = false;
        } else {
            return false;
        }
        let sl = stripped.unicode_len();
        if sl >= 3 && stripped.get_char(0) == 'n' && stripped.get_char(1) == 'o'
            && stripped.get_char(2) == '-' {
            let name = stripped.substring_char(3, sl);
            self.apply_flag(name, false, is_long)
        } else {
            self.apply_flag(stripped, true, is_long)
        }
    }
}

/// The name a value-argument declaration carries on the given side.
pub open spec fn arg_decl_name(d: ArgDeclModel, is_long: bool) -> Option<Seq<char>> {
    if is_long {
        d.long_name
    } else {
        d.short_name
    }
}

/// The first value-argument declaration whose name on the given side is
/// `name`.
pub open spec fn find_value_arg(decls: Seq<ArgDeclModel>, name: Seq<char>, is_long: bool) -> Option<
    ArgDeclModel,
>
    decreases decls.len(),
{
    if decls.len() == 0 {
        None
    } else if arg_decl_name(decls[0], is_long) == Some(name) {
        Some(decls[0])
    } else {
        find_value_arg(decls.subrange(1, decls.len() as int), name, is_long)
    }
}

proof fn lemma_find_value_arg_none(decls: Seq<ArgDeclModel>, name: Seq<char>, is_long: bool)
    requires
        forall|j: int| 0 <= j < decls.len() ==> arg_decl_name(#[trigger] decls[j], is_long)
            != Some(name),
    ensures
        find_value_arg(decls, name, is_long) is None,
    decreases decls.len(),
{
    if decls.len() > 0 {
        let t = decls.subrange(1, decls.len() as int);
        assert(forall|j: int| 0 <= j < t.len() ==> t[j] == decls[j + 1]);
        lemma_find_value_arg_none(t, name, is_long);
    }
}

proof fn lemma_find_value_arg_at(decls: Seq<ArgDeclModel>, name: Seq<char>, is_long: bool, i: int)
    requires
        0 <= i < decls.len(),
        arg_decl_name(decls[i], is_long) == Some(name),
        forall|j: int| 0 <= j < i ==> arg_decl_name(#[trigger] decls[j], is_long) != Some(name),
    ensures
        find_value_arg(decls, name, is_long) == Some(decls[i]),
    decreases decls.len(),
{
    if i > 0 {
        let t = decls.subrange(1, decls.len() as int);
        assert(forall|j: int| 0 <= j < t.len() ==> t[j] == decls[j + 1]);
        lemma_find_value_arg_at(t, name, is_long, i - 1);
    }
}

/// Whether the short name of `d` is a prefix of `stripped`.
pub open spec fn prefix_matches(d: ArgDeclModel, stripped: Seq<char>) -> bool {
    match d.short_name {
        Some(k) => is_prefix_of(k, stripped),
        None => false,
    }
}

/// The short name of `d`, where it has one.
pub open spec fn short_of(d: ArgDeclModel) -> Seq<char> {
    match d.short_name {
        Some(k) => k,
        None => Seq::empty(),
    }
}

/// Greedy short-prefix matching: the first declaration whose short name is a
/// prefix of `stripped`, paired with the remainder of `stripped` past that
/// name, which serves as the inline value.
pub open spec fn find_prefix_arg(decls: Seq<ArgDeclModel>, stripped: Seq<char>) -> Option<
    (ArgDeclModel, Seq<char>),
>
    decreases decls.len(),
{
    if decls.len() == 0 {
        None
    } else if prefix_matches(decls[0], stripped) {
        Some(
            (
                decls[0],
                stripped.subrange(short_of(decls[0]).len() as int, stripped.len() as int),
            ),
        )
    } else {
        find_prefix_arg(decls.subrange(1, decls.len() as int), stripped)
    }
}

proof fn lemma_find_prefix_arg_none(decls: Seq<ArgDeclModel>, stripped: Seq<char>)
    requires
        forall|j: int| 0 <= j < decls.len() ==> !prefix_matches(#[trigger] decls[j], stripped),
    ensures
        find_prefix_arg(decls, stripped) is None,
    decreases decls.len(),
{
    if decls.len() > 0 {
        let t = decls.subrange(1, decls.len() as int);
        assert(forall|j: int| 0 <= j < t.len() ==> t[j] == decls[j + 1]);
        lemma_find_prefix_arg_none(t, stripped);
    }
}

proof fn lemma_find_prefix_arg_at(decls: Seq<ArgDeclModel>, stripped: Seq<char>, i: int)
    requires
        0 <= i < decls.len(),
        prefix_matches(decls[i], stripped),
        forall|j: int| 0 <= j < i ==> !prefix_matches(#[trigger] decls[j], stripped),
    ensures
        find_prefix_arg(decls, stripped) == Some(
            (decls[i], stripped.subrange(short_of(decls[i]).len() as int, stripped.len() as int)),
        ),
    decreases decls.len(),
{
    if i > 0 {
        let t = decls.subrange(1, decls.len() as int);
        assert(forall|j: int| 0 <= j < t.len() ==> t[j] == decls[j + 1]);
        lemma_find_prefix_arg_at(t, stripped, i - 1);
    }
}

/// The option name as it was spelled on the command line: the declared name
/// behind its dashes.
pub open spec fn dash_name(d: ArgDeclModel, is_long: bool) -> Seq<char> {
    match arg_decl_name(d, is_long) {
        Some(n) => if is_long {
            seq!['-', '-'] + n
        } else {
            seq!['-'] + n
        },
        None => Seq::empty(),
    }
}

/// Routes a matched value into its bound slot: a single slot is overwritten,
/// a multi slot appends, splitting on the declared separator first and, for
/// an unstripped declaration, keeping the spelled-out option name in front.
pub open spec fn spec_route_value(
    m: ArgsModel,
    target: ArgTarget,
    separator: Option<char>,
    prefix_tok: Option<Seq<char>>,
    value: Seq<char>,
) -> ArgsModel {
    match target {
        ArgTarget::Single(f) => spec_set_single(m, f, value),
        ArgTarget::Multi(f) => {
            let base = match prefix_tok {
                Some(p) => spec_append_multi(m, f, seq![p]),
                None => m,
            };
            match separator {
                Some(c) => spec_append_multi(base, f, split_nonempty_parts(value, c)),
                None => spec_append_multi(base, f, seq![value]),
            }
        },
    }
}

/// What the declaration `d`, matched with `value` on the given side, does to
/// the record.
pub open spec fn spec_apply_value(
    m: ArgsModel,
    d: ArgDeclModel,
    is_long: bool,
    value: Seq<char>,
) -> ArgsModel {
    spec_route_value(
        m,
        d.target,
        d.separator,
        if d.unstripped {
            Some(dash_name(d, is_long))
        } else {
            None
        },
        value,
    )
}

/// How one token fared when tried as a value argument.
#[derive(Debug, PartialEq, Eq, Structural, Clone, Copy)]
pub enum ArgOutcome {
    /// No declaration matched; the token falls through.
    NoMatch,
    /// A declaration matched and its value was inline in the token.
    Matched,
    /// A declaration matched and consumed the following token as its value.
    MatchedNext,
    /// A declaration matched but no following token was there to supply its
    /// value: a hard parse error.
    MissingValue,
}

/// The view of an optional borrowed token.
pub open spec fn opt_ref_str(v: Option<&String>) -> Option<Seq<char>> {
    match v {
        Some(s) => Some(s@),
        None => None,
    }
}

/// One token, tried as a value argument, with `next` the following token:
/// the outcome, and the record after it (unchanged unless a value was
/// routed). A token with an `=` takes its inline value; a bare name takes
/// the next token; a short token may fall back to greedy prefix matching.
pub open spec fn spec_parse_arg(
    decls: Seq<ArgDeclModel>,
    m: ArgsModel,
    t: Seq<char>,
    next: Option<Seq<char>>,
) -> (ArgOutcome, ArgsModel) {
    match strip_dashes(t) {
        None => (ArgOutcome::NoMatch, m),
        Some((stripped, is_long)) => match find_char_in(stripped, '=') {
            Some(i) => {
                let key = stripped.subrange(0, i);
                let val = stripped.subrange(i + 1, stripped.len() as int);
                match find_value_arg(decls, key, is_long) {
                    Some(d) => (ArgOutcome::Matched, spec_apply_value(m, d, is_long, val)),
                    None => (ArgOutcome::NoMatch, m),
                }
            },
            None => match find_value_arg(decls, stripped, is_long) {
                Some(d) => match next {
                    Some(v) => (ArgOutcome::MatchedNext, spec_apply_value(m, d, is_long, v)),
                    None => (ArgOutcome::MissingValue, m),
                },
                None => if !is_long {
                    match find_prefix_arg(decls, stripped) {
                        Some((d, val)) => (
                            ArgOutcome::Matched,
                            spec_apply_value(m, d, false, val),
                        ),
                        None => (ArgOutcome::NoMatch, m),
                    }
                } else {
                    (ArgOutcome::NoMatch, m)
                },
            },
        },
    }
}

impl ArgParser {
    fn find_value_arg_index(&self, name: &str, is_long: bool) -> (r: Option<usize>)
        ensures
            match r {
                Some(i) => i < self.value_args@.len() && find_value_arg(
                    arg_decls_view(self.value_args@),
                    name@,
                    is_long,
                ) == Some(self.value_args@[i as int]@) && arg_decl_name(
                    self.value_args@[i as int]@,
                    is_long,
                ) == Some(name@),
                None => find_value_arg(arg_decls_view(self.value_args@), name@, is_long) is None,
            },
    {
        let ghost decls = arg_decls_view(self.value_args@);
        let n = self.value_args.len();
        let mut i: usize = 0;
        while i < n
            invariant
                n == self.value_args@.len(),
                i <= n,
                decls == arg_decls_view(self.value_args@),
                forall|j: int| 0 <= j < i ==> arg_decl_name(#[trigger] decls[j], is_long) != Some(
                    name@,
                ),
            decreases n - i,
        {
            let slot: &Option<String> = if is_long {
                &self.value_args[i].long_name
            } else {
                &self.value_args[i].short_name
            };
            let hit = match slot {
                Some(s) => crate::text::str_eq(s.as_str(), name),
                None => false,
            };
            if hit {
                proof {
                    lemma_find_value_arg_at(decls, name@, is_long, i as int);
                }
                return Some(i);
            }
            i += 1;
        }
        proof {
            lemma_find_value_arg_none(decls, name@, is_long);
        }
        None
    }

    fn find_prefix_arg_index<'a>(&self, stripped: &'a str) -> (r: Option<(usize, &'a str)>)
        ensures
            match r {
                Some((i, val)) => i < self.value_args@.len() && find_prefix_arg(
                    arg_decls_view(self.value_args@),
                    stripped@,
                ) == Some((self.value_args@[i as int]@, val@)) && arg_decl_name(
                    self.value_args@[i as int]@,
                    false,
                ) is Some,
                None => find_prefix_arg(arg_decls_view(self.value_args@), stripped@) is None,
            },
    {
        let ghost decls = arg_decls_view(self.value_args@);
        let slen = stripped.unicode_len();
        let n = self.value_args.len();
        let mut i: usize = 0;
        while i < n
            invariant
                n == self.value_args@.len(),
                slen == stripped@.len(),
                i <= n,
                decls == arg_decls_view(self.value_args@),
                forall|j: int| 0 <= j < i ==> !prefix_matches(#[trigger] decls[j], stripped@),
            decreases n - i,
        {
            match &self.value_args[i].short_name {
                Some(k) => {
                    if crate::text::str_starts_with(stripped, k.as_str()) {
                        let klen = k.as_str().unicode_len();
                        let val = stripped.substring_char(klen, slen);
                        proof {
                            lemma_find_prefix_arg_at(decls, stripped@, i as int);
                        }
                        return Some((i, val));
                    }
                },
                None => {},
            }
            i += 1;
        }
        proof {
            lemma_find_prefix_arg_none(decls, stripped@);
        }
        None
    }

    /// Routes `value` through the declaration at `i`, matched on the given
    /// side under the name it declares there.
    fn apply_value_at(&mut self, i: usize, is_long: bool, value: &str)
        requires
            i < old(self).value_args@.len(),
            arg_decl_name(old(self).value_args@[i as int]@, is_long) is Some,
        ensures
            final(self).flags == old(self).flags,
            final(self).value_args == old(self).value_args,
            final(self).unknown_args == old(self).unknown_args,
            final(self).args@ == spec_apply_value(
                old(self).args@,
                old(self).value_args@[i as int]@,
                is_long,
                value@,
            ),
    {
        let ghost d = self.value_args@[i as int]@;
        let target = self.value_args[i].target;
        let separator = self.value_args[i].separator;
        let unstripped = self.value_args[i].unstripped;
        let prefix_tok: Option<String> = if unstripped {
            let slot: &Option<String> = if is_long {
                &self.value_args[i].long_name
            } else {
                &self.value_args[i].short_name
            };
            match slot {
                Some(nm) => {
                    let tok = if is_long {
                        crate::text::concat2("--", nm.as_str())
                    } else {
                        crate::text::concat2("-", nm.as_str())
                    };
                    proof {
                        reveal_strlit("--");
                        reveal_strlit("-");
                        assert("--"@ =~= seq!['-', '-']);
                        assert("-"@ =~= seq!['-']);
                    }
                    Some(tok)
                },
                None => {
                    proof {
                        assert(false);
                    }
                    None
                },
            }
        } else {
            None
        };
        proof {
            assert(crate::args::opt_str(prefix_tok) == if d.unstripped {
                Some(dash_name(d, is_long))
            } else {
                None::<Seq<char>>
            });
        }
        match target {
            ArgTarget::Single(f) => {
                self.args.set_single(f, value.to_owned());
            },
            ArgTarget::Multi(f) => {
                match prefix_tok {
                    Some(tok) => {
                        self.args.push_multi(f, tok);
                    },
                    None => {},
                }
                match separator {
                    Some(c) => {
                        let pieces = crate::text::str_split_nonempty(value, c);
                        proof {
                            assert(pieces.deep_view() =~= strs(pieces@));
                        }
                        self.args.push_multi_all(f, pieces);
                    },
                    None => {
                        self.args.push_multi(f, value.to_owned());
                    },
                }
            },
        }
    }

    /// Tries `raw_arg` as a value argument, with `next` the following token
    /// of the stream, consumed when the value is not inline.
    pub fn parse_arg(&mut self, raw_arg: &str, next: Option<&String>) -> (r: ArgOutcome)
        ensures
            final(self).flags == old(self).flags,
            final(self).value_args == old(self).value_args,
            final(self).unknown_args == old(self).unknown_args,
            ({
                let step = spec_parse_arg(
                    arg_decls_view(old(self).value_args@),
                    old(self).args@,
                    raw_arg@,
                    opt_ref_str(next),
                );
                r == step.0 && final(self).args@ == step.1
            }),
    {
        let n = raw_arg.unicode_len();
        let is_long: bool;
        let stripped: &str;
        if n >= 2 && raw_arg.get_char(0) == '-' && raw_arg.get_char(1) == '-' {
            stripped = raw_arg.substring_char(2, n);
            is_long = true;
        } else if n >= 1 && raw_arg.get_char(0) == '-' {
            stripped = raw_arg.substring_char(1, n);
            is_long = false;
        } else {
            return ArgOutcome::NoMatch;
        }
        let sl = stripped.unicode_len();
        match crate::text::str_find_char(stripped, '=') {
            Some(eq) => {
                proof {
                    crate::text::lemma_find_char_in(stripped@, '=');
                }
                let key = stripped.substring_char(0, eq);
                let val = stripped.substring_char(eq + 1, sl);
                match self.find_value_arg_index(key, is_long) {
                    Some(i) => {
                        self.apply_value_at(i, is_long, val);
                        ArgOutcome::Matched
                    },
                    None => ArgOutcome::NoMatch,
                }
            },
            None => {
                match self.find_value_arg_index(stripped, is_long) {
                    Some(i) => {
                        match next {
                            Some(v) => {
                                self.apply_value_at(i, is_long, v.as_str());
                                ArgOutcome::MatchedNext
                            },
                            None => ArgOutcome::MissingValue,
                        }
                    },
                    None => {
                        if !is_long {
                            match self.find_prefix_arg_index(stripped) {
                                Some((i, val)) => {
                                    self.apply_value_at(i, false, val);
                                    ArgOutcome::Matched
                                },
                                None => ArgOutcome::NoMatch,
                            }
                        } else {
                            ArgOutcome::NoMatch
                        }
                    },
                }
            },
        }
    }

    /// Collects a prefixed token that no declaration matched; such tokens
    /// are retained, never rejected.
    pub fn handle_unknown_arg(&mut self, arg: &str) -> (r: bool)
        ensures
            final(self).flags == old(self).flags,
            final(self).value_args == old(self).value_args,
            final(self).args == old(self).args,
            r == (arg@.len() >= 1 && arg@[0] == '-'),
            r ==> strs(final(self).unknown_args@) == strs(old(self).unknown_args@).push(arg@),
            !r ==> final(self).unknown_args == old(self).unknown_args,
    {
        let n = arg.unicode_len();
        if n >= 1 && arg.get_char(0) == '-' {
            self.unknown_args.push(arg.to_owned());
            proof {
                assert(strs(self.unknown_args@) =~= strs(old(self).unknown_args@).push(arg@));
            }
            true
        } else {
            false
        }
    }
}

/// A hard parse error: a value argument matched, but the token stream ended
/// before a value could be supplied.
#[derive(Debug)]
pub struct ParseError {
    /// The offending option token.
    pub token: String,
}

impl ParseError {
    pub fn message(&self) -> (r: String)
        ensures
            r@ == "unexpected end of arguments after: "@ + self.token@,
    {
        crate::text::concat2("unexpected end of arguments after: ", self.token.as_str())
    }
}

/// One pass over a whole token stream, left to right: each token is tried as
/// a flag, then as a value argument; an unmatched prefixed token goes to the
/// unknown bucket, and anything else is classified as an object or source
/// file. `Err` carries the token whose value was missing.
pub open spec fn spec_parse_tokens(
    flags: Seq<FlagDeclModel>,
    decls: Seq<ArgDeclModel>,
    m: ArgsModel,
    unknown: Seq<Seq<char>>,
    tokens: Seq<Seq<char>>,
) -> Result<(ArgsModel, Seq<Seq<char>>), Seq<char>>
    decreases tokens.len(),
{
    if tokens.len() == 0 {
        Ok((m, unknown))
    } else {
        let t = tokens[0];
        match spec_parse_flag(flags, m, t) {
            Some(m2) => spec_parse_tokens(
                flags,
                decls,
                m2,
                unknown,
                tokens.subrange(1, tokens.len() as int),
            ),
            None => {
                let next = if tokens.len() >= 2 {
                    Some(tokens[1])
                } else {
                    None
                };
                let step = spec_parse_arg(decls, m, t, next);
                match step.0 {
                    ArgOutcome::Matched => spec_parse_tokens(
                        flags,
                        decls,
                        step.1,
                        unknown,
                        tokens.subrange(1, tokens.len() as int),
                    ),
                    ArgOutcome::MatchedNext => spec_parse_tokens(
                        flags,
                        decls,
                        step.1,
                        unknown,
                        tokens.subrange(2, tokens.len() as int),
                    ),
                    ArgOutcome::MissingValue => Err(t),
                    ArgOutcome::NoMatch => if t.len() >= 1 && t[0] == '-' {
                        spec_parse_tokens(
                            flags,
                            decls,
                            m,
                            unknown.push(t),
                            tokens.subrange(1, tokens.len() as int),
                        )
                    } else {
                        spec_parse_tokens(
                            flags,
                            decls,
                            spec_classify_free(m, t),
                            unknown,
                            tokens.subrange(1, tokens.len() as int),
                        )
                    },
                }
            },
        }
    }
}

impl ArgParser {
    /// One step of the pass: handles the token at `i` and yields the index
    /// of the next unhandled token, or the hard error.
    #[verifier::rlimit(60)]
    fn parse_step(&mut self, tokens: &Vec<String>, i: usize) -> (r: Result<usize, ParseError>)
        requires
            i < tokens@.len(),
        ensures
            final(self).flags == old(self).flags,
            final(self).value_args == old(self).value_args,
            match r {
                Ok(j) => i < j <= tokens@.len() && spec_parse_tokens(
                    flag_decls_view(old(self).flags@),
                    arg_decls_view(old(self).value_args@),
                    old(self).args@,
                    strs(old(self).unknown_args@),
                    strs(tokens@).subrange(i as int, tokens@.len() as int),
                ) == spec_parse_tokens(
                    flag_decls_view(final(self).flags@),
                    arg_decls_view(final(self).value_args@),
                    final(self).args@,
                    strs(final(self).unknown_args@),
                    strs(tokens@).subrange(j as int, tokens@.len() as int),
                ),
                Err(e) => spec_parse_tokens(
                    flag_decls_view(old(self).flags@),
                    arg_decls_view(old(self).value_args@),
                    old(self).args@,
                    strs(old(self).unknown_args@),
                    strs(tokens@).subrange(i as int, tokens@.len() as int),
                ) == Err::<(ArgsModel, Seq<Seq<char>>), Seq<char>>(e.token@),
            },
    {
        let n = tokens.len();
        let ghost all = strs(tokens@);
        let ghost rest = all.subrange(i as int, n as int);
        proof {
            assert(rest[0] == tokens@[i as int]@);
            assert(rest.subrange(1, rest.len() as int) =~= all.subrange(i + 1, n as int));
            if rest.len() >= 2 {
                assert(rest.subrange(2, rest.len() as int) =~= all.subrange(i + 2, n as int));
                assert(rest[1] == tokens@[i + 1]@);
            }
        }
        let t: &String = &tokens[i];
        if self.parse_flag(t.as_str()) {
            return Ok(i + 1);
        }
        let next: Option<&String> = if i + 1 < n {
            Some(&tokens[i + 1])
        } else {
            None
        };
        match self.parse_arg(t.as_str(), next) {
            ArgOutcome::Matched => Ok(i + 1),
            ArgOutcome::MatchedNext => Ok(i + 2),
            ArgOutcome::MissingValue => Err(ParseError { token: t.clone() }),
            ArgOutcome::NoMatch => {
                if self.handle_unknown_arg(t.as_str()) {
                    Ok(i + 1)
                } else {
                    self.args.push_free_token(t.as_str());
                    Ok(i + 1)
                }
            },
        }
    }

    /// Parses the whole token stream into the record, left to right. The one
    /// hard error is a value argument at the end of the stream with no token
    /// left to supply its value.
    pub fn parse(&mut self, tokens: &Vec<String>) -> (r: Result<(), ParseError>)
        ensures
            final(self).flags == old(self).flags,
            final(self).value_args == old(self).value_args,
            match spec_parse_tokens(
                flag_decls_view(old(self).flags@),
                arg_decls_view(old(self).value_args@),
                old(self).args@,
                strs(old(self).unknown_args@),
                strs(tokens@),
            ) {
                Ok(mu) => r is Ok && final(self).args@ == mu.0 && strs(final(self).unknown_args@)
                    == mu.1,
                Err(t) => r matches Err(e) && e.token@ == t,
            },
    {
        let ghost flags_v = flag_decls_view(self.flags@);
        let ghost decls_v = arg_decls_view(self.value_args@);
        let ghost all = strs(tokens@);
        let n = tokens.len();
        proof {
            assert(all.subrange(0, n as int) =~= all);
        }
        let mut i: usize = 0;
        while i < n
            invariant
                n == tokens@.len(),
                i <= n,
                self.flags == old(self).flags,
                self.value_args == old(self).value_args,
                flags_v == flag_decls_view(self.flags@),
                decls_v == arg_decls_view(self.value_args@),
                all == strs(tokens@),
                spec_parse_tokens(
                    flags_v,
                    decls_v,
                    old(self).args@,
                    strs(old(self).unknown_args@),
                    all,
                ) == spec_parse_tokens(
                    flags_v,
                    decls_v,
                    self.args@,
                    strs(self.unknown_args@),
                    all.subrange(i as int, n as int),
                ),
            decreases n - i,
        {
            match self.parse_step(tokens, i) {
                Ok(j) => {
                    i = j;
                },
                Err(e) => {
                    return Err(e);
                },
            }
        }
        proof {
            assert(all.subrange(n as int, n as int) =~= Seq::<Seq<char>>::empty());
        }
        Ok(())
    }
}

} // verus!

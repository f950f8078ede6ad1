//! The general properties of the parsing engine, stated and proved once and
//! for all: negation is last-write-wins, and the five spellings of a value
//! argument are interchangeable.

use vstd::prelude::*;
use crate::arg_parser::{
    ArgDeclModel, ArgOutcome, FlagDeclModel, find_flag, find_prefix_arg, find_value_arg,
    spec_apply_value, spec_parse_arg, spec_parse_flag, spec_parse_tokens, strip_negation,
};
use crate::args::{ArgsModel, FlagField, spec_set_flag};
use crate::text::find_char_in;

verus! {

/// Law: for a flag declared with negation support under `name` on both
/// sides, parsing `--<name>` and then `-no-<name>` leaves the toggle false,
/// and the reverse ordering leaves it true: the last write wins.
#[verifier::rlimit(100)]
pub proof fn law_flag_negation_last_write_wins(
    flags: Seq<FlagDeclModel>,
    decls: Seq<ArgDeclModel>,
    m: ArgsModel,
    u: Seq<Seq<char>>,
    name: Seq<char>,
)
    requires
        find_flag(flags, name, true) is Some,
        find_flag(flags, name, false) == find_flag(flags, name, true),
        find_flag(flags, name, true)->Some_0.supports_negation,
        strip_negation(name) is None,
    ensures
        ({
            let d = find_flag(flags, name, true)->Some_0;
            let pos = seq!['-', '-'] + name;
            let neg = seq!['-', 'n', 'o', '-'] + name;
            spec_parse_tokens(flags, decls, m, u, seq![pos, neg]) == Ok::<
                (ArgsModel, Seq<Seq<char>>),
                Seq<char>,
            >((spec_set_flag(spec_set_flag(m, d.field, true), d.field, false), u))
                && spec_parse_tokens(flags, decls, m, u, seq![neg, pos]) == Ok::<
                (ArgsModel, Seq<Seq<char>>),
                Seq<char>,
            >((spec_set_flag(spec_set_flag(m, d.field, false), d.field, true), u))
        }),
{
    reveal_with_fuel(spec_parse_tokens, 4);
    let d = find_flag(flags, name, true)->Some_0;
    let pos = seq!['-', '-'] + name;
    let neg = seq!['-', 'n', 'o', '-'] + name;
    assert(pos.subrange(2, pos.len() as int) =~= name);
    assert(neg.subrange(1, neg.len() as int) =~= seq!['n', 'o', '-'] + name);
    let negs = seq!['n', 'o', '-'] + name;
    assert(negs.subrange(3, negs.len() as int) =~= name);
    assert(spec_parse_flag(flags, m, pos) == Some(spec_set_flag(m, d.field, true)));
    let m1 = spec_set_flag(m, d.field, true);
    let m2 = spec_set_flag(m, d.field, false);
    assert(spec_parse_flag(flags, m1, neg) == Some(spec_set_flag(m1, d.field, false)));
    assert(spec_parse_flag(flags, m2, pos) == Some(spec_set_flag(m2, d.field, true)));
    assert(spec_parse_flag(flags, m, neg) == Some(m2));
    let two_a = seq![pos, neg];
    let two_b = seq![neg, pos];
    assert(two_a.subrange(1, 2) =~= seq![neg]);
    assert(two_b.subrange(1, 2) =~= seq![pos]);
    assert(seq![neg].subrange(1, 1) =~= Seq::<Seq<char>>::empty());
    assert(seq![pos].subrange(1, 1) =~= Seq::<Seq<char>>::empty());
}

/// The conditions under which a value argument declared under `name` owns
/// every spelling of itself: the name is well-formed, no flag declaration
/// shadows any spelling, the same declaration answers for `name` on both
/// sides, greedy prefix matching on the short inline spelling finds that
/// same declaration, and the declaration does not keep the spelled-out
/// option name in front of its values (long and short spellings would then
/// differ by design).
pub open spec fn value_forms_premise(
    flags: Seq<FlagDeclModel>,
    decls: Seq<ArgDeclModel>,
    name: Seq<char>,
    v: Seq<char>,
) -> bool {
    &&& name.len() > 0
    &&& name[0] != '-'
    &&& find_char_in(name, '=') is None
    &&& find_char_in(v, '=') is None
    &&& strip_negation(name) is None
    &&& strip_negation(name + v) is None
    &&& find_flag(flags, name + seq!['='] + v, true) is None
    &&& find_flag(flags, name + seq!['='] + v, false) is None
    &&& find_flag(flags, name, true) is None
    &&& find_flag(flags, name, false) is None
    &&& find_flag(flags, name + v, false) is None
    &&& find_value_arg(decls, name, true) is Some
    &&& find_value_arg(decls, name, false) == find_value_arg(decls, name, true)
    &&& find_value_arg(decls, name + v, false) is None
    &&& find_prefix_arg(decls, name + v) == Some((find_value_arg(decls, name, true)->Some_0, v))
    &&& !find_value_arg(decls, name, true)->Some_0.unstripped
}

/// The negation prefix cannot fire on `name` followed by `=` and the value,
/// given that it does not fire on `name` itself and `name` holds no `=`.
proof fn lemma_eq_form_keeps_negation_off(name: Seq<char>, v: Seq<char>)
    requires
        find_char_in(name, '=') is None,
        strip_negation(name) is None,
    ensures
        strip_negation(name + seq!['='] + v) is None,
        find_char_in(name + seq!['='] + v, '=') == Some(name.len() as int),
        (name + seq!['='] + v).subrange(0, name.len() as int) == name,
        (name + seq!['='] + v).subrange(name.len() as int + 1, (name + seq!['='] + v).len() as int)
            == v,
{
    let s1 = name + seq!['='] + v;
    crate::text::lemma_find_char_in(name, '=');
    assert(forall|j: int| 0 <= j < name.len() ==> s1[j] == name[j]);
    crate::text::lemma_find_char_in_at(s1, '=', name.len() as int);
    assert(s1.subrange(0, name.len() as int) =~= name);
    assert(s1.subrange(name.len() as int + 1, s1.len() as int) =~= v);
    if strip_negation(s1) is Some {
        assert(s1[0] == 'n' && s1[1] == 'o' && s1[2] == '-');
        assert(name.len() != 1 && name.len() != 2);
    }
}

proof fn lemma_value_form_long_eq(
    flags: Seq<FlagDeclModel>,
    decls: Seq<ArgDeclModel>,
    m: ArgsModel,
    u: Seq<Seq<char>>,
    name: Seq<char>,
    v: Seq<char>,
)
    requires
        value_forms_premise(flags, decls, name, v),
    ensures
        spec_parse_tokens(flags, decls, m, u, seq![seq!['-', '-'] + name + seq!['='] + v]) == Ok::<
            (ArgsModel, Seq<Seq<char>>),
            Seq<char>,
        >((spec_apply_value(m, find_value_arg(decls, name, true)->Some_0, true, v), u)),
{
    reveal_with_fuel(spec_parse_tokens, 2);
    let d = find_value_arg(decls, name, true)->Some_0;
    let applied = spec_apply_value(m, d, true, v);
    let t1 = seq!['-', '-'] + name + seq!['='] + v;
    let s1 = name + seq!['='] + v;
    assert(t1.subrange(2, t1.len() as int) =~= s1);
    lemma_eq_form_keeps_negation_off(name, v);
    assert(spec_parse_flag(flags, m, t1) is None);
    assert(spec_parse_arg(decls, m, t1, None) == (ArgOutcome::Matched, applied));
    let one1 = seq![t1];
    assert(one1.subrange(1, 1) =~= Seq::<Seq<char>>::empty());
}

proof fn lemma_value_form_short_eq(
    flags: Seq<FlagDeclModel>,
    decls: Seq<ArgDeclModel>,
    m: ArgsModel,
    u: Seq<Seq<char>>,
    name: Seq<char>,
    v: Seq<char>,
)
    requires
        value_forms_premise(flags, decls, name, v),
    ensures
        spec_parse_tokens(flags, decls, m, u, seq![seq!['-'] + name + seq!['='] + v]) == Ok::<
            (ArgsModel, Seq<Seq<char>>),
            Seq<char>,
        >((spec_apply_value(m, find_value_arg(decls, name, true)->Some_0, true, v), u)),
{
    reveal_with_fuel(spec_parse_tokens, 2);
    let d = find_value_arg(decls, name, true)->Some_0;
    let applied = spec_apply_value(m, d, true, v);
    assert(spec_apply_value(m, d, false, v) == applied);
    let t4 = seq!['-'] + name + seq!['='] + v;
    let s1 = name + seq!['='] + v;
    assert(t4[1] == name[0]);
    assert(t4.subrange(1, t4.len() as int) =~= s1);
    lemma_eq_form_keeps_negation_off(name, v);
    assert(spec_parse_flag(flags, m, t4) is None);
    assert(spec_parse_arg(decls, m, t4, None) == (ArgOutcome::Matched, applied));
    let one4 = seq![t4];
    assert(one4.subrange(1, 1) =~= Seq::<Seq<char>>::empty());
}

proof fn lemma_value_form_long_next(
    flags: Seq<FlagDeclModel>,
    decls: Seq<ArgDeclModel>,
    m: ArgsModel,
    u: Seq<Seq<char>>,
    name: Seq<char>,
    v: Seq<char>,
)
    requires
        value_forms_premise(flags, decls, name, v),
    ensures
        spec_parse_tokens(flags, decls, m, u, seq![seq!['-', '-'] + name, v]) == Ok::<
            (ArgsModel, Seq<Seq<char>>),
            Seq<char>,
        >((spec_apply_value(m, find_value_arg(decls, name, true)->Some_0, true, v), u)),
{
    reveal_with_fuel(spec_parse_tokens, 2);
    let d = find_value_arg(decls, name, true)->Some_0;
    let applied = spec_apply_value(m, d, true, v);
    let t2 = seq!['-', '-'] + name;
    assert(t2.subrange(2, t2.len() as int) =~= name);
    assert(spec_parse_flag(flags, m, t2) is None);
    assert(spec_parse_arg(decls, m, t2, Some(v)) == (ArgOutcome::MatchedNext, applied));
    let two = seq![t2, v];
    assert(two.subrange(2, 2) =~= Seq::<Seq<char>>::empty());
}

proof fn lemma_value_form_short_next(
    flags: Seq<FlagDeclModel>,
    decls: Seq<ArgDeclModel>,
    m: ArgsModel,
    u: Seq<Seq<char>>,
    name: Seq<char>,
    v: Seq<char>,
)
    requires
        value_forms_premise(flags, decls, name, v),
    ensures
        spec_parse_tokens(flags, decls, m, u, seq![seq!['-'] + name, v]) == Ok::<
            (ArgsModel, Seq<Seq<char>>),
            Seq<char>,
        >((spec_apply_value(m, find_value_arg(decls, name, true)->Some_0, true, v), u)),
{
    reveal_with_fuel(spec_parse_tokens, 2);
    let d = find_value_arg(decls, name, true)->Some_0;
    let applied = spec_apply_value(m, d, true, v);
    assert(spec_apply_value(m, d, false, v) == applied);
    let t5 = seq!['-'] + name;
    assert(t5[1] == name[0]);
    assert(t5.subrange(1, t5.len() as int) =~= name);
    assert(spec_parse_flag(flags, m, t5) is None);
    assert(spec_parse_arg(decls, m, t5, Some(v)) == (ArgOutcome::MatchedNext, applied));
    let two = seq![t5, v];
    assert(two.subrange(2, 2) =~= Seq::<Seq<char>>::empty());
}

proof fn lemma_value_form_short_inline(
    flags: Seq<FlagDeclModel>,
    decls: Seq<ArgDeclModel>,
    m: ArgsModel,
    u: Seq<Seq<char>>,
    name: Seq<char>,
    v: Seq<char>,
)
    requires
        value_forms_premise(flags, decls, name, v),
    ensures
        spec_parse_tokens(flags, decls, m, u, seq![seq!['-'] + name + v]) == Ok::<
            (ArgsModel, Seq<Seq<char>>),
            Seq<char>,
        >((spec_apply_value(m, find_value_arg(decls, name, true)->Some_0, true, v), u)),
{
    reveal_with_fuel(spec_parse_tokens, 2);
    let d = find_value_arg(decls, name, true)->Some_0;
    let applied = spec_apply_value(m, d, true, v);
    assert(spec_apply_value(m, d, false, v) == applied);
    let t3 = seq!['-'] + name + v;
    let s3 = name + v;
    assert(t3[1] == name[0]);
    assert(t3.subrange(1, t3.len() as int) =~= s3);
    assert(forall|j: int| 0 <= j < s3.len() ==> s3[j] == (if j < name.len() {
        name[j]
    } else {
        v[j - name.len()]
    }));
    crate::text::lemma_find_char_in(s3, '=');
    assert(find_char_in(s3, '=') is None) by {
        if find_char_in(s3, '=') is Some {
            let i = find_char_in(s3, '=')->Some_0;
            assert(s3[i] == '=');
            crate::text::lemma_find_char_in(name, '=');
            crate::text::lemma_find_char_in(v, '=');
        }
    }
    assert(spec_parse_flag(flags, m, t3) is None);
    assert(spec_parse_arg(decls, m, t3, None) == (ArgOutcome::Matched, applied));
    let one3 = seq![t3];
    assert(one3.subrange(1, 1) =~= Seq::<Seq<char>>::empty());
}

/// Law: the five spellings of a value argument are equivalent. For a value
/// argument declared under `name` on both sides, with no other declaration
/// in the way, `--<name>=<v>`, `--<name> <v>`, `-<name>=<v>`, `-<name> <v>`
/// and the greedy short inline `-<name><v>` each route the same value `v`
/// and leave the same record.
pub proof fn law_value_forms_agree(
    flags: Seq<FlagDeclModel>,
    decls: Seq<ArgDeclModel>,
    m: ArgsModel,
    u: Seq<Seq<char>>,
    name: Seq<char>,
    v: Seq<char>,
)
    requires
        value_forms_premise(flags, decls, name, v),
    ensures
        ({
            let d = find_value_arg(decls, name, true)->Some_0;
            let applied = spec_apply_value(m, d, true, v);
            let done = Ok::<(ArgsModel, Seq<Seq<char>>), Seq<char>>((applied, u));
            spec_parse_tokens(flags, decls, m, u, seq![seq!['-', '-'] + name + seq!['='] + v])
                == done && spec_parse_tokens(flags, decls, m, u, seq![seq!['-', '-'] + name, v])
                == done && spec_parse_tokens(
                flags,
                decls,
                m,
                u,
                seq![seq!['-'] + name + seq!['='] + v],
            ) == done && spec_parse_tokens(flags, decls, m, u, seq![seq!['-'] + name, v]) == done
                && spec_parse_tokens(flags, decls, m, u, seq![seq!['-'] + name + v]) == done
        }),
{
    lemma_value_form_long_eq(flags, decls, m, u, name, v);
    lemma_value_form_long_next(flags, decls, m, u, name, v);
    lemma_value_form_short_eq(flags, decls, m, u, name, v);
    lemma_value_form_short_next(flags, decls, m, u, name, v);
    lemma_value_form_short_inline(flags, decls, m, u, name, v);
}

} // verus!

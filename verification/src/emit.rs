//! Re-serialization of a driver argument record: the token vector that
//! re-states every recognized field of the record, in the spellings the
//! catalog declares, so that one parse pass over it reproduces those fields.

use vstd::prelude::*;
use vstd::string::*;
use crate::args::{Args, ArgsModel, strs};

verus! {

/// One token when the toggle is set, none otherwise.
pub open spec fn opt_flag_token(b: bool, t: Seq<char>) -> Seq<Seq<char>> {
    if b {
        seq![t]
    } else {
        Seq::empty()
    }
}

/// An option name and its value as two tokens, when the slot holds one.
pub open spec fn opt_value_tokens(o: Option<Seq<char>>, k: Seq<char>) -> Seq<Seq<char>> {
    match o {
        Some(v) => seq![k, v],
        None => Seq::empty(),
    }
}

/// The option name before each element of a list, pairs in element order.
pub open spec fn value_pair_tokens(k: Seq<char>, xs: Seq<Seq<char>>) -> Seq<Seq<char>>
    decreases xs.len(),
{
    if xs.len() == 0 {
        Seq::empty()
    } else {
        value_pair_tokens(k, xs.drop_last()) + seq![k, xs.last()]
    }
}

/// The tokens that re-state the recognized fields of a record: the two
/// negatable toggles in whichever polarity they hold, every other toggle
/// when set, each single value and each multi-value element behind its
/// declared option name, then the free tokens and the unknown bucket
/// verbatim.
pub open spec fn spec_record_tokens(m: ArgsModel) -> Seq<Seq<char>> {
    seq![
        if m.toggles.pie {
            "-pie"@
        } else {
            "-no-pie"@
        },
    ] + seq![
        if m.toggles.pthread {
            "--pthread"@
        } else {
            "--no-pthread"@
        },
    ] + opt_flag_token(m.toggles.shared, "--shared"@) + opt_flag_token(
        m.toggles.static_exe,
        "--static"@,
    ) + opt_flag_token(m.toggles.static_pie, "-static-pie"@) + opt_flag_token(
        m.toggles.nodefaultlibs,
        "-nodefaultlibs"@,
    ) + opt_flag_token(m.toggles.nostartfiles, "--nostartfiles"@) + opt_flag_token(
        m.toggles.nostdlib,
        "--nostdlib"@,
    ) + opt_flag_token(m.toggles.coverage, "--coverage"@) + opt_flag_token(
        m.toggles.profile,
        "--profile"@,
    ) + opt_flag_token(m.toggles.dont_link, "-c"@) + opt_flag_token(
        m.toggles.dont_assemble,
        "-S"@,
    ) + opt_flag_token(m.toggles.help, "--help"@) + opt_value_tokens(m.singles.out, "-o"@)
        + opt_value_tokens(m.singles.language, "-x"@) + opt_value_tokens(
        m.singles.target,
        "--target"@,
    ) + opt_value_tokens(m.singles.sysroot, "--sysroot"@) + value_pair_tokens(
        "-B"@,
        m.multis.compiler_b_args,
    ) + value_pair_tokens("-l"@, m.multis.additional_libs) + value_pair_tokens(
        "-L"@,
        m.multis.additional_search_paths,
    ) + value_pair_tokens("-T"@, m.multis.scripts) + value_pair_tokens(
        "-Xlinker"@,
        m.multis.linker_args,
    ) + m.sources + m.objects + m.unknown_args
}

fn push_tok(out: &mut Vec<String>, t: &str)
    ensures
        strs(final(out)@) == strs(old(out)@).push(t@),
{
    out.push(t.to_owned());
    proof {
        assert(strs(out@) =~= strs(old(out)@).push(t@));
    }
}

fn push_flag_choice(out: &mut Vec<String>, b: bool, pos: &str, neg: &str)
    ensures
        strs(final(out)@) == strs(old(out)@) + seq![
            if b {
                pos@
            } else {
                neg@
            },
        ],
{
    if b {
        push_tok(out, pos);
    } else {
        push_tok(out, neg);
    }
    proof {
        assert(strs(out@) =~= strs(old(out)@) + seq![
            if b {
                pos@
            } else {
                neg@
            },
        ]);
    }
}

fn push_opt_flag(out: &mut Vec<String>, b: bool, t: &str)
    ensures
        strs(final(out)@) == strs(old(out)@) + opt_flag_token(b, t@),
{
    if b {
        push_tok(out, t);
    }
    proof {
        assert(strs(out@) =~= strs(old(out)@) + opt_flag_token(b, t@));
    }
}

fn push_opt_value(out: &mut Vec<String>, o: &Option<String>, k: &str)
    ensures
        strs(final(out)@) == strs(old(out)@) + opt_value_tokens(crate::args::opt_str(*o), k@),
{
    match o {
        Some(v) => {
            push_tok(out, k);
            push_tok(out, v.as_str());
        },
        None => {},
    }
    proof {
        assert(strs(out@) =~= strs(old(out)@) + opt_value_tokens(crate::args::opt_str(*o), k@));
    }
}

fn push_value_pairs(out: &mut Vec<String>, k: &str, xs: &Vec<String>)
    ensures
        strs(final(out)@) == strs(old(out)@) + value_pair_tokens(k@, strs(xs@)),
{
    let n = xs.len();
    let mut i: usize = 0;
    while i < n
        invariant
            n == xs@.len(),
            i <= n,
            strs(out@) == strs(old(out)@) + value_pair_tokens(k@, strs(xs@).subrange(0, i as int)),
        decreases n - i,
    {
        let ghost pre = strs(out@);
        push_tok(out, k);
        push_tok(out, xs[i].as_str());
        proof {
            assert(strs(xs@).subrange(0, i + 1).drop_last() =~= strs(xs@).subrange(0, i as int));
            assert(strs(xs@).subrange(0, i + 1).last() == xs@[i as int]@);
            assert(pre.push(k@).push(xs@[i as int]@) =~= strs(old(out)@) + value_pair_tokens(
                k@,
                strs(xs@).subrange(0, i + 1),
            ));
        }
        i += 1;
    }
    proof {
        assert(strs(xs@).subrange(0, n as int) =~= strs(xs@));
    }
}

fn push_every(out: &mut Vec<String>, xs: &Vec<String>)
    ensures
        strs(final(out)@) == strs(old(out)@) + strs(xs@),
{
    let n = xs.len();
    let mut i: usize = 0;
    while i < n
        invariant
            n == xs@.len(),
            i <= n,
            strs(out@) == strs(old(out)@) + strs(xs@).subrange(0, i as int),
        decreases n - i,
    {
        let ghost pre = strs(out@);
        push_tok(out, xs[i].as_str());
        proof {
            assert(pre.push(xs@[i as int]@) =~= strs(old(out)@) + strs(xs@).subrange(0, i + 1));
        }
        i += 1;
    }
    proof {
        assert(strs(xs@).subrange(0, n as int) =~= strs(xs@));
    }
}

impl Args {
    /// Re-serializes the record's recognized fields into one token vector,
    /// exactly the tokens `spec_record_tokens` states.
    #[verifier::rlimit(100)]
    pub fn to_tokens(&self) -> (r: Vec<String>)
        ensures
            strs(r@) == spec_record_tokens(self@),
    {
        let mut out: Vec<String> = Vec::new();
        push_flag_choice(&mut out, self.pie, "-pie", "-no-pie");
        push_flag_choice(&mut out, self.pthread, "--pthread", "--no-pthread");
        push_opt_flag(&mut out, self.shared, "--shared");
        push_opt_flag(&mut out, self.static_exe, "--static");
        push_opt_flag(&mut out, self.static_pie, "-static-pie");
        push_opt_flag(&mut out, self.nodefaultlibs, "-nodefaultlibs");
        push_opt_flag(&mut out, self.nostartfiles, "--nostartfiles");
        push_opt_flag(&mut out, self.nostdlib, "--nostdlib");
        push_opt_flag(&mut out, self.coverage, "--coverage");
        push_opt_flag(&mut out, self.profile, "--profile");
        push_opt_flag(&mut out, self.dont_link, "-c");
        push_opt_flag(&mut out, self.dont_assemble, "-S");
        push_opt_flag(&mut out, self.help, "--help");
        push_opt_value(&mut out, &self.out, "-o");
        push_opt_value(&mut out, &self.language, "-x");
        push_opt_value(&mut out, &self.target, "--target");
        push_opt_value(&mut out, &self.sysroot, "--sysroot");
        push_value_pairs(&mut out, "-B", &self.compiler_b_args);
        push_value_pairs(&mut out, "-l", &self.additional_libs);
        push_value_pairs(&mut out, "-L", &self.additional_search_paths);
        push_value_pairs(&mut out, "-T", &self.scripts);
        push_value_pairs(&mut out, "-Xlinker", &self.linker_args);
        push_every(&mut out, &self.sources);
        push_every(&mut out, &self.objects);
        push_every(&mut out, &self.unknown_args);
        proof {
            assert(Seq::<Seq<char>>::empty() + seq![
                if self.pie {
                    "-pie"@
                } else {
                    "-no-pie"@
                },
            ] =~= seq![
                if self.pie {
                    "-pie"@
                } else {
                    "-no-pie"@
                },
            ]);
            assert(strs(out@) == spec_record_tokens(self@));
        }
        out
    }
}

} // verus!

//! Parser for a compiler's "show commands" diagnostic dump: the text a
//! compiler prints when asked to show, rather than run, every subprocess it
//! would start. Two incompatible formats exist, one for GCC and one for
//! Clang; both are turned into an ordered pipeline of build/assemble command
//! lines plus at most one trailing link command.

use vstd::prelude::*;
use vstd::string::*;
use crate::text::{
    contains_seq, find_last_char_in, is_prefix_of, is_space, char_is_space, split_parts,
    str_contains, str_eq, str_find_last_char, str_split_lines, str_starts_with, str_trim,
    trim_spec,
};

verus! {

/// The ordered subprocess pipeline extracted from a dump: build/assemble
/// commands in discovery order, and the link command, always last in program
/// order, where the dump ends in one.
#[derive(Debug)]
pub struct CommandPipeline {
    pub build_and_assemble: Vec<String>,
    pub link: Option<String>,
}

#[verifier::ext_equal]
pub struct PipelineModel {
    pub build_and_assemble: Seq<Seq<char>>,
    pub link: Option<Seq<char>>,
}

impl View for CommandPipeline {
    type V = PipelineModel;

    open spec fn view(&self) -> PipelineModel {
        PipelineModel {
            build_and_assemble: crate::args::strs(self.build_and_assemble@),
            link: crate::args::opt_str(self.link),
        }
    }
}

/// Why a dump could not be used.
#[derive(Debug)]
pub enum DumpError {
    /// The dump holds no command at all.
    NoCommands,
    /// The compiler itself reported an error inside the dump; the line is
    /// carried so it can be surfaced verbatim.
    CompilerError(String),
}

/// The ideal value of a dump error.
pub enum DumpErrorSpec {
    NoCommands,
    CompilerError(Seq<char>),
}

/// The mathematical value of a `DumpError`.
pub open spec fn spec_dump_error(e: DumpError) -> DumpErrorSpec {
    match e {
        DumpError::NoCommands => DumpErrorSpec::NoCommands,
        DumpError::CompilerError(l) => DumpErrorSpec::CompilerError(l@),
    }
}

/// A line that starts with blank space: the shape every command line takes
/// inside a dump.
pub open spec fn is_indented(l: Seq<char>) -> bool {
    l.len() > 0 && is_space(l[0])
}

/// The command token of a command line: everything before the first blank.
pub open spec fn first_token(s: Seq<char>) -> Seq<char>
    decreases s.len(),
{
    if s.len() == 0 {
        s
    } else if is_space(s[0]) {
        s.subrange(0, 0)
    } else {
        seq![s[0]] + first_token(s.subrange(1, s.len() as int))
    }
}

/// The path component after the last separator.
pub open spec fn base_name(p: Seq<char>) -> Seq<char> {
    match find_last_char_in(p, '/') {
        Some(i) => p.subrange(i + 1, p.len() as int),
        None => p,
    }
}

/// The file stem of a path: its base name without the extension after the
/// last dot, the whole base name when the dot leads it.
pub open spec fn file_stem(p: Seq<char>) -> Seq<char> {
    let b = base_name(p);
    match find_last_char_in(b, '.') {
        Some(i) => if i > 0 {
            b.subrange(0, i)
        } else {
            b
        },
        None => b,
    }
}

/// The candidate commands of a Clang dump: every indented line, trimmed,
/// that is neither blank nor the in-process marker. Banner lines are not
/// indented and fall away.
pub open spec fn clang_candidates(lines: Seq<Seq<char>>) -> Seq<Seq<char>>
    decreases lines.len(),
{
    if lines.len() == 0 {
        Seq::empty()
    } else {
        let pre = clang_candidates(lines.drop_last());
        let l = lines.last();
        if is_indented(l) && trim_spec(l).len() > 0 && trim_spec(l) != "(in-process)"@ {
            pre.push(trim_spec(l))
        } else {
            pre
        }
    }
}

/// The candidate commands of a GCC dump: every indented line, trimmed, that
/// is not blank.
pub open spec fn gcc_candidates(lines: Seq<Seq<char>>) -> Seq<Seq<char>>
    decreases lines.len(),
{
    if lines.len() == 0 {
        Seq::empty()
    } else {
        let pre = gcc_candidates(lines.drop_last());
        let l = lines.last();
        if is_indented(l) && trim_spec(l).len() > 0 {
            pre.push(trim_spec(l))
        } else {
            pre
        }
    }
}

/// The first unindented line of a GCC dump that carries an error report:
/// GCC can exit zero and still print one when shown an invalid argument.
pub open spec fn gcc_error_line(lines: Seq<Seq<char>>) -> Option<Seq<char>>
    decreases lines.len(),
{
    if lines.len() == 0 {
        None
    } else {
        match gcc_error_line(lines.drop_last()) {
            Some(e) => Some(e),
            None => {
                let l = lines.last();
                if !is_indented(l) && contains_seq(l, "error: "@) {
                    Some(l)
                } else {
                    None
                }
            },
        }
    }
}

proof fn lemma_gcc_error_at(lines: Seq<Seq<char>>, i: int)
    requires
        0 <= i < lines.len(),
        gcc_error_line(lines.subrange(0, i)) is None,
        !is_indented(lines[i]),
        contains_seq(lines[i], "error: "@),
    ensures
        gcc_error_line(lines) == Some(lines[i]),
    decreases lines.len(),
{
    if lines.len() == i + 1 {
        assert(lines.drop_last() =~= lines.subrange(0, i));
    } else {
        let d = lines.drop_last();
        assert(d.subrange(0, i) =~= lines.subrange(0, i));
        lemma_gcc_error_at(d, i);
    }
}

/// What parsing a Clang dump yields: the candidates, with the last one
/// split off as the link command exactly when its program's file stem does
/// not start with `clang`.
pub open spec fn spec_parse_clang_dump(text: Seq<char>) -> Result<PipelineModel, DumpErrorSpec> {
    let cands = clang_candidates(split_parts(text, '\n'));
    if cands.len() == 0 {
        Err(DumpErrorSpec::NoCommands)
    } else {
        let last = cands.last();
        if !is_prefix_of("clang"@, file_stem(first_token(last))) {
            Ok(PipelineModel { build_and_assemble: cands.drop_last(), link: Some(last) })
        } else {
            Ok(PipelineModel { build_and_assemble: cands, link: None })
        }
    }
}

/// What parsing a GCC dump yields: an error line anywhere in the dump is
/// fatal; otherwise the candidates, with the last one split off as the link
/// command exactly when its program's file stem is `collect2`.
pub open spec fn spec_parse_gcc_dump(text: Seq<char>) -> Result<PipelineModel, DumpErrorSpec> {
    let lines = split_parts(text, '\n');
    match gcc_error_line(lines) {
        Some(e) => Err(DumpErrorSpec::CompilerError(e)),
        None => {
            let cands = gcc_candidates(lines);
            if cands.len() == 0 {
                Err(DumpErrorSpec::NoCommands)
            } else {
                let last = cands.last();
                if file_stem(first_token(last)) == "collect2"@ {
                    Ok(PipelineModel { build_and_assemble: cands.drop_last(), link: Some(last) })
                } else {
                    Ok(PipelineModel { build_and_assemble: cands, link: None })
                }
            }
        },
    }
}

/// The command token of a command line, executably.
pub fn first_token_of<'a>(s: &'a str) -> (r: &'a str)
    ensures
        r@ == first_token(s@),
{
    let n = s.unicode_len();
    proof {
        assert(s@.subrange(0, n as int) =~= s@);
        assert(s@.subrange(0, 0) + first_token(s@) =~= first_token(s@));
    }
    let mut i: usize = 0;
    while i < n && !char_is_space(s.get_char(i))
        invariant
            n == s@.len(),
            i <= n,
            first_token(s@) == s@.subrange(0, i as int) + first_token(
                s@.subrange(i as int, n as int),
            ),
        decreases n - i,
    {
        proof {
            let cur = s@.subrange(i as int, n as int);
            assert(cur.subrange(1, cur.len() as int) =~= s@.subrange(i + 1, n as int));
            assert(s@.subrange(0, i as int) + seq![s@[i as int]] =~= s@.subrange(0, i + 1));
            assert(s@.subrange(0, i as int) + (seq![cur[0]] + first_token(
                cur.subrange(1, cur.len() as int),
            )) =~= s@.subrange(0, i + 1) + first_token(s@.subrange(i + 1, n as int)));
        }
        i += 1;
    }
    proof {
        let cur = s@.subrange(i as int, n as int);
        if i < n {
            assert(cur.subrange(0, 0) =~= Seq::<char>::empty());
        }
        assert(first_token(cur) =~= Seq::<char>::empty());
        assert(s@.subrange(0, i as int) + Seq::<char>::empty() =~= s@.subrange(0, i as int));
    }
    s.substring_char(0, i)
}

/// The file stem of a path, executably.
pub fn file_stem_of<'a>(p: &'a str) -> (r: &'a str)
    ensures
        r@ == file_stem(p@),
{
    let n = p.unicode_len();
    let b: &str = match str_find_last_char(p, '/') {
        Some(i) => {
            proof {
                crate::text::lemma_find_last_char_in(p@, '/');
            }
            p.substring_char(i + 1, n)
        },
        None => p,
    };
    let bn = b.unicode_len();
    match str_find_last_char(b, '.') {
        Some(i) => {
            proof {
                crate::text::lemma_find_last_char_in(b@, '.');
            }
            if i > 0 {
                b.substring_char(0, i)
            } else {
                b
            }
        },
        None => b,
    }
}

/// Parses the dump text a Clang prints in show-commands mode.
pub fn parse_clang_dump(text: &str) -> (r: Result<CommandPipeline, DumpError>)
    ensures
        match spec_parse_clang_dump(text@) {
            Ok(p) => r matches Ok(c) && c@ == p,
            Err(e) => r matches Err(d) && spec_dump_error(d) == e,
        },
{
    let lines = str_split_lines(text);
    let ghost lv = lines.deep_view();
    proof {
        assert(lv =~= crate::args::strs(lines@));
    }
    let n = lines.len();
    let mut cands: Vec<String> = Vec::new();
    let mut i: usize = 0;
    while i < n
        invariant
            n == lines@.len(),
            i <= n,
            lv == crate::args::strs(lines@),
            crate::args::strs(cands@) == clang_candidates(lv.subrange(0, i as int)),
        decreases n - i,
    {
        let ghost pre = lv.subrange(0, i as int);
        proof {
            assert(lv.subrange(0, i + 1).drop_last() =~= pre);
            assert(lv.subrange(0, i + 1).last() == lines@[i as int]@);
        }
        let line: &String = &lines[i];
        let ll = line.as_str().unicode_len();
        if ll > 0 && char_is_space(line.as_str().get_char(0)) {
            let trimmed = str_trim(line.as_str());
            if trimmed.unicode_len() > 0 && !str_eq(trimmed, "(in-process)") {
                let ghost old_cands = crate::args::strs(cands@);
                cands.push(trimmed.to_owned());
                proof {
                    assert(crate::args::strs(cands@) =~= old_cands.push(trimmed@));
                }
            }
        }
        i += 1;
    }
    proof {
        assert(lv.subrange(0, n as int) =~= lv);
    }
    let cn = cands.len();
    if cn == 0 {
        return Err(DumpError::NoCommands);
    }
    let stem_hits = {
        let last: &String = &cands[cn - 1];
        let tok = first_token_of(last.as_str());
        let stem = file_stem_of(tok);
        str_starts_with(stem, "clang")
    };
    if !stem_hits {
        let link = match cands.pop() {
            Some(l) => l,
            None => vstd::pervasive::unreached(),
        };
        proof {
            assert(crate::args::strs(cands@) =~= clang_candidates(lv).drop_last());
        }
        Ok(CommandPipeline { build_and_assemble: cands, link: Some(link) })
    } else {
        Ok(CommandPipeline { build_and_assemble: cands, link: None })
    }
}

/// Parses the dump text a GCC prints in show-commands mode.
pub fn parse_gcc_dump(text: &str) -> (r: Result<CommandPipeline, DumpError>)
    ensures
        match spec_parse_gcc_dump(text@) {
            Ok(p) => r matches Ok(c) && c@ == p,
            Err(e) => r matches Err(d) && spec_dump_error(d) == e,
        },
{
    let lines = str_split_lines(text);
    let ghost lv = lines.deep_view();
    proof {
        assert(lv =~= crate::args::strs(lines@));
    }
    let n = lines.len();
    let mut cands: Vec<String> = Vec::new();
    let mut i: usize = 0;
    while i < n
        invariant
            n == lines@.len(),
            i <= n,
            lv == crate::args::strs(lines@),
            lv == split_parts(text@, '\n'),
            crate::args::strs(cands@) == gcc_candidates(lv.subrange(0, i as int)),
            gcc_error_line(lv.subrange(0, i as int)) is None,
        decreases n - i,
    {
        let ghost pre = lv.subrange(0, i as int);
        proof {
            assert(lv.subrange(0, i + 1).drop_last() =~= pre);
            assert(lv.subrange(0, i + 1).last() == lines@[i as int]@);
        }
        let line: &String = &lines[i];
        let ll = line.as_str().unicode_len();
        if ll > 0 && char_is_space(line.as_str().get_char(0)) {
            let trimmed = str_trim(line.as_str());
            if trimmed.unicode_len() > 0 {
                let ghost old_cands = crate::args::strs(cands@);
                cands.push(trimmed.to_owned());
                proof {
                    assert(crate::args::strs(cands@) =~= old_cands.push(trimmed@));
                }
            }
        } else {
            if str_contains(line.as_str(), "error: ") {
                proof {
                    assert(lv[i as int] == lines@[i as int]@);
                    assert(!is_indented(lv[i as int]));
                    lemma_gcc_error_at(lv, i as int);
                    assert(gcc_error_line(split_parts(text@, '\n')) == Some(line@));
                }
                return Err(DumpError::CompilerError(line.clone()));
            }
        }
        i += 1;
    }
    proof {
        assert(lv.subrange(0, n as int) =~= lv);
    }
    let cn = cands.len();
    if cn == 0 {
        return Err(DumpError::NoCommands);
    }
    let stem_hits = {
        let last: &String = &cands[cn - 1];
        let tok = first_token_of(last.as_str());
        let stem = file_stem_of(tok);
        str_eq(stem, "collect2")
    };
    if stem_hits {
        let link = match cands.pop() {
            Some(l) => l,
            None => vstd::pervasive::unreached(),
        };
        proof {
            assert(crate::args::strs(cands@) =~= gcc_candidates(lv).drop_last());
        }
        Ok(CommandPipeline { build_and_assemble: cands, link: Some(link) })
    } else {
        Ok(CommandPipeline { build_and_assemble: cands, link: None })
    }
}

/// The two dump formats.
#[derive(Debug, PartialEq, Eq, Structural, Clone, Copy)]
pub enum DumpFlavor {
    Gcc,
    Clang,
}

/// The first line of the dump that is not blank.
pub open spec fn first_nonblank_line(lines: Seq<Seq<char>>) -> Option<Seq<char>>
    decreases lines.len(),
{
    if lines.len() == 0 {
        None
    } else if trim_spec(lines[0]).len() > 0 {
        Some(lines[0])
    } else {
        first_nonblank_line(lines.subrange(1, lines.len() as int))
    }
}

/// Which format a dump is in, sniffed from its first non-blank line: GCC
/// opens its banner with `Using built-in specs`.
pub open spec fn spec_detect_dump_flavor(text: Seq<char>) -> DumpFlavor {
    match first_nonblank_line(split_parts(text, '\n')) {
        Some(l) => if is_prefix_of("Using built-in specs"@, l) {
            DumpFlavor::Gcc
        } else {
            DumpFlavor::Clang
        },
        None => DumpFlavor::Clang,
    }
}

pub fn detect_dump_flavor(text: &str) -> (r: DumpFlavor)
    ensures
        r == spec_detect_dump_flavor(text@),
{
    let lines = str_split_lines(text);
    let ghost lv = lines.deep_view();
    proof {
        assert(lv =~= crate::args::strs(lines@));
    }
    let n = lines.len();
    proof {
        assert(lv.subrange(0, n as int) =~= lv);
    }
    let mut i: usize = 0;
    while i < n
        invariant
            n == lines@.len(),
            i <= n,
            lv == crate::args::strs(lines@),
            lv == split_parts(text@, '\n'),
            first_nonblank_line(lv) == first_nonblank_line(lv.subrange(i as int, n as int)),
        decreases n - i,
    {
        proof {
            let cur = lv.subrange(i as int, n as int);
            assert(cur[0] == lines@[i as int]@);
            assert(cur.subrange(1, cur.len() as int) =~= lv.subrange(i + 1, n as int));
        }
        let line: &String = &lines[i];
        let trimmed = str_trim(line.as_str());
        if trimmed.unicode_len() > 0 {
            proof {
                let cur = lv.subrange(i as int, n as int);
                assert(cur[0] == lines@[i as int]@);
                assert(trim_spec(cur[0]).len() > 0);
                assert(first_nonblank_line(cur) == Some(cur[0]));
                assert(first_nonblank_line(lv) == Some(line@));
            }
            if str_starts_with(line.as_str(), "Using built-in specs") {
                return DumpFlavor::Gcc;
            } else {
                return DumpFlavor::Clang;
            }
        }
        i += 1;
    }
    proof {
        assert(lv.subrange(n as int, n as int) =~= Seq::<Seq<char>>::empty());
    }
    DumpFlavor::Clang
}

/// Parses a dump in either format, sniffing which one it is in.
pub fn parse_dump(text: &str) -> (r: Result<CommandPipeline, DumpError>)
    ensures
        ({
            let ideal = match spec_detect_dump_flavor(text@) {
                DumpFlavor::Gcc => spec_parse_gcc_dump(text@),
                DumpFlavor::Clang => spec_parse_clang_dump(text@),
            };
            match ideal {
                Ok(p) => r matches Ok(c) && c@ == p,
                Err(e) => r matches Err(d) && spec_dump_error(d) == e,
            }
        }),
{
    match detect_dump_flavor(text) {
        DumpFlavor::Gcc => parse_gcc_dump(text),
        DumpFlavor::Clang => parse_clang_dump(text),
    }
}

} // verus!

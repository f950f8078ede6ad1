//! Verified helpers over `&str` and `String`, specified against the
//! `Seq<char>` views that vstd gives those types. Every routine that the
//! argument parser, the dump parser and the link-line synthesizer need is
//! stated here exactly, so their own contracts can be written over plain
//! sequence operations.

use vstd::prelude::*;
use vstd::string::*;

verus! {

/// `p` occurs at the start of `s`.
pub open spec fn is_prefix_of(p: Seq<char>, s: Seq<char>) -> bool {
    p.len() <= s.len() && s.subrange(0, p.len() as int) == p
}

/// `p` occurs at the end of `s`.
pub open spec fn is_suffix_of(p: Seq<char>, s: Seq<char>) -> bool {
    p.len() <= s.len() && s.subrange(s.len() - p.len(), s.len() as int) == p
}

pub fn str_eq(a: &str, b: &str) -> (r: bool)
    ensures
        r == (a@ == b@),
{
    let alen = a.unicode_len();
    let blen = b.unicode_len();
    if alen != blen {
        return false;
    }
    let mut i: usize = 0;
    while i < alen
        invariant
            alen == a@.len(),
            blen == b@.len(),
            alen == blen,
            i <= alen,
            forall|j: int| 0 <= j < i ==> a@[j] == b@[j],
        decreases alen - i,
    {
        if a.get_char(i) != b.get_char(i) {
            return false;
        }
        i += 1;
    }
    proof {
        assert(a@ =~= b@);
    }
    true
}

pub fn str_starts_with(s: &str, p: &str) -> (r: bool)
    ensures
        r == is_prefix_of(p@, s@),
{
    let plen = p.unicode_len();
    let slen = s.unicode_len();
    if plen > slen {
        return false;
    }
    let mut i: usize = 0;
    while i < plen
        invariant
            plen == p@.len(),
            slen == s@.len(),
            plen <= slen,
            i <= plen,
            forall|j: int| 0 <= j < i ==> s@[j] == p@[j],
        decreases plen - i,
    {
        if s.get_char(i) != p.get_char(i) {
            proof {
                assert(s@.subrange(0, p@.len() as int)[i as int] == s@[i as int]);
            }
            return false;
        }
        i += 1;
    }
    proof {
        assert(s@.subrange(0, p@.len() as int) =~= p@);
    }
    true
}

pub fn str_ends_with(s: &str, p: &str) -> (r: bool)
    ensures
        r == is_suffix_of(p@, s@),
{
    let plen = p.unicode_len();
    let slen = s.unicode_len();
    if plen > slen {
        return false;
    }
    let off = slen - plen;
    let mut i: usize = 0;
    while i < plen
        invariant
            plen == p@.len(),
            slen == s@.len(),
            plen <= slen,
            off == slen - plen,
            i <= plen,
            forall|j: int| 0 <= j < i ==> s@[off + j] == p@[j],
        decreases plen - i,
    {
        if s.get_char(off + i) != p.get_char(i) {
            proof {
                assert(s@.subrange(s@.len() - p@.len(), s@.len() as int)[i as int] == s@[off
                    + i as int]);
            }
            return false;
        }
        i += 1;
    }
    proof {
        assert(s@.subrange(s@.len() - p@.len(), s@.len() as int) =~= p@);
    }
    true
}

/// Index of the first occurrence of `c` in `s`.
pub open spec fn find_char_in(s: Seq<char>, c: char) -> Option<int>
    decreases s.len(),
{
    if s.len() == 0 {
        None
    } else if s[0] == c {
        Some(0int)
    } else {
        match find_char_in(s.subrange(1, s.len() as int), c) {
            Some(i) => Some(i + 1),
            None => None,
        }
    }
}

pub proof fn lemma_find_char_in(s: Seq<char>, c: char)
    ensures
        match find_char_in(s, c) {
            Some(i) => 0 <= i < s.len() && s[i] == c && forall|j: int| 0 <= j < i ==> s[j] != c,
            None => forall|j: int| 0 <= j < s.len() ==> s[j] != c,
        },
    decreases s.len(),
{
    if s.len() == 0 {
    } else if s[0] == c {
    } else {
        let t = s.subrange(1, s.len() as int);
        lemma_find_char_in(t, c);
        assert(forall|j: int| 1 <= j < s.len() ==> s[j] == t[j - 1]);
    }
}

pub proof fn lemma_find_char_in_at(s: Seq<char>, c: char, i: int)
    requires
        0 <= i < s.len(),
        s[i] == c,
        forall|j: int| 0 <= j < i ==> s[j] != c,
    ensures
        find_char_in(s, c) == Some(i),
    decreases s.len(),
{
    if i == 0 {
    } else {
        let t = s.subrange(1, s.len() as int);
        assert(forall|j: int| 0 <= j < t.len() ==> t[j] == s[j + 1]);
        lemma_find_char_in_at(t, c, i - 1);
    }
}

pub fn str_find_char(s: &str, c: char) -> (r: Option<usize>)
    ensures
        match r {
            Some(i) => find_char_in(s@, c) == Some(i as int),
            None => find_char_in(s@, c) is None,
        },
{
    let slen = s.unicode_len();
    let mut i: usize = 0;
    while i < slen
        invariant
            slen == s@.len(),
            i <= slen,
            forall|j: int| 0 <= j < i ==> s@[j] != c,
        decreases slen - i,
    {
        if s.get_char(i) == c {
            proof {
                lemma_find_char_in_at(s@, c, i as int);
            }
            return Some(i);
        }
        i += 1;
    }
    proof {
        lemma_find_char_in(s@, c);
    }
    None
}

/// Index of the last occurrence of `c` in `s`.
pub open spec fn find_last_char_in(s: Seq<char>, c: char) -> Option<int>
    decreases s.len(),
{
    if s.len() == 0 {
        None
    } else if s[s.len() - 1] == c {
        Some(s.len() - 1)
    } else {
        find_last_char_in(s.subrange(0, s.len() - 1), c)
    }
}

pub proof fn lemma_find_last_char_in(s: Seq<char>, c: char)
    ensures
        match find_last_char_in(s, c) {
            Some(i) => 0 <= i < s.len() && s[i] == c && forall|j: int|
                i < j < s.len() ==> s[j] != c,
            None => forall|j: int| 0 <= j < s.len() ==> s[j] != c,
        },
    decreases s.len(),
{
    if s.len() == 0 {
    } else if s[s.len() - 1] == c {
    } else {
        let t = s.subrange(0, s.len() - 1);
        lemma_find_last_char_in(t, c);
        assert(forall|j: int| 0 <= j < s.len() - 1 ==> s[j] == t[j]);
    }
}

pub proof fn lemma_find_last_char_in_at(s: Seq<char>, c: char, i: int)
    requires
        0 <= i < s.len(),
        s[i] == c,
        forall|j: int| i < j < s.len() ==> s[j] != c,
    ensures
        find_last_char_in(s, c) == Some(i),
    decreases s.len(),
{
    if i == s.len() - 1 {
    } else {
        let t = s.subrange(0, s.len() - 1);
        assert(forall|j: int| 0 <= j < t.len() ==> t[j] == s[j]);
        lemma_find_last_char_in_at(t, c, i);
    }
}

pub fn str_find_last_char(s: &str, c: char) -> (r: Option<usize>)
    ensures
        match r {
            Some(i) => find_last_char_in(s@, c) == Some(i as int),
            None => find_last_char_in(s@, c) is None,
        },
{
    let slen = s.unicode_len();
    let mut i: usize = slen;
    while i > 0
        invariant
            slen == s@.len(),
            i <= slen,
            forall|j: int| i <= j < slen ==> s@[j] != c,
        decreases i,
    {
        i = i - 1;
        if s.get_char(i) == c {
            proof {
                lemma_find_last_char_in_at(s@, c, i as int);
            }
            return Some(i);
        }
    }
    proof {
        lemma_find_last_char_in(s@, c);
    }
    None
}

/// `p` occurs contiguously somewhere in `s`.
pub open spec fn contains_seq(s: Seq<char>, p: Seq<char>) -> bool {
    exists|i: int| 0 <= i <= s.len() - p.len() && #[trigger] s.subrange(i, i + p.len() as int) == p
}

pub fn str_contains(s: &str, p: &str) -> (r: bool)
    ensures
        r == contains_seq(s@, p@),
{
    let slen = s.unicode_len();
    let plen = p.unicode_len();
    if plen > slen {
        return false;
    }
    if plen == 0 {
        proof {
            assert(s@.subrange(0, 0 + p@.len() as int) =~= p@);
        }
        return true;
    }
    let mut i: usize = 0;
    while i <= slen - plen
        invariant
            slen == s@.len(),
            plen == p@.len(),
            1 <= plen <= slen,
            i <= slen - plen + 1,
            forall|k: int| 0 <= k < i ==> #[trigger] s@.subrange(k, k + p@.len() as int) != p@,
        decreases slen - plen - i + 1,
    {
        let cand = s.substring_char(i, i + plen);
        if str_eq(cand, p) {
            return true;
        }
        i += 1;
    }
    false
}

/// The pieces of `s` between occurrences of `sep`, in order, with every empty
/// piece dropped.
pub open spec fn split_nonempty_parts(s: Seq<char>, sep: char) -> Seq<Seq<char>>
    decreases s.len(),
    via split_nonempty_parts_decreases
{
    match find_char_in(s, sep) {
        Some(i) => {
            let piece = s.subrange(0, i);
            let rest = split_nonempty_parts(s.subrange(i + 1, s.len() as int), sep);
            if piece.len() == 0 {
                rest
            } else {
                seq![piece] + rest
            }
        },
        None => if s.len() == 0 {
            Seq::empty()
        } else {
            seq![s]
        },
    }
}

#[via_fn]
proof fn split_nonempty_parts_decreases(s: Seq<char>, sep: char) {
    lemma_find_char_in(s, sep);
}

/// The pieces of `s` between occurrences of `sep`, in order, empty pieces
/// kept; splitting the empty sequence yields one empty piece.
pub open spec fn split_parts(s: Seq<char>, sep: char) -> Seq<Seq<char>>
    decreases s.len(),
    via split_parts_decreases
{
    match find_char_in(s, sep) {
        Some(i) => seq![s.subrange(0, i)] + split_parts(s.subrange(i + 1, s.len() as int), sep),
        None => seq![s],
    }
}

#[via_fn]
proof fn split_parts_decreases(s: Seq<char>, sep: char) {
    lemma_find_char_in(s, sep);
}

/// Splits `s` on `sep`, dropping empty pieces.
pub fn str_split_nonempty(s: &str, sep: char) -> (r: Vec<String>)
    ensures
        r.deep_view() == split_nonempty_parts(s@, sep),
{
    let mut out: Vec<String> = Vec::new();
    let mut rem: &str = s;
    loop
        invariant
            out.deep_view() + split_nonempty_parts(rem@, sep) == split_nonempty_parts(s@, sep),
        decreases rem@.len(),
    {
        let rem_len = rem.unicode_len();
        match str_find_char(rem, sep) {
            Some(i) => {
                proof {
                    lemma_find_char_in(rem@, sep);
                }
                let ghost old_out = out.deep_view();
                let ghost old_rem = rem@;
                let piece = rem.substring_char(0, i);
                if i > 0 {
                    out.push(piece.to_owned());
                    proof {
                        assert(out.deep_view() =~= old_out.push(piece@));
                    }
                }
                rem = rem.substring_char(i + 1, rem_len);
                proof {
                    if i > 0 {
                        assert(old_out + split_nonempty_parts(old_rem, sep) =~= out.deep_view()
                            + split_nonempty_parts(rem@, sep));
                    } else {
                        assert(old_rem.subrange(0, 0) =~= Seq::<char>::empty());
                    }
                }
            },
            None => {
                if rem_len > 0 {
                    let ghost old_out = out.deep_view();
                    out.push(rem.to_owned());
                    proof {
                        assert(out.deep_view() =~= old_out.push(rem@));
                        assert(out.deep_view() =~= old_out + split_nonempty_parts(rem@, sep));
                    }
                } else {
                    proof {
                        assert(out.deep_view() + split_nonempty_parts(rem@, sep)
                            =~= out.deep_view());
                    }
                }
                proof {
                    assert(out.deep_view() =~= split_nonempty_parts(s@, sep));
                }
                return out;
            },
        }
    }
}

/// Splits `s` into its lines: the pieces between newline characters, kept
/// even when empty.
pub fn str_split_lines(s: &str) -> (r: Vec<String>)
    ensures
        r.deep_view() == split_parts(s@, '\n'),
{
    let mut out: Vec<String> = Vec::new();
    let mut rem: &str = s;
    loop
        invariant
            out.deep_view() + split_parts(rem@, '\n') == split_parts(s@, '\n'),
        decreases rem@.len(),
    {
        let rem_len = rem.unicode_len();
        match str_find_char(rem, '\n') {
            Some(i) => {
                proof {
                    lemma_find_char_in(rem@, '\n');
                }
                let ghost old_out = out.deep_view();
                let ghost old_rem = rem@;
                let piece = rem.substring_char(0, i);
                out.push(piece.to_owned());
                rem = rem.substring_char(i + 1, rem_len);
                proof {
                    assert(out.deep_view() =~= old_out.push(piece@));
                    assert(old_out + split_parts(old_rem, '\n') =~= out.deep_view() + split_parts(
                        rem@,
                        '\n',
                    ));
                }
            },
            None => {
                let ghost old_out = out.deep_view();
                out.push(rem.to_owned());
                proof {
                    assert(out.deep_view() =~= old_out.push(rem@));
                    assert(out.deep_view() =~= old_out + split_parts(rem@, '\n'));
                    assert(out.deep_view() =~= split_parts(s@, '\n'));
                }
                return out;
            },
        }
    }
}

pub open spec fn is_space(c: char) -> bool {
    c == ' ' || c == '\t' || c == '\r'
}

pub fn char_is_space(c: char) -> (r: bool)
    ensures
        r == is_space(c),
{
    c == ' ' || c == '\t' || c == '\r'
}

pub open spec fn trim_start_spec(s: Seq<char>) -> Seq<char>
    decreases s.len(),
{
    if s.len() > 0 && is_space(s[0]) {
        trim_start_spec(s.subrange(1, s.len() as int))
    } else {
        s
    }
}

pub open spec fn trim_end_spec(s: Seq<char>) -> Seq<char>
    decreases s.len(),
{
    if s.len() > 0 && is_space(s[s.len() - 1]) {
        trim_end_spec(s.subrange(0, s.len() - 1))
    } else {
        s
    }
}

/// `s` without leading and trailing blanks.
pub open spec fn trim_spec(s: Seq<char>) -> Seq<char> {
    trim_end_spec(trim_start_spec(s))
}

pub fn str_trim<'a>(s: &'a str) -> (r: &'a str)
    ensures
        r@ == trim_spec(s@),
{
    let slen = s.unicode_len();
    proof {
        assert(s@.subrange(0, slen as int) =~= s@);
    }
    let mut i: usize = 0;
    while i < slen && char_is_space(s.get_char(i))
        invariant
            slen == s@.len(),
            i <= slen,
            trim_start_spec(s@) == trim_start_spec(s@.subrange(i as int, slen as int)),
        decreases slen - i,
    {
        proof {
            let cur = s@.subrange(i as int, slen as int);
            assert(cur.subrange(1, cur.len() as int) =~= s@.subrange(i + 1, slen as int));
        }
        i += 1;
    }
    proof {
        assert(trim_start_spec(s@) == s@.subrange(i as int, slen as int));
    }
    let mut j: usize = slen;
    while j > i && char_is_space(s.get_char(j - 1))
        invariant
            slen == s@.len(),
            i <= j <= slen,
            trim_start_spec(s@) == s@.subrange(i as int, slen as int),
            trim_end_spec(s@.subrange(i as int, slen as int)) == trim_end_spec(
                s@.subrange(i as int, j as int),
            ),
        decreases j,
    {
        proof {
            let cur = s@.subrange(i as int, j as int);
            assert(cur[cur.len() - 1] == s@[j - 1]);
            assert(cur.subrange(0, cur.len() - 1) =~= s@.subrange(i as int, j - 1));
        }
        j -= 1;
    }
    proof {
        let cur = s@.subrange(i as int, j as int);
        if j > i {
            assert(cur[cur.len() - 1] == s@[j - 1]);
        }
        assert(trim_end_spec(cur) == cur);
    }
    s.substring_char(i, j)
}

/// The concatenation of `a` and `b` as an owned string.
pub fn concat2(a: &str, b: &str) -> (r: String)
    ensures
        r@ == a@ + b@,
{
    let mut s = String::from_str(a);
    s.append(b);
    s
}

/// `dir` and `name` joined with a single path separator.
pub fn join_path(dir: &str, name: &str) -> (r: String)
    ensures
        r@ == dir@ + seq!['/'] + name@,
{
    proof {
        reveal_strlit("/");
        assert("/"@ =~= seq!['/']);
    }
    let mut s = String::from_str(dir);
    s.append("/");
    s.append(name);
    proof {
        assert(s@ =~= dir@ + seq!['/'] + name@);
    }
    s
}

} // verus!

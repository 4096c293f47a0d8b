use vstd::prelude::*;
use vstd::string::StringSliceAdditionalSpecFns;
use vstd::utf8::{decode_utf8, encode_utf8, valid_utf8};

use crate::error::{ErrorKind, FrrError};
use crate::lines::{byte_views, decode_line, lines_of, split_lines};
use crate::text::{
    chars_of, contains, contains_at_all, matches_at, replace_all, replace_chars, replaced_from,
    string_of,
};

verus! {

/// A line of a file after the substitution: a valid UTF-8 line that contains `find` is
/// rewritten, any other line is kept byte for byte.
pub open spec fn out_line(find: Seq<char>, replace: Seq<char>, l: Seq<u8>) -> Seq<u8> {
    if valid_utf8(l) && contains(decode_utf8(l), find) {
        encode_utf8(replace_all(decode_utf8(l), find, replace))
    } else {
        l
    }
}

/// The lines from index `k` on after the substitution, each ended by a line feed.
pub open spec fn committed_from(find: Seq<char>, replace: Seq<char>, lines: Seq<Seq<u8>>, k: int) -> Seq<
    u8,
>
    decreases lines.len() - k,
{
    if k < 0 || k >= lines.len() {
        seq![]
    } else {
        out_line(find, replace, lines[k]) + seq![10u8] + committed_from(find, replace, lines, k + 1)
    }
}

/// Some line of the file is valid UTF-8 and contains `find`.
pub open spec fn has_match(lines: Seq<Seq<u8>>, find: Seq<char>) -> bool {
    exists|k: int|
        0 <= k < lines.len() && valid_utf8(#[trigger] lines[k]) && contains(
            decode_utf8(lines[k]),
            find,
        )
}

/// The content of a file after the substitution.
pub open spec fn committed(find: Seq<char>, replace: Seq<char>, content: Seq<u8>) -> Seq<u8> {
    committed_from(find, replace, lines_of(content), 0)
}

fn extend_bytes(dst: &mut Vec<u8>, src: &[u8])
    ensures
        final(dst)@ == old(dst)@ + src@,
{
    for i in 0..src.len()
        invariant
            dst@ == old(dst)@ + src@.subrange(0, i as int),
    {
        dst.push(src[i]);
        proof {
            assert(src@.subrange(0, i + 1) =~= src@.subrange(0, i as int).push(src@[i as int]));
        }
    }
    proof {
        assert(src@.subrange(0, src@.len() as int) =~= src@);
    }
}

/// The new content of the file at `path`, whose content is `content`, with every
/// occurrence of `find` replaced by `replace` on every line that contains it; every
/// line, the last one too, ends with a line feed. Where no line contains `find` there is
/// nothing to write, and the error says so.
pub fn find_and_replace(find: &str, replace: &str, path: &str, content: &[u8]) -> (r: Result<
    Vec<u8>,
    FrrError,
>)
    ensures
        r is Ok <==> has_match(lines_of(content@), find@),
        r is Ok ==> r->Ok_0@ == committed(find@, replace@, content@),
        r is Err ==> r->Err_0.kind == ErrorKind::PatternNotFound && r->Err_0.subject@ == path@,
{
    let lines = split_lines(content);
    let ghost ls = lines_of(content@);
    let n = lines.len();
    proof {
        assert(byte_views(lines@).len() == n);
    }
    let f = chars_of(find);
    let rep = chars_of(replace);
    let mut out: Vec<u8> = Vec::new();
    let mut found = false;
    let mut k: usize = 0;
    while k < n
        invariant
            n == lines@.len(),
            n == ls.len(),
            byte_views(lines@) == ls,
            f@ == find@,
            rep@ == replace@,
            k <= n,
            out@ + committed_from(find@, replace@, ls, k as int) == committed(
                find@,
                replace@,
                content@,
            ),
            found <==> exists|j: int|
                0 <= j < k && valid_utf8(#[trigger] ls[j]) && contains(decode_utf8(ls[j]), find@),
        decreases n - k,
    {
        let ghost before = out@;
        assert(lines@[k as int]@ == ls[k as int]);
        match decode_line(&lines[k]) {
            Some(t) => {
                let tc = chars_of(t.as_str());
                if contains_at_all(&tc, &f) {
                    found = true;
                    let new_line = string_of(&replace_chars(&tc, &f, &rep));
                    extend_bytes(&mut out, new_line.as_str().as_bytes());
                } else {
                    extend_bytes(&mut out, &lines[k]);
                }
            },
            None => {
                extend_bytes(&mut out, &lines[k]);
            },
        }
        out.push(10u8);
        proof {
            assert(before + committed_from(find@, replace@, ls, k as int) =~= out@ + committed_from(
                find@,
                replace@,
                ls,
                k + 1,
            ));
        }
        k = k + 1;
    }
    proof {
        assert(out@ =~= committed(find@, replace@, content@));
    }
    if found {
        Ok(out)
    } else {
        Err(FrrError::pattern_not_found(path))
    }
}

proof fn lemma_replaced_shift(s: Seq<char>, p: Seq<char>, r: Seq<char>, i: int, j: int)
    requires
        0 <= i <= s.len(),
        0 <= j,
    ensures
        replaced_from(s, p, r, i + j) == replaced_from(s.subrange(i, s.len() as int), p, r, j),
    decreases s.len() - i - j,
{
    let t = s.subrange(i, s.len() as int);
    if i + j >= s.len() || p.len() == 0 {
        if i + j < s.len() {
            assert(s.subrange(i + j, s.len() as int) =~= t.subrange(j, t.len() as int));
        }
    } else {
        if i + j + p.len() <= s.len() {
            assert(s.subrange(i + j, i + j + p.len()) =~= t.subrange(j, j + p.len()));
        }
        assert(matches_at(s, p, i + j) == matches_at(t, p, j));
        assert(s[i + j] == t[j]);
        if matches_at(s, p, i + j) {
            lemma_replaced_shift(s, p, r, i, j + p.len());
        } else {
            lemma_replaced_shift(s, p, r, i, j + 1);
        }
    }
}

pub(crate) proof fn lemma_round_trip_from(s: Seq<char>, p: Seq<char>, r: Seq<char>)
    requires
        p.len() > 0,
        r.len() > 0,
        forall|i: int| 0 <= i < s.len() ==> s[i] != r[0],
    ensures
        replace_all(replace_all(s, p, r), r, p) == s,
    decreases s.len(),
{
    let t = replace_all(s, p, r);
    if s.len() == 0 {
        assert(t =~= seq![]);
        assert(replace_all(t, r, p) =~= s);
    } else if matches_at(s, p, 0) {
        let rest = s.subrange(p.len() as int, s.len() as int);
        lemma_replaced_shift(s, p, r, p.len() as int, 0);
        let tail = replace_all(rest, p, r);
        assert(t == r + tail);
        lemma_round_trip_from(rest, p, r);
        assert(t.subrange(0, r.len() as int) =~= r);
        assert(matches_at(t, r, 0));
        lemma_replaced_shift(t, r, p, r.len() as int, 0);
        assert(t.subrange(r.len() as int, t.len() as int) =~= tail);
        assert(replace_all(t, r, p) == p + replace_all(tail, r, p));
        assert(s =~= p + rest);
    } else {
        let rest = s.subrange(1, s.len() as int);
        lemma_replaced_shift(s, p, r, 1, 0);
        let tail = replace_all(rest, p, r);
        assert(t == seq![s[0]] + tail);
        lemma_round_trip_from(rest, p, r);
        assert(t[0] != r[0]);
        if r.len() <= t.len() {
            assert(t.subrange(0, r.len() as int)[0] != r[0]);
        }
        assert(!matches_at(t, r, 0));
        lemma_replaced_shift(t, r, p, 1, 0);
        assert(t.subrange(1, t.len() as int) =~= tail);
        assert(s =~= seq![s[0]] + rest);
    }
}

pub(crate) proof fn lemma_contains_after(s: Seq<char>, p: Seq<char>, r: Seq<char>)
    requires
        p.len() > 0,
        contains(s, p),
    ensures
        contains(replace_all(s, p, r), r),
    decreases s.len(),
{
    let t = replace_all(s, p, r);
    let i = choose|i: int| matches_at(s, p, i);
    if matches_at(s, p, 0) {
        lemma_replaced_shift(s, p, r, p.len() as int, 0);
        assert(t.subrange(0, r.len() as int) =~= r);
        assert(matches_at(t, r, 0));
    } else {
        let rest = s.subrange(1, s.len() as int);
        lemma_replaced_shift(s, p, r, 1, 0);
        let tail = replace_all(rest, p, r);
        assert(t == seq![s[0]] + tail);
        assert(i > 0);
        assert(rest.subrange(i - 1, i - 1 + p.len()) =~= s.subrange(i, i + p.len()));
        assert(matches_at(rest, p, i - 1));
        lemma_contains_after(rest, p, r);
        let j = choose|j: int| matches_at(tail, r, j);
        assert(t.subrange(j + 1, j + 1 + r.len()) =~= tail.subrange(j, j + r.len()));
        assert(matches_at(t, r, j + 1));
    }
}

} // verus!

use vstd::prelude::*;
use crate::commit::{
    committed, committed_from, has_match, lemma_contains_after, lemma_round_trip_from, out_line,
};
use crate::lines::{lines_from, lines_of, strip_cr};
use crate::text::{contains, matches_at, replace_all, replaced_from};
use vstd::utf8::{
    decode_utf8, decode_utf8_encode_utf8, encode_scalar, encode_utf8, encode_utf8_decode_utf8,
    encode_utf8_valid_utf8, valid_utf8,
};

verus! {

broadcast use {encode_utf8_valid_utf8, encode_utf8_decode_utf8};

/// The byte `b` does not occur in `s`.
pub open spec fn no_byte(s: Seq<u8>, b: u8) -> bool {
    forall|i: int| 0 <= i < s.len() ==> s[i] != b
}

/// The character with the code `b` does not occur in `t`.
pub open spec fn no_char(t: Seq<char>, b: u8) -> bool {
    forall|i: int| 0 <= i < t.len() ==> t[i] as u32 != b as u32
}

proof fn lemma_scalar_bytes(c: char)
    ensures
        (c as u32) <= 0x7F ==> encode_scalar(c as u32) == seq![(c as u32) as u8],
        (c as u32) > 0x7F ==> forall|i: int|
            0 <= i < encode_scalar(c as u32).len() ==> #[trigger] encode_scalar(c as u32)[i]
                >= 0x80u8,
{
    let v = c as u32;
    if v <= 0x7F {
        assert((v & 0x7F) as u8 == v as u8) by (bit_vector)
            requires
                v <= 0x7F,
        ;
        assert(encode_scalar(v) =~= seq![v as u8]);
    } else {
        assert(forall|y: u8| #[trigger] (0x80u8 | y) >= 0x80u8) by (bit_vector);
        assert(forall|y: u8| #[trigger] (0xC0u8 | y) >= 0x80u8) by (bit_vector);
        assert(forall|y: u8| #[trigger] (0xE0u8 | y) >= 0x80u8) by (bit_vector);
        assert(forall|y: u8| #[trigger] (0xF0u8 | y) >= 0x80u8) by (bit_vector);
    }
}

/// An ASCII byte occurs in the UTF-8 encoding of `t` exactly where its character
/// occurs in `t`.
pub proof fn lemma_encode_ascii(t: Seq<char>, b: u8)
    requires
        b < 0x80,
    ensures
        no_byte(encode_utf8(t), b) == no_char(t, b),
    decreases t.len(),
{
    if t.len() > 0 {
        let head = encode_scalar(t[0] as u32);
        let rest = encode_utf8(t.drop_first());
        lemma_encode_ascii(t.drop_first(), b);
        lemma_scalar_bytes(t[0]);
        let e = encode_utf8(t);
        assert(e == head + rest);
        if no_byte(e, b) {
            assert(no_byte(rest, b)) by {
                assert forall|i: int| 0 <= i < rest.len() implies rest[i] != b by {
                    assert(e[head.len() + i] == rest[i]);
                }
            }
            assert(head[0] == e[0]);
            assert(no_char(t, b)) by {
                assert forall|i: int| 0 <= i < t.len() implies t[i] as u32 != b as u32 by {
                    if i > 0 {
                        assert(t.drop_first()[i - 1] == t[i]);
                    }
                }
            }
        }
        if no_char(t, b) {
            assert(no_char(t.drop_first(), b)) by {
                assert forall|i: int| 0 <= i < t.drop_first().len() implies t.drop_first()[i] as u32
                    != b as u32 by {
                    assert(t.drop_first()[i] == t[i + 1]);
                }
            }
            assert(t[0] as u32 != b as u32);
            assert(no_byte(e, b)) by {
                assert forall|i: int| 0 <= i < e.len() implies e[i] != b by {
                    if i < head.len() {
                        assert(e[i] == head[i]);
                    } else {
                        assert(e[i] == rest[i - head.len()]);
                    }
                }
            }
        }
    }
}

proof fn lemma_replaced_no_char(s: Seq<char>, p: Seq<char>, r: Seq<char>, i: int, b: u8)
    requires
        no_char(s, b),
        no_char(r, b),
    ensures
        no_char(replaced_from(s, p, r, i), b),
    decreases s.len() - i,
{
    let t = replaced_from(s, p, r, i);
    if i < 0 || i >= s.len() {
    } else if p.len() == 0 {
        assert forall|k: int| 0 <= k < t.len() implies t[k] as u32 != b as u32 by {
            assert(t[k] == s[i + k]);
        }
    } else if matches_at(s, p, i) {
        let rest = replaced_from(s, p, r, i + p.len());
        lemma_replaced_no_char(s, p, r, i + p.len(), b);
        assert forall|k: int| 0 <= k < t.len() implies t[k] as u32 != b as u32 by {
            if k < r.len() {
                assert(t[k] == r[k]);
            } else {
                assert(t[k] == rest[k - r.len()]);
            }
        }
    } else {
        let rest = replaced_from(s, p, r, i + 1);
        lemma_replaced_no_char(s, p, r, i + 1, b);
        assert forall|k: int| 0 <= k < t.len() implies t[k] as u32 != b as u32 by {
            if k > 0 {
                assert(t[k] == rest[k - 1]);
            }
        }
    }
}

proof fn lemma_lines_no_newline(s: Seq<u8>, i: int, cur: Seq<u8>)
    requires
        no_byte(cur, 10),
    ensures
        forall|k: int|
            0 <= k < lines_from(s, i, cur).len() ==> no_byte(#[trigger] lines_from(s, i, cur)[k], 10),
    decreases s.len() - i,
{
    if i < 0 || i >= s.len() {
        let all = lines_from(s, i, cur);
        assert forall|k: int| 0 <= k < all.len() implies no_byte(#[trigger] all[k], 10) by {
            assert(all[k] == cur);
        }
    } else if s[i] == 10u8 {
        lemma_lines_no_newline(s, i + 1, seq![]);
        let rest = lines_from(s, i + 1, seq![]);
        let all = lines_from(s, i, cur);
        assert(no_byte(strip_cr(cur), 10)) by {
            if cur.len() > 0 && cur.last() == 13u8 {
                assert forall|j: int| 0 <= j < cur.drop_last().len() implies cur.drop_last()[j]
                    != 10u8 by {
                    assert(cur.drop_last()[j] == cur[j]);
                }
            }
        }
        assert forall|k: int| 0 <= k < all.len() implies no_byte(#[trigger] all[k], 10) by {
            if k > 0 {
                assert(all[k] == rest[k - 1]);
            }
        }
    } else {
        assert(no_byte(cur.push(s[i]), 10)) by {
            assert forall|j: int| 0 <= j < cur.push(s[i]).len() implies cur.push(s[i])[j]
                != 10u8 by {
                if j < cur.len() {
                    assert(cur.push(s[i])[j] == cur[j]);
                }
            }
        }
        lemma_lines_no_newline(s, i + 1, cur.push(s[i]));
        let all = lines_from(s, i, cur);
        let rest = lines_from(s, i + 1, cur.push(s[i]));
        assert(all == rest);
        assert forall|k: int| 0 <= k < all.len() implies no_byte(#[trigger] all[k], 10) by {
            assert(all[k] == rest[k]);
        }
    }
}

proof fn lemma_lines_scan(s: Seq<u8>, i: int, cur: Seq<u8>, m: int)
    requires
        0 <= i,
        0 <= m,
        i + m <= s.len(),
        forall|j: int| i <= j < i + m ==> s[j] != 10u8,
    ensures
        lines_from(s, i, cur) == lines_from(s, i + m, cur + s.subrange(i, i + m)),
    decreases m,
{
    if m == 0 {
        assert(cur + s.subrange(i, i) =~= cur);
    } else {
        lemma_lines_scan(s, i + 1, cur.push(s[i]), m - 1);
        assert(cur.push(s[i]) + s.subrange(i + 1, i + m) =~= cur + s.subrange(i, i + m));
    }
}

proof fn lemma_lines_shift(a: Seq<u8>, b: Seq<u8>, j: int, cur: Seq<u8>)
    requires
        0 <= j,
    ensures
        lines_from(a + b, a.len() + j, cur) == lines_from(b, j, cur),
    decreases b.len() - j,
{
    if j < b.len() {
        assert((a + b)[a.len() + j] == b[j]);
        if b[j] == 10u8 {
            lemma_lines_shift(a, b, j + 1, seq![]);
        } else {
            lemma_lines_shift(a, b, j + 1, cur.push(b[j]));
        }
    }
}

proof fn lemma_lines_cons(x: Seq<u8>, rest: Seq<u8>)
    requires
        no_byte(x, 10),
        no_byte(x, 13),
    ensures
        lines_of(x + seq![10u8] + rest) == seq![x] + lines_of(rest),
{
    let head = x + seq![10u8];
    let s = head + rest;
    assert forall|j: int| 0 <= j < x.len() implies s[j] != 10u8 by {
        assert(s[j] == x[j]);
    }
    lemma_lines_scan(s, 0, seq![], x.len() as int);
    assert(seq![] + s.subrange(0, x.len() as int) =~= x);
    assert(s[x.len() as int] == 10u8);
    if x.len() > 0 {
        assert(x.last() != 13u8);
    }
    assert(strip_cr(x) == x);
    lemma_lines_shift(head, rest, 0, seq![]);
}

proof fn lemma_lines_committed(f: Seq<char>, r: Seq<char>, ls: Seq<Seq<u8>>, k: int)
    requires
        0 <= k <= ls.len(),
        forall|j: int|
            0 <= j < ls.len() ==> no_byte(#[trigger] out_line(f, r, ls[j]), 10) && no_byte(
                out_line(f, r, ls[j]),
                13,
            ),
    ensures
        lines_of(committed_from(f, r, ls, k)) == ls.subrange(k, ls.len() as int).map_values(
            |l: Seq<u8>| out_line(f, r, l),
        ),
    decreases ls.len() - k,
{
    if k == ls.len() {
        assert(committed_from(f, r, ls, k) =~= Seq::<u8>::empty());
        assert(ls.subrange(k, ls.len() as int).map_values(|l: Seq<u8>| out_line(f, r, l))
            =~= Seq::<Seq<u8>>::empty());
    } else {
        lemma_lines_committed(f, r, ls, k + 1);
        let x = out_line(f, r, ls[k]);
        lemma_lines_cons(x, committed_from(f, r, ls, k + 1));
        assert(ls.subrange(k, ls.len() as int).map_values(|l: Seq<u8>| out_line(f, r, l)) =~= seq![
            x,
        ] + ls.subrange(k + 1, ls.len() as int).map_values(|l: Seq<u8>| out_line(f, r, l)));
    }
}

proof fn lemma_out_line_clean(p: Seq<char>, r: Seq<char>, l: Seq<u8>, b: u8)
    requires
        b < 0x80,
        no_byte(l, b),
        no_char(r, b),
    ensures
        no_byte(out_line(p, r, l), b),
{
    if valid_utf8(l) && contains(decode_utf8(l), p) {
        let d = decode_utf8(l);
        decode_utf8_encode_utf8(l);
        lemma_encode_ascii(d, b);
        lemma_replaced_no_char(d, p, r, 0, b);
        lemma_encode_ascii(replace_all(d, p, r), b);
    }
}

/// The line `l` is not valid UTF-8, or it does not contain the character `c`.
pub open spec fn free_of(l: Seq<u8>, c: char) -> bool {
    valid_utf8(l) ==> forall|i: int| 0 <= i < decode_utf8(l).len() ==> decode_utf8(l)[i] != c
}

proof fn lemma_out_line_round_trip(p: Seq<char>, r: Seq<char>, l: Seq<u8>)
    requires
        p.len() > 0,
        r.len() > 0,
        free_of(l, r[0]),
    ensures
        out_line(r, p, out_line(p, r, l)) == l,
{
    if valid_utf8(l) {
        let d = decode_utf8(l);
        decode_utf8_encode_utf8(l);
        if contains(d, p) {
            let t = replace_all(d, p, r);
            lemma_contains_after(d, p, r);
            lemma_round_trip_from(d, p, r);
        } else {
            if contains(d, r) {
                let i = choose|i: int| matches_at(d, r, i);
                assert(d.subrange(i, i + r.len())[0] == r[0]);
            }
        }
    }
}

/// Committing `find` to `replace` in a file that contains `find`, then `replace` back to
/// `find`, gives back the lines of the file, all ended by a line feed. This holds where
/// both texts are non-empty, `replace` holds no line feed or carriage return, no line of
/// the file holds a carriage return (one at the end of a line before a line feed is not
/// part of it), and the first character of `replace` occurs in no line of the file (else
/// the text that was there before would be substituted too). The second commit then has
/// its pattern in the file, so it succeeds.
pub proof fn lemma_commit_round_trip(content: Seq<u8>, find: Seq<char>, replace: Seq<char>)
    requires
        find.len() > 0,
        replace.len() > 0,
        no_char(replace, 10),
        no_char(replace, 13),
        forall|k: int|
            0 <= k < lines_of(content).len() ==> no_byte(#[trigger] lines_of(content)[k], 13),
        forall|k: int|
            0 <= k < lines_of(content).len() ==> free_of(#[trigger] lines_of(content)[k], replace[0]),
        has_match(lines_of(content), find),
    ensures
        has_match(lines_of(committed(find, replace, content)), replace),
        lines_of(committed(replace, find, committed(find, replace, content))) == lines_of(content),
{
    let ls = lines_of(content);
    lemma_lines_no_newline(content, 0, seq![]);
    assert forall|j: int| 0 <= j < ls.len() implies no_byte(
        #[trigger] out_line(find, replace, ls[j]),
        10,
    ) && no_byte(out_line(find, replace, ls[j]), 13) by {
        lemma_out_line_clean(find, replace, ls[j], 10);
        lemma_out_line_clean(find, replace, ls[j], 13);
    }
    lemma_lines_committed(find, replace, ls, 0);
    assert(ls.subrange(0, ls.len() as int) =~= ls);
    let ls1 = ls.map_values(|l: Seq<u8>| out_line(find, replace, l));
    assert(lines_of(committed(find, replace, content)) == ls1);
    assert forall|j: int| 0 <= j < ls1.len() implies out_line(replace, find, #[trigger] ls1[j])
        == ls[j] by {
        lemma_out_line_round_trip(find, replace, ls[j]);
    }
    assert forall|j: int| 0 <= j < ls1.len() implies no_byte(
        #[trigger] out_line(replace, find, ls1[j]),
        10,
    ) && no_byte(out_line(replace, find, ls1[j]), 13) by {
        assert(out_line(replace, find, ls1[j]) == ls[j]);
    }
    lemma_lines_committed(replace, find, ls1, 0);
    assert(ls1.subrange(0, ls1.len() as int) =~= ls1);
    assert(ls1.map_values(|l: Seq<u8>| out_line(replace, find, l)) =~= ls);
    let k = choose|k: int|
        0 <= k < ls.len() && valid_utf8(#[trigger] ls[k]) && contains(decode_utf8(ls[k]), find);
    let t = replace_all(decode_utf8(ls[k]), find, replace);
    lemma_contains_after(decode_utf8(ls[k]), find, replace);
    assert(ls1[k] == encode_utf8(t));
    assert(valid_utf8(ls1[k]) && contains(decode_utf8(ls1[k]), replace));
}

} // verus!

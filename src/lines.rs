use vstd::prelude::*;
use vstd::utf8::{decode_utf8, valid_utf8};

verus! {

/// `l` without one carriage return at its end.
pub open spec fn strip_cr(l: Seq<u8>) -> Seq<u8> {
    if l.len() > 0 && l.last() == 13u8 {
        l.drop_last()
    } else {
        l
    }
}

/// The lines of `s` from position `i` on, `cur` being the part of the current line
/// already read. A line ends at a line feed, which is not part of it, nor is a carriage
/// return just before it; the last line needs no line feed, and an empty text has none.
pub open spec fn lines_from(s: Seq<u8>, i: int, cur: Seq<u8>) -> Seq<Seq<u8>>
    decreases s.len() - i,
{
    if i < 0 || i >= s.len() {
        if cur.len() == 0 {
            seq![]
        } else {
            seq![cur]
        }
    } else if s[i] == 10u8 {
        seq![strip_cr(cur)] + lines_from(s, i + 1, seq![])
    } else {
        lines_from(s, i + 1, cur.push(s[i]))
    }
}

/// The lines of the text `s`.
pub open spec fn lines_of(s: Seq<u8>) -> Seq<Seq<u8>> {
    lines_from(s, 0, seq![])
}

/// What a line reads as: its characters, or nothing where it is not valid UTF-8.
pub open spec fn line_text(l: Seq<u8>) -> Seq<char> {
    if valid_utf8(l) {
        decode_utf8(l)
    } else {
        seq![]
    }
}

/// The views of a sequence of byte vectors.
pub open spec fn byte_views(v: Seq<Vec<u8>>) -> Seq<Seq<u8>> {
    v.map_values(|x: Vec<u8>| x@)
}

/// Relies on `std::str::from_utf8`: it accepts exactly the valid UTF-8 byte sequences,
/// and the string then holds the characters that they encode.
#[verifier::external_body]
pub(crate) fn decode_line(b: &[u8]) -> (r: Option<String>)
    ensures
        r is Some <==> valid_utf8(b@),
        r is Some ==> r->0@ == decode_utf8(b@),
{
    match std::str::from_utf8(b) {
        Ok(s) => Some(s.to_string()),
        Err(_) => None,
    }
}

/// What the line `b` reads as: its characters, or the empty string where it is not
/// valid UTF-8.
pub fn read_line(b: &[u8]) -> (r: String)
    ensures
        r@ == line_text(b@),
{
    match decode_line(b) {
        Some(s) => s,
        None => String::new(),
    }
}

fn without_cr(cur: Vec<u8>) -> (r: Vec<u8>)
    ensures
        r@ == strip_cr(cur@),
{
    let mut cur = cur;
    if cur.len() > 0 && cur[cur.len() - 1] == 13u8 {
        cur.pop();
    }
    cur
}

/// Splits `s` into its lines.
pub fn split_lines(s: &[u8]) -> (r: Vec<Vec<u8>>)
    ensures
        byte_views(r@) == lines_of(s@),
{
    let mut out: Vec<Vec<u8>> = Vec::new();
    let mut cur: Vec<u8> = Vec::new();
    let mut i: usize = 0;
    while i < s.len()
        invariant
            i <= s@.len(),
            byte_views(out@) + lines_from(s@, i as int, cur@) == lines_of(s@),
        decreases s.len() - i,
    {
        if s[i] == 10u8 {
            let ghost before = byte_views(out@);
            let ghost old_cur = cur@;
            let line = without_cr(cur);
            out.push(line);
            cur = Vec::new();
            proof {
                assert(byte_views(out@) =~= before + seq![strip_cr(old_cur)]);
                assert(before + lines_from(s@, i as int, old_cur) =~= byte_views(out@)
                    + lines_from(s@, i + 1, cur@));
            }
        } else {
            cur.push(s[i]);
        }
        i = i + 1;
    }
    let ghost before = byte_views(out@);
    if cur.len() > 0 {
        out.push(cur);
        proof {
            assert(byte_views(out@) =~= before + lines_from(s@, i as int, cur@));
        }
    } else {
        proof {
            assert(byte_views(out@) =~= before + lines_from(s@, i as int, cur@));
        }
    }
    out
}

} // verus!

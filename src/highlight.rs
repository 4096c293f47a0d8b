use vstd::prelude::*;

use crate::text::{chars_of, extend_chars, matches_at, occurs_at, string_of};

verus! {

/// The text that opens a highlighted occurrence.
pub open spec fn open_mark() -> Seq<char> {
    "**["@
}

/// The text that closes a highlighted occurrence.
pub open spec fn close_mark() -> Seq<char> {
    "](https://en.wikipedia.org)**"@
}

/// The views of a sequence of character vectors.
pub open spec fn views(v: Seq<Vec<char>>) -> Seq<Seq<char>> {
    v.map_values(|x: Vec<char>| x@)
}

/// Scans `s` from position `i` for `p`, with `lit` the literal text gathered since the
/// last occurrence. The result alternates literal text and occurrences of `p`, starting
/// and ending with literal text.
pub open spec fn split_marks(p: Seq<char>, s: Seq<char>, i: int, lit: Seq<char>) -> Seq<Seq<char>>
    decreases s.len() - i,
{
    if i < 0 || i >= s.len() {
        seq![lit]
    } else if p.len() == 0 {
        seq![lit + s.subrange(i, s.len() as int)]
    } else if matches_at(s, p, i) {
        seq![lit, p] + split_marks(p, s, i + p.len(), seq![])
    } else {
        split_marks(p, s, i + 1, lit.push(s[i]))
    }
}

/// The pieces of `s` with the non-overlapping occurrences of `p`, leftmost first, at
/// the odd positions.
pub open spec fn marks(p: Seq<char>, s: Seq<char>) -> Seq<Seq<char>> {
    split_marks(p, s, 0, seq![])
}

/// The pieces one after the other, with the odd ones wrapped in the marks.
pub open spec fn rendered(pieces: Seq<Seq<char>>) -> Seq<char>
    decreases pieces.len(),
{
    if pieces.len() == 0 {
        seq![]
    } else if pieces.len() == 1 {
        pieces[0]
    } else {
        pieces[0] + open_mark() + pieces[1] + close_mark() + rendered(
            pieces.subrange(2, pieces.len() as int),
        )
    }
}

/// The pieces one after the other, without any marks.
pub open spec fn joined(pieces: Seq<Seq<char>>) -> Seq<char>
    decreases pieces.len(),
{
    if pieces.len() == 0 {
        seq![]
    } else {
        pieces[0] + joined(pieces.drop_first())
    }
}

/// `s` with each non-overlapping occurrence of `p` wrapped in the marks.
pub open spec fn highlighted(p: Seq<char>, s: Seq<char>) -> Seq<char> {
    rendered(marks(p, s))
}

proof fn lemma_joined_split(p: Seq<char>, s: Seq<char>, i: int, lit: Seq<char>)
    requires
        0 <= i <= s.len(),
    ensures
        joined(split_marks(p, s, i, lit)) == lit + s.subrange(i, s.len() as int),
    decreases s.len() - i,
{
    let pieces = split_marks(p, s, i, lit);
    if i >= s.len() {
        assert(pieces.drop_first() =~= seq![]);
        assert(joined(pieces.drop_first()) =~= seq![]);
        assert(lit + s.subrange(i, s.len() as int) =~= lit);
        assert(joined(pieces) =~= lit);
    } else if p.len() == 0 {
        assert(pieces.drop_first() =~= seq![]);
        assert(joined(pieces.drop_first()) =~= seq![]);
        assert(joined(pieces) =~= pieces[0]);
    } else if matches_at(s, p, i) {
        let rest = split_marks(p, s, i + p.len(), seq![]);
        lemma_joined_split(p, s, i + p.len(), seq![]);
        assert(pieces.drop_first() =~= seq![p] + rest);
        assert((seq![p] + rest).drop_first() =~= rest);
        assert(joined(seq![p] + rest) == p + joined(rest));
        assert(s.subrange(i, s.len() as int) =~= p + s.subrange(i + p.len(), s.len() as int));
        assert(joined(pieces) =~= lit + s.subrange(i, s.len() as int));
    } else {
        lemma_joined_split(p, s, i + 1, lit.push(s[i]));
        assert(lit.push(s[i]) + s.subrange(i + 1, s.len() as int) =~= lit + s.subrange(
            i,
            s.len() as int,
        ));
    }
}

/// Stripping the marks from a highlighted line gives the line back, so highlighting that
/// again gives the same pieces and the same rendering: highlighting depends on the
/// pattern and the line alone.
pub proof fn lemma_highlight_stable(p: Seq<char>, s: Seq<char>)
    ensures
        joined(marks(p, s)) == s,
        marks(p, joined(marks(p, s))) == marks(p, s),
        highlighted(p, joined(marks(p, s))) == highlighted(p, s),
{
    lemma_joined_split(p, s, 0, seq![]);
    assert(seq![] + s.subrange(0, s.len() as int) =~= s);
}

/// A line cut into literal text and the occurrences of a pattern: the pieces alternate,
/// starting and ending with literal text, so the occurrences stand at the odd positions.
pub struct MarkedLine {
    pieces: Vec<Vec<char>>,
}

impl View for MarkedLine {
    type V = Seq<Seq<char>>;

    closed spec fn view(&self) -> Seq<Seq<char>> {
        views(self.pieces@)
    }
}

/// Cuts `line` at every non-overlapping occurrence of `pattern`, leftmost first.
pub fn highlight(pattern: &str, line: &str) -> (r: MarkedLine)
    ensures
        r@ == marks(pattern@, line@),
{
    let s = chars_of(line);
    let p = chars_of(pattern);
    let mut pieces: Vec<Vec<char>> = Vec::new();
    let mut lit: Vec<char> = Vec::new();
    if p.len() == 0 {
        extend_chars(&mut lit, &s);
        pieces.push(lit);
        proof {
            assert(views(pieces@) =~= seq![s@]);
            if s@.len() > 0 {
                assert(s@.subrange(0, s@.len() as int) =~= s@);
            } else {
                assert(s@ =~= seq![]);
            }
        }
        return MarkedLine { pieces };
    }
    let mut i: usize = 0;
    while i < s.len()
        invariant
            p@.len() > 0,
            i <= s@.len(),
            views(pieces@) + split_marks(p@, s@, i as int, lit@) == marks(p@, s@),
        decreases s.len() - i,
    {
        if occurs_at(&s, &p, i) {
            let ghost before = views(pieces@);
            let ghost old_lit = lit@;
            pieces.push(lit);
            pieces.push(p.clone());
            lit = Vec::new();
            proof {
                assert(views(pieces@) =~= before + seq![old_lit, p@]);
                assert(before + split_marks(p@, s@, i as int, old_lit) =~= views(pieces@)
                    + split_marks(p@, s@, i + p@.len(), lit@));
            }
            i = i + p.len();
        } else {
            lit.push(s[i]);
            i = i + 1;
        }
    }
    let ghost before = views(pieces@);
    pieces.push(lit);
    proof {
        assert(views(pieces@) =~= before + split_marks(p@, s@, i as int, lit@));
    }
    MarkedLine { pieces }
}

impl MarkedLine {
    /// The line with each occurrence wrapped in the marks.
    pub fn render(&self) -> (r: String)
        ensures
            r@ == rendered(self@),
    {
        let open: Vec<char> = chars_of("**[");
        let close: Vec<char> = chars_of("](https://en.wikipedia.org)**");
        let n = self.pieces.len();
        let mut out: Vec<char> = Vec::new();
        let mut k: usize = 0;
        proof {
            assert(self@.subrange(0, n as int) =~= self@);
            assert(out@ + rendered(self@) =~= rendered(self@));
        }
        while k < n
            invariant
                n == self.pieces@.len(),
                k <= n,
                open@ == open_mark(),
                close@ == close_mark(),
                out@ + rendered(self@.subrange(k as int, n as int)) == rendered(self@),
            decreases n - k,
        {
            let ghost before = out@;
            let ghost rest = self@.subrange(k as int, n as int);
            if k + 1 < n {
                extend_chars(&mut out, &self.pieces[k]);
                extend_chars(&mut out, &open);
                extend_chars(&mut out, &self.pieces[k + 1]);
                extend_chars(&mut out, &close);
                proof {
                    assert(rest.subrange(2, rest.len() as int) =~= self@.subrange(
                        k + 2,
                        n as int,
                    ));
                    assert(before + rendered(rest) =~= out@ + rendered(
                        self@.subrange(k + 2, n as int),
                    ));
                }
                k = k + 2;
            } else {
                extend_chars(&mut out, &self.pieces[k]);
                proof {
                    assert(self@.subrange(k + 1, n as int) =~= seq![]);
                    assert(before + rendered(rest) =~= out@ + rendered(
                        self@.subrange(k + 1, n as int),
                    ));
                }
                k = k + 1;
            }
        }
        proof {
            assert(self@.subrange(n as int, n as int) =~= seq![]);
            assert(self@.subrange(0, n as int) =~= self@);
        }
        string_of(&out)
    }

    /// The line itself, with the marks stripped.
    pub fn plain(&self) -> (r: String)
        ensures
            r@ == joined(self@),
    {
        let n = self.pieces.len();
        let mut out: Vec<char> = Vec::new();
        let mut k: usize = 0;
        proof {
            assert(self@.subrange(0, n as int) =~= self@);
            assert(out@ + joined(self@) =~= joined(self@));
        }
        while k < n
            invariant
                n == self.pieces@.len(),
                k <= n,
                out@ + joined(self@.subrange(k as int, n as int)) == joined(self@),
            decreases n - k,
        {
            let ghost before = out@;
            let ghost rest = self@.subrange(k as int, n as int);
            extend_chars(&mut out, &self.pieces[k]);
            proof {
                assert(rest.drop_first() =~= self@.subrange(k + 1, n as int));
                assert(before + joined(rest) =~= out@ + joined(self@.subrange(k + 1, n as int)));
            }
            k = k + 1;
        }
        proof {
            assert(self@.subrange(n as int, n as int) =~= seq![]);
            assert(self@.subrange(0, n as int) =~= self@);
        }
        string_of(&out)
    }
}

/// `line` with each non-overlapping occurrence of `pattern`, leftmost first, wrapped in
/// the marks; the text around the occurrences is kept as it is.
pub fn highlight_pattern(pattern: &str, line: &str) -> (r: String)
    ensures
        r@ == highlighted(pattern@, line@),
{
    highlight(pattern, line).render()
}

} // verus!

use vstd::prelude::*;
use vstd::utf8::valid_utf8;

use crate::highlight::{highlight_pattern, highlighted};
use crate::lines::{byte_views, decode_line, line_text, lines_of, split_lines};
use crate::text::{
    chars_of, contains, contains_at_all, extend_chars, replace_all, replace_chars, string_of,
};

verus! {

/// The decimal digit `d`.
pub open spec fn digit(d: nat) -> char {
    seq!['0', '1', '2', '3', '4', '5', '6', '7', '8', '9'][d as int]
}

/// `n` written in decimal, without leading zeros.
pub open spec fn decimal(n: nat) -> Seq<char>
    decreases n,
{
    if n < 10 {
        seq![digit(n)]
    } else {
        decimal(n / 10).push(digit(n % 10))
    }
}

/// The block shown for one matching line: its number, the line with `find` highlighted,
/// and the line after the substitution with `replace` highlighted.
pub open spec fn display(find: Seq<char>, replace: Seq<char>, line: Seq<char>, n: nat) -> Seq<
    char,
> {
    decimal(n) + ": \n\n"@ + highlighted(find, line) + "\n\n => "@ + highlighted(
        replace,
        replace_all(line, find, replace),
    ) + "\n\n"@
}

/// The blocks of the lines from index `k` on that contain `find`, in order; the first
/// line is number 1.
pub open spec fn blocks_from(find: Seq<char>, replace: Seq<char>, lines: Seq<Seq<char>>, k: int) -> Seq<
    char,
>
    decreases lines.len() - k,
{
    if k < 0 || k >= lines.len() {
        seq![]
    } else {
        (if contains(lines[k], find) {
            display(find, replace, lines[k], (k + 1) as nat)
        } else {
            seq![]
        }) + blocks_from(find, replace, lines, k + 1)
    }
}

/// Some line contains `find`.
pub open spec fn any_line_contains(lines: Seq<Seq<char>>, find: Seq<char>) -> bool {
    exists|k: int| 0 <= k < lines.len() && contains(#[trigger] lines[k], find)
}

/// The header that names a file in a report.
pub open spec fn header(path: Seq<char>) -> Seq<char> {
    "\n\n\n### File: '"@ + path + "'\n\n\n"@
}

/// The report for a file with the given lines: empty where no line contains `find`, else
/// the header and the block of each matching line.
pub open spec fn file_report(
    find: Seq<char>,
    replace: Seq<char>,
    path: Seq<char>,
    lines: Seq<Seq<char>>,
) -> Seq<char> {
    if any_line_contains(lines, find) {
        header(path) + blocks_from(find, replace, lines, 0)
    } else {
        seq![]
    }
}

/// What the lines of a file read as.
pub open spec fn texts(lines: Seq<Seq<u8>>) -> Seq<Seq<char>> {
    lines.map_values(|l: Seq<u8>| line_text(l))
}

/// The numbers of the lines from index `k` on that are not valid UTF-8, in order.
pub open spec fn bad_from(lines: Seq<Seq<u8>>, k: int) -> Seq<usize>
    decreases lines.len() - k,
{
    if k < 0 || k >= lines.len() {
        seq![]
    } else {
        (if valid_utf8(lines[k]) {
            seq![]
        } else {
            seq![(k + 1) as usize]
        }) + bad_from(lines, k + 1)
    }
}

fn push_decimal(out: &mut Vec<char>, n: usize)
    ensures
        final(out)@ == old(out)@ + decimal(n as nat),
    decreases n,
{
    let digits: [char; 10] = ['0', '1', '2', '3', '4', '5', '6', '7', '8', '9'];
    proof {
        assert(digits@ =~= seq!['0', '1', '2', '3', '4', '5', '6', '7', '8', '9']);
    }
    if n >= 10 {
        push_decimal(out, n / 10);
    }
    out.push(digits[n % 10]);
    proof {
        if n < 10 {
            assert(old(out)@ + decimal(n as nat) =~= old(out)@.push(digit(n as nat)));
        } else {
            assert(old(out)@ + decimal(n as nat) =~= (old(out)@ + decimal((n / 10) as nat)).push(
                digit((n % 10) as nat),
            ));
        }
    }
}

/// The block shown for line number `line_num`: the number, `line` with `find`
/// highlighted, and `line` after the substitution with `replace` highlighted.
pub fn display_line(find: &str, replace: &str, line: &str, line_num: usize) -> (r: String)
    ensures
        r@ == display(find@, replace@, line@, line_num as nat),
{
    let mut out: Vec<char> = Vec::new();
    push_decimal(&mut out, line_num);
    extend_chars(&mut out, &chars_of(": \n\n"));
    let old_line = highlight_pattern(find, line);
    extend_chars(&mut out, &chars_of(old_line.as_str()));
    let new_line = string_of(&replace_chars(&chars_of(line), &chars_of(find), &chars_of(replace)));
    extend_chars(&mut out, &chars_of("\n\n => "));
    let shown = highlight_pattern(replace, new_line.as_str());
    extend_chars(&mut out, &chars_of(shown.as_str()));
    extend_chars(&mut out, &chars_of("\n\n"));
    proof {
        assert(out@ =~= display(find@, replace@, line@, line_num as nat));
    }
    string_of(&out)
}

/// The preview of one file.
pub struct FilePreview {
    /// The report: empty where no line contains the pattern.
    pub report: String,
    /// The numbers of the lines that are not valid UTF-8; they were read as empty.
    pub undecodable: Vec<usize>,
}

/// Previews replacing `find_pat` by `replace` in the file at `path` whose content is
/// `content`, without changing anything.
pub fn find(find_pat: &str, replace: &str, path: &str, content: &[u8]) -> (r: FilePreview)
    ensures
        r.report@ == file_report(find_pat@, replace@, path@, texts(lines_of(content@))),
        r.undecodable@ == bad_from(lines_of(content@), 0),
{
    let lines = split_lines(content);
    let ghost ls = lines_of(content@);
    let ghost ts = texts(ls);
    let n = lines.len();
    proof {
        assert(byte_views(lines@).len() == n);
    }
    let mut blocks: Vec<char> = Vec::new();
    let mut bad: Vec<usize> = Vec::new();
    let mut found = false;
    let mut k: usize = 0;
    while k < n
        invariant
            n == lines@.len(),
            n == ls.len(),
            ts == texts(ls),
            byte_views(lines@) == ls,
            k <= n,
            blocks@ + blocks_from(find_pat@, replace@, ts, k as int) == blocks_from(
                find_pat@,
                replace@,
                ts,
                0,
            ),
            bad@ + bad_from(ls, k as int) == bad_from(ls, 0),
            found <==> exists|j: int| 0 <= j < k && contains(#[trigger] ts[j], find_pat@),
        decreases n - k,
    {
        let ghost before = blocks@;
        let ghost bad_before = bad@;
        assert(lines@[k as int]@ == ls[k as int]);
        let text = match decode_line(&lines[k]) {
            Some(t) => t,
            None => {
                bad.push(k + 1);
                String::new()
            },
        };
        proof {
            assert(bad_before + bad_from(ls, k as int) =~= bad@ + bad_from(ls, k + 1));
        }
        if contains_at_all(&chars_of(text.as_str()), &chars_of(find_pat)) {
            found = true;
            let block = display_line(find_pat, replace, text.as_str(), k + 1);
            extend_chars(&mut blocks, &chars_of(block.as_str()));
        }
        proof {
            assert(ts[k as int] == text@);
            assert(before + blocks_from(find_pat@, replace@, ts, k as int) =~= blocks@ + blocks_from(
                find_pat@,
                replace@,
                ts,
                k + 1,
            ));
        }
        k = k + 1;
    }
    proof {
        assert(bad@ =~= bad_from(ls, 0));
        assert(blocks@ =~= blocks_from(find_pat@, replace@, ts, 0));
    }
    let mut report: Vec<char> = Vec::new();
    if found {
        extend_chars(&mut report, &chars_of("\n\n\n### File: '"));
        extend_chars(&mut report, &chars_of(path));
        extend_chars(&mut report, &chars_of("'\n\n\n"));
        extend_chars(&mut report, &blocks);
        proof {
            assert(report@ =~= header(path@) + blocks_from(find_pat@, replace@, ts, 0));
        }
    } else {
        proof {
            assert(!any_line_contains(ts, find_pat@));
        }
    }
    FilePreview { report: string_of(&report), undecodable: bad }
}

} // verus!

//! Text: decimal numbers, and templates with placeholders.

use vstd::prelude::*;

verus! {

/// The character of a digit below ten.
pub open spec fn digit(d: int) -> char {
    if d == 0 {
        '0'
    } else if d == 1 {
        '1'
    } else if d == 2 {
        '2'
    } else if d == 3 {
        '3'
    } else if d == 4 {
        '4'
    } else if d == 5 {
        '5'
    } else if d == 6 {
        '6'
    } else if d == 7 {
        '7'
    } else if d == 8 {
        '8'
    } else {
        '9'
    }
}

/// The decimal notation of `n`, without leading zeros.
pub open spec fn decimal_of(n: nat) -> Seq<char>
    decreases n,
{
    if n < 10 {
        seq![digit(n as int)]
    } else {
        decimal_of(n / 10).push(digit((n % 10) as int))
    }
}

/// Writes `n` in decimal notation.
pub fn decimal(n: usize) -> (r: String)
    ensures
        r@ == decimal_of(n as nat),
    decreases n,
{
    let mut text: String = if n < 10 {
        String::new()
    } else {
        decimal(n / 10)
    };
    let d: usize = n % 10;
    proof {
        reveal_strlit("0");
        reveal_strlit("1");
        reveal_strlit("2");
        reveal_strlit("3");
        reveal_strlit("4");
        reveal_strlit("5");
        reveal_strlit("6");
        reveal_strlit("7");
        reveal_strlit("8");
        reveal_strlit("9");
    }
    let last: &str = if d == 0 {
        "0"
    } else if d == 1 {
        "1"
    } else if d == 2 {
        "2"
    } else if d == 3 {
        "3"
    } else if d == 4 {
        "4"
    } else if d == 5 {
        "5"
    } else if d == 6 {
        "6"
    } else if d == 7 {
        "7"
    } else if d == 8 {
        "8"
    } else {
        "9"
    };
    assert(last@ =~= seq![digit(d as int)]);
    text.append(last);
    assert(text@ =~= decimal_of(n as nat));
    text
}

/// The text with every occurrence of `pattern` replaced by `value`, where
/// occurrences are looked for from the left and do not overlap.
pub open spec fn replaced(text: Seq<char>, pattern: Seq<char>, value: Seq<char>) -> Seq<char>
    decreases text.len(),
{
    if text.len() < pattern.len() || pattern.len() == 0 {
        text
    } else if pattern.is_prefix_of(text) {
        value + replaced(text.skip(pattern.len() as int), pattern, value)
    } else {
        seq![text[0]] + replaced(text.skip(1), pattern, value)
    }
}

/// Lists the characters of a text.
fn characters(text: &str) -> (r: Vec<char>)
    ensures
        r@ == text@,
{
    let mut chars: Vec<char> = Vec::new();
    for c in it: text.chars()
        invariant
            chars@ == it.seq().take(it.index()),
            it.seq() == text@,
    {
        chars.push(c);
    }
    chars
}

/// Whether the text `pattern` stands at position `at` of `chars`.
fn stands_at(chars: &Vec<char>, at: usize, pattern: &Vec<char>) -> (r: bool)
    requires
        at <= chars.len(),
    ensures
        r == pattern@.is_prefix_of(chars@.skip(at as int)),
{
    if chars.len() - at < pattern.len() {
        return false;
    }
    for i in 0..pattern.len()
        invariant
            at + pattern.len() <= chars.len(),
            forall|j: int| 0 <= j < i ==> pattern@[j] == chars@[at + j],
    {
        if chars[at + i] != pattern[i] {
            assert(chars@.skip(at as int)[i as int] != pattern@[i as int]);
            return false;
        }
    }
    assert(pattern@ =~= chars@.skip(at as int).take(pattern.len() as int));
    true
}

/// Replaces every occurrence of `pattern` by `value`.
pub fn replace_all(text: &str, pattern: &str, value: &str) -> (r: String)
    requires
        pattern@.len() > 0,
    ensures
        r@ == replaced(text@, pattern@, value@),
{
    let chars: Vec<char> = characters(text);
    let wanted: Vec<char> = characters(pattern);
    let mut out: String = String::new();
    let mut copied: usize = 0;
    let mut at: usize = 0;
    assert(text@.skip(0) =~= text@);
    while at < chars.len()
        invariant
            chars@ == text@,
            wanted@ == pattern@,
            pattern@.len() > 0,
            copied <= at <= chars.len(),
            replaced(text@, pattern@, value@) == out@ + text@.subrange(copied as int, at as int)
                + replaced(text@.skip(at as int), pattern@, value@),
        decreases chars.len() - at,
    {
        let ghost rest = text@.skip(at as int);
        if stands_at(&chars, at, &wanted) {
            out.append(text.substring_char(copied, at));
            out.append(value);
            at = at + wanted.len();
            copied = at;
            assert(text@.skip(at as int) =~= rest.skip(pattern@.len() as int));
            assert(text@.subrange(copied as int, at as int) =~= Seq::<char>::empty());
            assert(replaced(text@, pattern@, value@) =~= out@ + text@.subrange(
                copied as int,
                at as int,
            ) + replaced(text@.skip(at as int), pattern@, value@));
        } else {
            proof {
                assert(text@.skip(at + 1) =~= rest.skip(1));
                assert(text@.subrange(copied as int, at + 1) =~= text@.subrange(
                    copied as int,
                    at as int,
                ) + seq![rest[0]]);
                if rest.len() < pattern@.len() {
                    assert(rest =~= seq![rest[0]] + rest.skip(1));
                }
                assert(replaced(rest, pattern@, value@) =~= seq![rest[0]] + replaced(
                    rest.skip(1),
                    pattern@,
                    value@,
                ));
                assert(replaced(text@, pattern@, value@) =~= out@ + text@.subrange(
                    copied as int,
                    at + 1,
                ) + replaced(text@.skip(at + 1), pattern@, value@));
            }
            at = at + 1;
        }
    }
    out.append(text.substring_char(copied, at));
    assert(text@.skip(at as int) =~= Seq::<char>::empty());
    assert(out@ =~= replaced(text@, pattern@, value@));
    out
}

/// Where the first line of `text` ends: at the first line feed, or at the end.
pub open spec fn line_end(text: Seq<char>) -> int
    decreases text.len(),
{
    if text.len() == 0 || text[0] == '\n' {
        0
    } else {
        1 + line_end(text.skip(1))
    }
}

/// The first line of `text` without its line ending, which is a line feed or a
/// carriage return followed by a line feed.
pub open spec fn first_line(text: Seq<char>) -> Seq<char> {
    let end = line_end(text);
    if 0 < end < text.len() && text[end - 1] == '\r' {
        text.take(end - 1)
    } else {
        text.take(end)
    }
}

/// What follows the first line of `text`.
pub open spec fn after_first_line(text: Seq<char>) -> Seq<char> {
    let end = line_end(text);
    if end < text.len() {
        text.skip(end + 1)
    } else {
        seq![]
    }
}

/// The line end lies within the text.
pub(crate) proof fn lemma_line_end(text: Seq<char>)
    ensures
        0 <= line_end(text) <= text.len(),
        forall|i: int| 0 <= i < line_end(text) ==> text[i] != '\n',
        line_end(text) < text.len() ==> text[line_end(text)] == '\n',
    decreases text.len(),
{
    if text.len() > 0 && text[0] != '\n' {
        let rest = text.skip(1);
        lemma_line_end(rest);
        assert forall|i: int| 0 <= i < line_end(text) implies text[i] != '\n' by {
            if i > 0 {
                assert(rest[i - 1] == text[i]);
            }
        }
        if line_end(text) < text.len() {
            assert(rest[line_end(rest)] == text[line_end(text)]);
        }
    }
}

/// A position that ends the first line is where the first line ends.
pub(crate) proof fn lemma_line_end_unique(text: Seq<char>, end: int)
    requires
        0 <= end <= text.len(),
        forall|i: int| 0 <= i < end ==> text[i] != '\n',
        end < text.len() ==> text[end] == '\n',
    ensures
        line_end(text) == end,
{
    lemma_line_end(text);
}

/// The lines of `text` from line number `skip` on, each ended by a line feed.
pub open spec fn lines_from(text: Seq<char>, skip: nat) -> Seq<char>
    decreases text.len(), skip,
    via lines_from_decreases
{
    if text.len() == 0 {
        seq![]
    } else if skip > 0 {
        lines_from(after_first_line(text), (skip - 1) as nat)
    } else {
        first_line(text).push('\n') + lines_from(after_first_line(text), 0)
    }
}

#[via_fn]
proof fn lines_from_decreases(text: Seq<char>, skip: nat) {
    lemma_line_end(text);
}

/// Drops the first `skip` lines of `text` and ends every other one with a line
/// feed.
pub fn drop_lines(text: &str, skip: usize) -> (r: String)
    ensures
        r@ == lines_from(text@, skip as nat),
{
    let chars: Vec<char> = characters(text);
    let mut out: String = String::new();
    let mut start: usize = 0;
    let mut left: usize = skip;
    assert(text@.skip(0) =~= text@);
    while start < chars.len()
        invariant
            chars@ == text@,
            start <= chars.len(),
            lines_from(text@, skip as nat) == out@ + lines_from(
                text@.skip(start as int),
                left as nat,
            ),
        decreases chars.len() - start,
    {
        let ghost rest = text@.skip(start as int);
        let mut end: usize = start;
        while end < chars.len() && chars[end] != '\n'
            invariant
                chars@ == text@,
                start <= end <= chars.len(),
                forall|i: int| start <= i < end ==> chars@[i] != '\n',
            decreases chars.len() - end,
        {
            end = end + 1;
        }
        proof {
            lemma_line_end_unique(rest, end - start);
        }
        let next: usize = if end < chars.len() {
            end + 1
        } else {
            end
        };
        assert(after_first_line(rest) =~= text@.skip(next as int));
        if left > 0 {
            left = left - 1;
        } else {
            let shown: usize = if start < end && end < chars.len() && chars[end - 1] == '\r' {
                end - 1
            } else {
                end
            };
            proof {
                reveal_strlit("\n");
                assert(first_line(rest) =~= text@.subrange(start as int, shown as int));
                assert(first_line(rest).push('\n') =~= first_line(rest) + "\n"@);
            }
            let ghost before = out@;
            out.append(text.substring_char(start, shown));
            out.append("\n");
            assert(out@ =~= before + first_line(rest).push('\n'));
            assert(before + (first_line(rest).push('\n') + lines_from(text@.skip(next as int), 0))
                =~= out@ + lines_from(text@.skip(next as int), 0));
        }
        start = next;
    }
    assert(text@.skip(start as int) =~= Seq::<char>::empty());
    assert(out@ =~= lines_from(text@, skip as nat));
    out
}

} // verus!

//! Theorems about decimal numbers and lines.

use vstd::prelude::*;

use super::kernel::{is_digit, lemma_decimal_digits};
use crate::text::{
    after_first_line, decimal_of, digit, first_line, lemma_line_end, lemma_line_end_unique,
    line_end, lines_from, replaced,
};

verus! {

/// The number that a row of digits stands for.
pub open spec fn number_of(digits: Seq<char>) -> int
    decreases digits.len(),
{
    if digits.len() == 0 {
        0
    } else {
        10 * number_of(digits.drop_last()) + (digits.last() as int - '0' as int)
    }
}

/// The decimal notation of a number consists of digits, stands for the number, and
/// begins with a zero for the number zero only.
pub proof fn decimal_reads_back(n: nat)
    ensures
        forall|i: int| 0 <= i < decimal_of(n).len() ==> is_digit(#[trigger] decimal_of(n)[i]),
        number_of(decimal_of(n)) == n,
        decimal_of(n).len() > 0,
        n > 0 ==> decimal_of(n)[0] != '0',
        n == 0 ==> decimal_of(n).len() == 1,
    decreases n,
{
    lemma_decimal_digits(n);
    let text = decimal_of(n);
    assert forall|d: int| 0 <= d < 10 implies #[trigger] digit(d) as int - '0' as int == d by {}
    if n >= 10 {
        decimal_reads_back(n / 10);
        assert(text.drop_last() =~= decimal_of(n / 10));
        assert(text.last() == digit((n % 10) as int));
        assert(text[0] == decimal_of(n / 10)[0]);
    } else {
        assert(text.drop_last() =~= Seq::<char>::empty());
        assert(number_of(text.drop_last()) == 0);
        assert(text.last() == digit(n as int));
    }
}

/// How a pattern is replaced: where it stands at the front of a text, by the value,
/// and everywhere else the text is kept. What has been replaced is not looked at
/// again.
pub proof fn front_is_replaced(
    text: Seq<char>,
    rest: Seq<char>,
    pattern: Seq<char>,
    value: Seq<char>,
    c: char,
)
    requires
        pattern.len() > 0,
    ensures
        replaced(Seq::<char>::empty(), pattern, value) == Seq::<char>::empty(),
        text == pattern + rest ==> replaced(text, pattern, value) == value + replaced(
            rest,
            pattern,
            value,
        ),
        text == seq![c] + rest && !(text.len() >= pattern.len() && text.take(pattern.len() as int)
            == pattern) ==> replaced(text, pattern, value) == seq![c] + replaced(
            rest,
            pattern,
            value,
        ),
{
    if text == pattern + rest {
        assert(text.take(pattern.len() as int) =~= pattern);
        assert(text.skip(pattern.len() as int) =~= rest);
        assert(pattern.is_prefix_of(text));
    }
    if text == seq![c] + rest && !(text.len() >= pattern.len() && text.take(pattern.len() as int)
        == pattern) {
        assert(text[0] == c);
        assert(text.skip(1) =~= rest);
        if pattern.is_prefix_of(text) {
            assert(text.take(pattern.len() as int) =~= pattern);
        }
    }
}

/// Lines from line number `from` on, each with a line feed behind it.
pub open spec fn joined(lines: Seq<Seq<char>>, from: int) -> Seq<char>
    decreases lines.len() - from,
{
    if from < 0 || from >= lines.len() {
        seq![]
    } else {
        lines[from].push('\n') + joined(lines, from + 1)
    }
}

/// Whether a character stands nowhere in a text.
pub open spec fn lacks(text: Seq<char>, c: char) -> bool {
    forall|i: int| 0 <= i < text.len() ==> #[trigger] text[i] != c
}

/// The first line of a text that begins with `line` and a line feed.
proof fn lemma_first_line(line: Seq<char>, rest: Seq<char>)
    requires
        lacks(line, '\n'),
    ensures
        line_end(line.push('\n') + rest) == line.len(),
        after_first_line(line.push('\n') + rest) == rest,
        (line.push('\n') + rest).len() > 0,
{
    let text = line.push('\n') + rest;
    assert forall|i: int| 0 <= i < line.len() implies text[i] != '\n' by {
        assert(text[i] == line[i]);
    }
    assert(text[line.len() as int] == '\n');
    lemma_line_end_unique(text, line.len() as int);
    assert(text.skip((line.len() + 1) as int) =~= rest);
}

/// As many lines as are to be dropped from the top of a text are dropped, and no
/// more.
pub proof fn first_lines_are_dropped(lines: Seq<Seq<char>>, rest: Seq<char>, from: int)
    requires
        0 <= from <= lines.len(),
        forall|i: int| 0 <= i < lines.len() ==> lacks(#[trigger] lines[i], '\n'),
    ensures
        lines_from(joined(lines, from) + rest, (lines.len() - from) as nat) == lines_from(rest, 0),
    decreases lines.len() - from,
{
    if from < lines.len() {
        first_lines_are_dropped(lines, rest, from + 1);
        let below = joined(lines, from + 1) + rest;
        assert(lacks(lines[from], '\n'));
        lemma_first_line(lines[from], below);
        assert(joined(lines, from) + rest =~= lines[from].push('\n') + below);
        assert((lines.len() - from - 1) as nat == (lines.len() - (from + 1)) as nat);
    } else {
        assert(joined(lines, from) + rest =~= rest);
    }
}

/// Where more lines are to be dropped than there are, nothing is left.
pub proof fn all_lines_are_dropped(lines: Seq<Seq<char>>, from: int, skip: nat)
    requires
        0 <= from <= lines.len(),
        lines.len() - from <= skip,
        forall|i: int| 0 <= i < lines.len() ==> lacks(#[trigger] lines[i], '\n'),
    ensures
        lines_from(joined(lines, from), skip) == Seq::<char>::empty(),
    decreases lines.len() - from,
{
    if from < lines.len() {
        all_lines_are_dropped(lines, from + 1, (skip - 1) as nat);
        assert(lacks(lines[from], '\n'));
        lemma_first_line(lines[from], joined(lines, from + 1));
    }
}

/// A line that ends with a carriage return and a line feed loses the carriage
/// return.
pub proof fn carriage_returns_are_dropped(line: Seq<char>, rest: Seq<char>)
    requires
        lacks(line, '\n'),
    ensures
        lines_from(line + seq!['\r', '\n'] + rest, 0) == line.push('\n') + lines_from(rest, 0),
{
    let whole = line.push('\r');
    let text = line + seq!['\r', '\n'] + rest;
    assert(text =~= whole.push('\n') + rest);
    assert forall|i: int| 0 <= i < whole.len() implies #[trigger] whole[i] != '\n' by {
        if i < line.len() {
            assert(whole[i] == line[i]);
        }
    }
    lemma_first_line(whole, rest);
    assert(text[line.len() as int] == '\r');
    assert(first_line(text) =~= line);
}

/// A text without carriage returns whose last line is ended by a line feed is kept
/// as it is where no line is dropped.
pub proof fn ended_lines_are_kept(text: Seq<char>)
    requires
        lacks(text, '\r'),
        text.len() > 0 ==> text.last() == '\n',
    ensures
        lines_from(text, 0) == text,
    decreases text.len(),
{
    if text.len() > 0 {
        lemma_line_end(text);
        let end = line_end(text);
        if end == text.len() {
            assert(text[text.len() - 1] != '\n');
        }
        let rest = text.skip(end + 1);
        assert(after_first_line(text) == rest);
        assert forall|i: int| 0 <= i < rest.len() implies #[trigger] rest[i] != '\r' by {
            assert(rest[i] == text[end + 1 + i]);
        }
        if rest.len() > 0 {
            assert(rest.last() == text.last());
        }
        ended_lines_are_kept(rest);
        assert(first_line(text) == text.take(end));
        assert(text.take(end).push('\n') + rest =~= text);
    }
}

/// The last line of a text gets a line feed where it has none.
pub proof fn last_line_is_ended(lines: Seq<char>, line: Seq<char>)
    requires
        lacks(lines, '\r'),
        lines.len() > 0 ==> lines.last() == '\n',
        lacks(line, '\n'),
        line.len() > 0,
    ensures
        lines_from(lines + line, 0) == lines + line.push('\n'),
    decreases lines.len(),
{
    let text = lines + line;
    if lines.len() == 0 {
        assert(text =~= line);
        lemma_line_end_unique(line, line.len() as int);
        assert(first_line(line) =~= line);
        assert(lines_from(after_first_line(line), 0) =~= Seq::<char>::empty());
        assert(lines + line.push('\n') =~= line.push('\n') + Seq::<char>::empty());
    } else {
        lemma_line_end(lines);
        let end = line_end(lines);
        if end == lines.len() {
            assert(lines[lines.len() - 1] != '\n');
        }
        assert forall|i: int| 0 <= i < end implies text[i] != '\n' by {
            assert(text[i] == lines[i]);
        }
        assert(text[end] == lines[end]);
        lemma_line_end_unique(text, end);
        let rest = lines.skip(end + 1);
        assert(after_first_line(text) =~= rest + line);
        assert forall|i: int| 0 <= i < rest.len() implies #[trigger] rest[i] != '\r' by {
            assert(rest[i] == lines[end + 1 + i]);
        }
        if rest.len() > 0 {
            assert(rest.last() == lines.last());
        }
        last_line_is_ended(rest, line);
        if end > 0 {
            assert(text[end - 1] == lines[end - 1]);
        }
        assert(first_line(text) == text.take(end));
        assert(text.take(end).push('\n') + (rest + line.push('\n')) =~= lines + line.push('\n'));
    }
}

} // verus!

//! Theorems about the kernels that a fused KAN layer launches.

use vstd::prelude::*;

use crate::cuda::kan::FusedKanLayer;
use crate::cuda::kan_kernels::{blocks, threads, MAXIMUM_BLOCKS_Y, MAXIMUM_THREADS, TEMPLATE_HEADER};
use crate::cuda::kernel::Expr;
use crate::text::{decimal_of, lines_from, replaced};

verus! {

/// A launch has a block for each element of the batch, and no superfluous column
/// of blocks. Neither dimension exceeds what is allowed.
pub proof fn blocks_cover_batch(batch: int)
    requires
        batch >= 1,
    ensures
        ({
            let columns = blocks()[0].value(batch);
            let rows = blocks()[1].value(batch);
            &&& 1 <= rows <= MAXIMUM_BLOCKS_Y
            &&& batch <= columns * rows
            &&& (columns - 1) * rows < batch
            &&& blocks()[2].value(batch) == 1
        }),
{
    reveal_with_fuel(Expr::value, 4);
    let most = MAXIMUM_BLOCKS_Y as int;
    let columns = blocks()[0].value(batch);
    let rows = blocks()[1].value(batch);
    assert(columns == (batch + most - 1) / most);
    if batch <= most {
        assert(columns == 1);
        assert(rows == batch);
        assert(1 * rows == rows && 0 * rows == 0) by (nonlinear_arith);
    } else {
        assert(rows == most);
        assert(batch <= columns * most && (columns - 1) * most < batch) by (nonlinear_arith)
            requires
                columns == (batch + most - 1) / most,
                most == 32768,
        ;
    }
}

/// A block has at least one thread if it is to have any, and no more than
/// allowed.
pub proof fn threads_are_allowed(n: usize, batch: int)
    ensures
        0 <= threads(n)[0].value(batch) <= MAXIMUM_THREADS,
        n > 0 ==> threads(n)[0].value(batch) > 0,
        n <= MAXIMUM_THREADS ==> threads(n)[0].value(batch) == n,
{
}

/// Whether `pattern` stands at position `i` of `text`.
pub open spec fn occurs_at(text: Seq<char>, pattern: Seq<char>, i: int) -> bool {
    &&& 0 <= i
    &&& i + pattern.len() <= text.len()
    &&& pattern.is_prefix_of(text.skip(i))
}

/// Whether `pattern` stands nowhere in `text`.
pub open spec fn absent(text: Seq<char>, pattern: Seq<char>) -> bool {
    forall|i: int| !#[trigger] occurs_at(text, pattern, i)
}

/// Whether two texts have no character in common.
pub open spec fn disjoint(a: Seq<char>, b: Seq<char>) -> bool {
    forall|i: int, j: int| 0 <= i < a.len() && 0 <= j < b.len() ==> a[i] != b[j]
}

/// A text that a replacement begins with, and that has nothing of the value in
/// it, was there before.
proof fn lemma_prefix_was_there(
    text: Seq<char>,
    pattern: Seq<char>,
    value: Seq<char>,
    prefix: Seq<char>,
)
    requires
        value.len() > 0,
        disjoint(value, prefix),
        prefix.is_prefix_of(replaced(text, pattern, value)),
    ensures
        prefix.is_prefix_of(text),
    decreases text.len(),
{
    if prefix.len() == 0 {
        assert(prefix =~= text.take(0));
    } else if text.len() < pattern.len() || pattern.len() == 0 {
    } else if pattern.is_prefix_of(text) {
        let rest = replaced(text.skip(pattern.len() as int), pattern, value);
        assert((value + rest)[0] == value[0]);
        assert((value + rest).take(prefix.len() as int)[0] == prefix[0]);
        assert(false);
    } else if text.len() == 0 {
    } else {
        let rest = replaced(text.skip(1), pattern, value);
        let all = seq![text[0]] + rest;
        assert(all.take(prefix.len() as int)[0] == prefix[0]);
        assert(prefix.skip(1) =~= rest.take(prefix.len() - 1)) by {
            assert forall|i: int| 0 <= i < prefix.len() - 1 implies prefix.skip(1)[i]
                == rest.take(prefix.len() - 1)[i] by {
                assert(all.take(prefix.len() as int)[i + 1] == rest[i]);
            }
        }
        lemma_prefix_was_there(text.skip(1), pattern, value, prefix.skip(1));
        assert(prefix =~= text.take(prefix.len() as int)) by {
            assert forall|i: int| 0 <= i < prefix.len() implies prefix[i] == text.take(
                prefix.len() as int,
            )[i] by {
                if i > 0 {
                    assert(prefix.skip(1)[i - 1] == text.skip(1).take(prefix.len() - 1)[i - 1]);
                }
            }
        }
    }
}

/// What stands nowhere in a text stands nowhere in a part of it.
proof fn lemma_absent_in_part(text: Seq<char>, pattern: Seq<char>, from: int)
    requires
        absent(text, pattern),
        0 <= from <= text.len(),
    ensures
        absent(text.skip(from), pattern),
{
    assert forall|i: int| !#[trigger] occurs_at(text.skip(from), pattern, i) by {
        if occurs_at(text.skip(from), pattern, i) {
            assert(text.skip(from).skip(i) =~= text.skip(from + i));
            assert(occurs_at(text, pattern, from + i));
        }
    }
}

/// One step of a replacement that has yielded `head` and `rest`.
proof fn lemma_absent_behind(
    head: Seq<char>,
    rest: Seq<char>,
    pattern: Seq<char>,
    i: int,
)
    requires
        absent(rest, pattern),
        i >= head.len(),
    ensures
        !occurs_at(head + rest, pattern, i),
{
    if occurs_at(head + rest, pattern, i) {
        assert((head + rest).skip(i) =~= rest.skip(i - head.len()));
        assert(occurs_at(rest, pattern, i - head.len()));
    }
}

/// A replacement leaves nothing of the pattern behind, and nothing of another
/// pattern `other` that was not there before.
proof fn lemma_replaced_absent(
    text: Seq<char>,
    pattern: Seq<char>,
    value: Seq<char>,
    other: Seq<char>,
)
    requires
        pattern.len() > 0,
        other.len() > 0,
        value.len() > 0,
        disjoint(value, other),
        other == pattern || absent(text, other),
    ensures
        absent(replaced(text, pattern, value), other),
    decreases text.len(),
{
    let result = replaced(text, pattern, value);
    if text.len() < pattern.len() {
        assert(result == text);
    } else if pattern.is_prefix_of(text) {
        let tail = text.skip(pattern.len() as int);
        let rest = replaced(tail, pattern, value);
        if other != pattern {
            lemma_absent_in_part(text, other, pattern.len() as int);
        }
        lemma_replaced_absent(tail, pattern, value, other);
        assert forall|i: int| !#[trigger] occurs_at(result, other, i) by {
            if i >= value.len() {
                lemma_absent_behind(value, rest, other, i);
            } else if occurs_at(result, other, i) {
                assert(result.skip(i).take(other.len() as int)[0] == value[i]);
                assert(value[i] == other[0]);
            }
        }
    } else {
        let tail = text.skip(1);
        let head = seq![text[0]];
        let rest = replaced(tail, pattern, value);
        if other != pattern {
            lemma_absent_in_part(text, other, 1);
        }
        lemma_replaced_absent(tail, pattern, value, other);
        assert forall|i: int| !#[trigger] occurs_at(result, other, i) by {
            if i >= 1 {
                lemma_absent_behind(head, rest, other, i);
            } else if occurs_at(result, other, i) {
                assert(result.skip(0) =~= result);
                lemma_prefix_was_there(text, pattern, value, other);
                assert(text.skip(0) =~= text);
                assert(occurs_at(text, other, 0));
            }
        }
    }
}

/// Whether a character is a decimal digit.
pub open spec fn is_digit(c: char) -> bool {
    '0' <= c <= '9'
}

/// A number in decimal notation consists of digits.
pub(crate) proof fn lemma_decimal_digits(n: nat)
    ensures
        decimal_of(n).len() > 0,
        forall|i: int| 0 <= i < decimal_of(n).len() ==> is_digit(#[trigger] decimal_of(n)[i]),
    decreases n,
{
    if n >= 10 {
        lemma_decimal_digits(n / 10);
        let front = decimal_of(n / 10);
        assert forall|i: int| 0 <= i < decimal_of(n).len() implies is_digit(
            #[trigger] decimal_of(n)[i],
        ) by {
            if i < front.len() {
                assert(decimal_of(n)[i] == front[i]);
            }
        }
    }
}

/// Whether a text has no digit in it.
pub open spec fn without_digits(text: Seq<char>) -> bool {
    forall|i: int| 0 <= i < text.len() ==> !is_digit(#[trigger] text[i])
}

/// Replacing a placeholder by a number.
proof fn lemma_number_replaces(text: Seq<char>, pattern: Seq<char>, n: nat, other: Seq<char>)
    requires
        pattern.len() > 0,
        other.len() > 0,
        without_digits(other),
        other == pattern || absent(text, other),
    ensures
        absent(replaced(text, pattern, decimal_of(n)), other),
{
    lemma_decimal_digits(n);
    lemma_replaced_absent(text, pattern, decimal_of(n), other);
}

/// A text in which the first `k` of `names` are replaced by numbers, one after
/// the other.
spec fn filled(text: Seq<char>, names: Seq<Seq<char>>, numbers: Seq<nat>, k: nat) -> Seq<char>
    decreases k,
{
    if k == 0 {
        text
    } else {
        replaced(
            filled(text, names, numbers, (k - 1) as nat),
            names[k - 1],
            decimal_of(numbers[k - 1]),
        )
    }
}

/// None of the names that have been replaced is left.
proof fn lemma_filled(
    text: Seq<char>,
    names: Seq<Seq<char>>,
    numbers: Seq<nat>,
    k: nat,
    j: int,
)
    requires
        0 <= j < k <= names.len(),
        forall|i: int|
            0 <= i < names.len() ==> (#[trigger] names[i]).len() > 0 && without_digits(names[i]),
    ensures
        absent(filled(text, names, numbers, k), names[j]),
    decreases k,
{
    if j < k - 1 {
        lemma_filled(text, names, numbers, (k - 1) as nat, j);
    }
    lemma_number_replaces(
        filled(text, names, numbers, (k - 1) as nat),
        names[k - 1],
        numbers[k - 1],
        names[j],
    );
}

/// The placeholders of a kernel template.
pub open spec fn placeholders() -> Seq<Seq<char>> {
    seq![
        "DECL_MAXY"@,
        "DECL_D_IN"@,
        "DECL_D_OUT"@,
        "DECL_NUM_BASIS"@,
        "DECL_GRID_SIZE"@,
        "DECL_SPLINE_ORDER"@,
        "DECL_NUM_KNOTS"@,
    ]
}

/// The placeholders are made of letters and underscores.
proof fn lemma_placeholders(i: int)
    requires
        0 <= i < placeholders().len(),
    ensures
        placeholders()[i].len() > 0,
        without_digits(placeholders()[i]),
{
    reveal_strlit("DECL_MAXY");
    reveal_strlit("DECL_D_IN");
    reveal_strlit("DECL_D_OUT");
    reveal_strlit("DECL_NUM_BASIS");
    reveal_strlit("DECL_GRID_SIZE");
    reveal_strlit("DECL_SPLINE_ORDER");
    reveal_strlit("DECL_NUM_KNOTS");
}

/// No placeholder is left in the code of a kernel, whatever the template is.
pub proof fn no_placeholder_left(layer: FusedKanLayer, template: Seq<char>, j: int)
    requires
        0 <= j < placeholders().len(),
    ensures
        absent(layer.specialised(template), placeholders()[j]),
{
    let names = placeholders();
    let numbers = seq![
        MAXIMUM_BLOCKS_Y as nat,
        layer.input.shape.rows as nat,
        layer.spline_weight.shape.rows as nat,
        (layer.grid_size + layer.spline_order) as nat,
        layer.grid_size as nat,
        layer.spline_order as nat,
        layer.knots() as nat,
    ];
    let body = lines_from(template, TEMPLATE_HEADER as nat);
    assert forall|i: int| 0 <= i < names.len() implies (#[trigger] names[i]).len() > 0
        && without_digits(names[i]) by {
        lemma_placeholders(i);
    }
    lemma_filled(body, names, numbers, 7, j);
    reveal_with_fuel(filled, 8);
    assert(filled(body, names, numbers, 7) == layer.specialised(template));
}

} // verus!

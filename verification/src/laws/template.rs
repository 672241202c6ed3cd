//! What becomes of the placeholders in a kernel template.

use vstd::prelude::*;

use super::kernel::{is_digit, lemma_decimal_digits, placeholders};
use super::text::{ended_lines_are_kept, first_lines_are_dropped, joined, lacks, last_line_is_ended};
use crate::cuda::kan::FusedKanLayer;
use crate::cuda::kan_kernels::TEMPLATE_HEADER;
use crate::text::{decimal_of, lines_from, replaced};

verus! {

/// A text with gaps. Each of `pieces` is a text and the number of the gap behind
/// it, `gaps` is what stands in the gaps, and `tail` is the text at the end.
pub open spec fn composed(
    pieces: Seq<(Seq<char>, int)>,
    gaps: Seq<Seq<char>>,
    tail: Seq<char>,
    from: int,
) -> Seq<char>
    decreases pieces.len() - from,
{
    if from < 0 || from >= pieces.len() {
        tail
    } else {
        pieces[from].0 + gaps[pieces[from].1] + composed(pieces, gaps, tail, from + 1)
    }
}

/// The sizes that stand in the place of the placeholders, in decimal notation: the
/// largest number of blocks in the second dimension of a launch, the dimensions of
/// input and output, the number of basis functions of a feature, the number of
/// intervals of the grid, the degree of the splines, and the number of knots.
pub open spec fn sizes(layer: FusedKanLayer) -> Seq<Seq<char>> {
    seq![
        decimal_of(32768),
        decimal_of(layer.input.shape.rows as nat),
        decimal_of(layer.spline_weight.shape.rows as nat),
        decimal_of((layer.grid_size + layer.spline_order) as nat),
        decimal_of(layer.grid_size as nat),
        decimal_of(layer.spline_order as nat),
        decimal_of((layer.grid_size + 2 * layer.spline_order + 1) as nat),
    ]
}

/// Whether `pattern` begins at no position of `text`, whatever follows `text`.
spec fn passable(text: Seq<char>, pattern: Seq<char>) -> bool {
    forall|at: int| 0 <= at < text.len() ==> #[trigger] differs(text, pattern, at)
}

/// Whether `pattern` and `text` from `at` on differ in a character that both have.
spec fn differs(text: Seq<char>, pattern: Seq<char>, at: int) -> bool {
    exists|o: int|
        0 <= o < pattern.len() && at + o < text.len() && text[at + o] != #[trigger] pattern[o]
}

/// A replacement does not change a text that the pattern begins nowhere in.
proof fn lemma_pass(text: Seq<char>, rest: Seq<char>, pattern: Seq<char>, value: Seq<char>)
    requires
        pattern.len() > 0,
        passable(text, pattern),
    ensures
        replaced(text + rest, pattern, value) == text + replaced(rest, pattern, value),
    decreases text.len(),
{
    if text.len() == 0 {
        assert(text + rest =~= rest);
        assert(text + replaced(rest, pattern, value) =~= replaced(rest, pattern, value));
    } else {
        let all = text + rest;
        let below = text.skip(1);
        assert(differs(text, pattern, 0));
        let o = choose|o: int|
            0 <= o < pattern.len() && 0 + o < text.len() && text[0 + o] != #[trigger] pattern[o];
        assert(all[o] == text[o]);
        if pattern.is_prefix_of(all) {
            assert(all.take(pattern.len() as int)[o] == pattern[o]);
        }
        assert forall|at: int| 0 <= at < below.len() implies #[trigger] differs(
            below,
            pattern,
            at,
        ) by {
            assert(differs(text, pattern, at + 1));
            let p = choose|p: int|
                0 <= p < pattern.len() && at + 1 + p < text.len() && text[at + 1 + p]
                    != #[trigger] pattern[p];
            assert(below[at + p] != pattern[p]);
        }
        lemma_pass(below, rest, pattern, value);
        assert(all.skip(1) =~= below + rest);
        assert(text =~= seq![text[0]] + below);
        if all.len() < pattern.len() {
            assert(replaced(rest, pattern, value) == rest);
        } else {
            assert(replaced(all, pattern, value) == seq![all[0]] + replaced(
                all.skip(1),
                pattern,
                value,
            ));
        }
        assert(replaced(all, pattern, value) =~= text + replaced(rest, pattern, value));
    }
}

/// A replacement changes a text that begins with the pattern.
proof fn lemma_hit(rest: Seq<char>, pattern: Seq<char>, value: Seq<char>)
    requires
        pattern.len() > 0,
    ensures
        replaced(pattern + rest, pattern, value) == value + replaced(rest, pattern, value),
{
    let all = pattern + rest;
    assert(all.take(pattern.len() as int) =~= pattern);
    assert(all.skip(pattern.len() as int) =~= rest);
    assert(pattern.is_prefix_of(all));
}

/// One replacement fills one kind of gap.
proof fn lemma_fill(
    pieces: Seq<(Seq<char>, int)>,
    gaps: Seq<Seq<char>>,
    tail: Seq<char>,
    from: int,
    j: int,
    value: Seq<char>,
)
    requires
        0 <= from <= pieces.len(),
        0 <= j < gaps.len(),
        gaps[j].len() > 0,
        forall|i: int| 0 <= i < gaps.len() && i != j ==> passable(#[trigger] gaps[i], gaps[j]),
        forall|i: int|
            0 <= i < pieces.len() ==> passable((#[trigger] pieces[i]).0, gaps[j]) && 0
                <= pieces[i].1 < gaps.len(),
        passable(tail, gaps[j]),
    ensures
        replaced(composed(pieces, gaps, tail, from), gaps[j], value) == composed(
            pieces,
            gaps.update(j, value),
            tail,
            from,
        ),
    decreases pieces.len() - from,
{
    let pattern = gaps[j];
    if from == pieces.len() {
        lemma_pass(tail, seq![], pattern, value);
        assert(tail + Seq::<char>::empty() =~= tail);
        assert(replaced(Seq::<char>::empty(), pattern, value) =~= Seq::<char>::empty());
    } else {
        let below = composed(pieces, gaps, tail, from + 1);
        let text = pieces[from].0;
        let gap = gaps[pieces[from].1];
        lemma_fill(pieces, gaps, tail, from + 1, j, value);
        lemma_pass(text, gap + below, pattern, value);
        assert(text + gap + below =~= text + (gap + below));
        if pieces[from].1 == j {
            lemma_hit(below, pattern, value);
        } else {
            lemma_pass(gap, below, pattern, value);
        }
        let filled = gaps.update(j, value);
        let beyond = composed(pieces, filled, tail, from + 1);
        assert(text + (filled[pieces[from].1] + beyond) =~= text + filled[pieces[from].1] + beyond);
    }
}

/// The placeholders differ from each other.
#[verifier::spinoff_prover]
proof fn lemma_placeholders_differ(i: int, j: int)
    requires
        0 <= i < 7,
        0 <= j < 7,
        i != j,
    ensures
        passable(placeholders()[i], placeholders()[j]),
{
    reveal_strlit("DECL_MAXY");
    reveal_strlit("DECL_D_IN");
    reveal_strlit("DECL_D_OUT");
    reveal_strlit("DECL_NUM_BASIS");
    reveal_strlit("DECL_GRID_SIZE");
    reveal_strlit("DECL_SPLINE_ORDER");
    reveal_strlit("DECL_NUM_KNOTS");
    let text = placeholders()[i];
    let pattern = placeholders()[j];
    assert(pattern.len() > 2);
    assert(pattern[0] == 'D' && pattern[1] == 'E' && pattern[2] == 'C');
    assert forall|at: int| 0 <= at < text.len() implies #[trigger] differs(text, pattern, at) by {
        if at == 0 {
            if i + j == 3 && i != 0 && j != 0 {
                assert(text[at + 7] != pattern[7]);
            } else if i + j == 9 && (i == 3 || j == 3) {
                assert(text[at + 9] != pattern[9]);
            } else {
                assert(text[at + 5] != pattern[5]);
            }
        } else if at == 5 && (i == 1 || i == 2) {
            assert(text[at + 1] != pattern[1]);
        } else if at == 8 && i == 4 {
            assert(text[at + 1] != pattern[1]);
        } else if at == 14 && i == 5 {
            assert(text[at + 2] != pattern[2]);
        } else {
            assert(text[at + 0] != pattern[0]);
        }
    }
}

/// What the placeholders have in common.
proof fn lemma_placeholder(j: int)
    requires
        0 <= j < 7,
    ensures
        placeholders()[j].len() > 0,
        placeholders()[j][0] == 'D',
        lacks(placeholders()[j], '\r'),
        lacks(placeholders()[j], '\n'),
{
    reveal_strlit("DECL_MAXY");
    reveal_strlit("DECL_D_IN");
    reveal_strlit("DECL_D_OUT");
    reveal_strlit("DECL_NUM_BASIS");
    reveal_strlit("DECL_GRID_SIZE");
    reveal_strlit("DECL_SPLINE_ORDER");
    reveal_strlit("DECL_NUM_KNOTS");
}

/// No placeholder begins in a text that lacks their first letter.
proof fn lemma_lacking_is_passable(text: Seq<char>, pattern: Seq<char>)
    requires
        lacks(text, 'D'),
        pattern.len() > 0,
        pattern[0] == 'D',
    ensures
        passable(text, pattern),
{
    assert forall|at: int| 0 <= at < text.len() implies #[trigger] differs(text, pattern, at) by {
        assert(text[at] != 'D');
        assert(text[at + 0] != pattern[0]);
    }
}

/// The gaps after the first `k` kinds have been filled.
spec fn partly(layer: FusedKanLayer, k: int) -> Seq<Seq<char>> {
    Seq::new(
        7,
        |i: int|
            if i < k {
                sizes(layer)[i]
            } else {
                placeholders()[i]
            },
    )
}

/// The next kind of gap is filled.
proof fn lemma_step(
    layer: FusedKanLayer,
    pieces: Seq<(Seq<char>, int)>,
    tail: Seq<char>,
    k: int,
)
    requires
        0 <= k < 7,
        forall|i: int|
            0 <= i < pieces.len() ==> lacks((#[trigger] pieces[i]).0, 'D') && 0 <= pieces[i].1
                < 7,
        lacks(tail, 'D'),
    ensures
        replaced(
            composed(pieces, partly(layer, k), tail, 0),
            placeholders()[k],
            sizes(layer)[k],
        ) == composed(pieces, partly(layer, k + 1), tail, 0),
{
    let gaps = partly(layer, k);
    lemma_placeholder(k);
    assert(gaps[k] == placeholders()[k]);
    assert forall|i: int| 0 <= i < gaps.len() && i != k implies passable(
        #[trigger] gaps[i],
        gaps[k],
    ) by {
        if i < k {
            lemma_size_lacks(layer, i);
            lemma_lacking_is_passable(gaps[i], gaps[k]);
        } else {
            lemma_placeholders_differ(i, k);
        }
    }
    assert forall|i: int| 0 <= i < pieces.len() implies passable((#[trigger] pieces[i]).0, gaps[k])
        && 0 <= pieces[i].1 < gaps.len() by {
        lemma_lacking_is_passable(pieces[i].0, gaps[k]);
    }
    lemma_lacking_is_passable(tail, gaps[k]);
    lemma_fill(pieces, gaps, tail, 0, k, sizes(layer)[k]);
    assert(gaps.update(k, sizes(layer)[k]) =~= partly(layer, k + 1));
}

/// No size has a letter in it.
proof fn lemma_size_lacks(layer: FusedKanLayer, i: int)
    requires
        0 <= i < 7,
    ensures
        lacks(sizes(layer)[i], 'D'),
{
    lemma_decimal_digits(32768);
    lemma_decimal_digits(layer.input.shape.rows as nat);
    lemma_decimal_digits(layer.spline_weight.shape.rows as nat);
    lemma_decimal_digits((layer.grid_size + layer.spline_order) as nat);
    lemma_decimal_digits(layer.grid_size as nat);
    lemma_decimal_digits(layer.spline_order as nat);
    lemma_decimal_digits((layer.grid_size + 2 * layer.spline_order + 1) as nat);
    let size = sizes(layer)[i];
    assert forall|n: int| 0 <= n < size.len() implies #[trigger] size[n] != 'D' by {
        assert(is_digit(size[n]));
    }
}

/// All gaps of a text are filled, where the lines of a template are this text.
proof fn lemma_all_filled(
    layer: FusedKanLayer,
    template: Seq<char>,
    pieces: Seq<(Seq<char>, int)>,
    tail: Seq<char>,
)
    requires
        forall|i: int|
            0 <= i < pieces.len() ==> lacks((#[trigger] pieces[i]).0, 'D') && 0 <= pieces[i].1
                < 7,
        lacks(tail, 'D'),
        lines_from(template, 9) == composed(pieces, placeholders(), tail, 0),
    ensures
        layer.specialised(template) == composed(pieces, sizes(layer), tail, 0),
{
    assert(partly(layer, 0) =~= placeholders());
    assert(partly(layer, 7) =~= sizes(layer));
    assert(TEMPLATE_HEADER == 9);
    lemma_step(layer, pieces, tail, 0);
    lemma_step(layer, pieces, tail, 1);
    lemma_step(layer, pieces, tail, 2);
    lemma_step(layer, pieces, tail, 3);
    lemma_step(layer, pieces, tail, 4);
    lemma_step(layer, pieces, tail, 5);
    lemma_step(layer, pieces, tail, 6);
}

/// A text with gaps lacks a character that neither the pieces nor what stands in
/// the gaps have, and ends as its tail does.
proof fn lemma_composed(
    pieces: Seq<(Seq<char>, int)>,
    gaps: Seq<Seq<char>>,
    tail: Seq<char>,
    from: int,
    c: char,
)
    requires
        0 <= from <= pieces.len(),
        forall|i: int|
            0 <= i < pieces.len() ==> lacks((#[trigger] pieces[i]).0, c) && 0 <= pieces[i].1
                < gaps.len(),
        forall|i: int| 0 <= i < gaps.len() ==> lacks(#[trigger] gaps[i], c),
        lacks(tail, c),
        tail.len() > 0,
    ensures
        lacks(composed(pieces, gaps, tail, from), c),
        composed(pieces, gaps, tail, from).len() > 0,
        composed(pieces, gaps, tail, from).last() == tail.last(),
    decreases pieces.len() - from,
{
    if from < pieces.len() {
        lemma_composed(pieces, gaps, tail, from + 1, c);
        let below = composed(pieces, gaps, tail, from + 1);
        let text = pieces[from].0;
        let gap = gaps[pieces[from].1];
        assert(lacks(gap, c));
        let all = text + gap + below;
        assert forall|i: int| 0 <= i < all.len() implies #[trigger] all[i] != c by {
            if i < text.len() {
                assert(all[i] == text[i]);
            } else if i < text.len() + gap.len() {
                assert(all[i] == gap[i - text.len()]);
            } else {
                assert(all[i] == below[i - text.len() - gap.len()]);
            }
        }
        assert(all.last() == below.last());
    }
}

/// The code of a kernel is its template without the nine lines at the top, and with
/// every placeholder, wherever it stands, replaced by the size of the layer that it
/// is for.
pub proof fn template_is_filled_in(
    layer: FusedKanLayer,
    header: Seq<Seq<char>>,
    pieces: Seq<(Seq<char>, int)>,
    tail: Seq<char>,
)
    requires
        header.len() == 9,
        forall|i: int| 0 <= i < header.len() ==> lacks(#[trigger] header[i], '\n'),
        forall|i: int|
            0 <= i < pieces.len() ==> {
                &&& lacks((#[trigger] pieces[i]).0, 'D')
                &&& lacks(pieces[i].0, '\r')
                &&& 0 <= pieces[i].1 < 7
            },
        lacks(tail, 'D'),
        lacks(tail, '\r'),
        tail.len() > 0,
        tail.last() == '\n',
    ensures
        layer.specialised(joined(header, 0) + composed(pieces, placeholders(), tail, 0))
            == composed(pieces, sizes(layer), tail, 0),
{
    let body = composed(pieces, placeholders(), tail, 0);
    first_lines_are_dropped(header, body, 0);
    assert forall|i: int| 0 <= i < placeholders().len() implies lacks(
        #[trigger] placeholders()[i],
        '\r',
    ) by {
        lemma_placeholder(i);
    }
    lemma_composed(pieces, placeholders(), tail, 0, '\r');
    ended_lines_are_kept(body);
    lemma_all_filled(layer, joined(header, 0) + body, pieces, tail);
}

/// A line that is nothing but a placeholder becomes what stands for the placeholder,
/// and a line end.
proof fn lemma_single_line(
    layer: FusedKanLayer,
    header: Seq<Seq<char>>,
    j: int,
)
    requires
        header.len() == 9,
        forall|i: int| 0 <= i < header.len() ==> lacks(#[trigger] header[i], '\n'),
        0 <= j < 7,
    ensures
        layer.specialised(joined(header, 0) + placeholders()[j]) == sizes(layer)[j].push('\n'),
{
    let name = placeholders()[j];
    let pieces = seq![(Seq::<char>::empty(), j)];
    let tail = seq!['\n'];
    lemma_placeholder(j);
    first_lines_are_dropped(header, name, 0);
    last_line_is_ended(seq![], name);
    reveal_with_fuel(composed, 2);
    assert(Seq::<char>::empty() + name =~= name);
    assert(composed(pieces, placeholders(), tail, 0) =~= Seq::<char>::empty() + name.push('\n'));
    lemma_all_filled(layer, joined(header, 0) + name, pieces, tail);
    assert(composed(pieces, sizes(layer), tail, 0) =~= sizes(layer)[j].push('\n'));
}

/// A line that is nothing but a placeholder becomes the size of the layer that the
/// placeholder is for, in decimal notation, and a line end.
pub proof fn placeholders_become_sizes(layer: FusedKanLayer, header: Seq<Seq<char>>)
    requires
        header.len() == 9,
        forall|i: int| 0 <= i < header.len() ==> lacks(#[trigger] header[i], '\n'),
    ensures
        layer.specialised(joined(header, 0) + "DECL_MAXY"@) == decimal_of(32768).push('\n'),
        layer.specialised(joined(header, 0) + "DECL_D_IN"@) == decimal_of(
            layer.input.shape.rows as nat,
        ).push('\n'),
        layer.specialised(joined(header, 0) + "DECL_D_OUT"@) == decimal_of(
            layer.spline_weight.shape.rows as nat,
        ).push('\n'),
        layer.specialised(joined(header, 0) + "DECL_NUM_BASIS"@) == decimal_of(
            (layer.grid_size + layer.spline_order) as nat,
        ).push('\n'),
        layer.specialised(joined(header, 0) + "DECL_GRID_SIZE"@) == decimal_of(
            layer.grid_size as nat,
        ).push('\n'),
        layer.specialised(joined(header, 0) + "DECL_SPLINE_ORDER"@) == decimal_of(
            layer.spline_order as nat,
        ).push('\n'),
        layer.specialised(joined(header, 0) + "DECL_NUM_KNOTS"@) == decimal_of(
            (layer.grid_size + 2 * layer.spline_order + 1) as nat,
        ).push('\n'),
{
    lemma_single_line(layer, header, 0);
    lemma_single_line(layer, header, 1);
    lemma_single_line(layer, header, 2);
    lemma_single_line(layer, header, 3);
    lemma_single_line(layer, header, 4);
    lemma_single_line(layer, header, 5);
    lemma_single_line(layer, header, 6);
}

} // verus!

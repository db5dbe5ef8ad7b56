//! What holds of every merge, stated over the rows of `merged_rows` and
//! what `visible_rows` lets through.

use vstd::prelude::*;
use crate::config::ConfigView;
use crate::merge::{merged_rows, row_of, visible_rows};
use crate::order::{
    lemma_text_lt_asymmetric,
    lemma_text_lt_connected,
    lemma_text_lt_irreflexive,
    lemma_text_lt_transitive,
    sort_key,
    text_lt,
};
use crate::row::ResultRowView;

verus! {

/// Whether some line of `lines` is compared as `key`.
pub open spec fn has_key(lines: Seq<Seq<char>>, key: Seq<char>, ignore_case: bool) -> bool {
    exists|j: int| 0 <= j < lines.len() && #[trigger] sort_key(lines[j], ignore_case) == key
}

/// The settings that show all that comes from the first input: only the
/// column of the lines found in the second input alone is suppressed.
pub open spec fn first_input_shown(ignore_case: bool) -> ConfigView {
    ConfigView {
        ignore_case: ignore_case,
        suppress_column_1: false,
        suppress_column_2: true,
        suppress_column_3: false,
    }
}

/// The settings that show all that comes from the second input: only the
/// column of the lines found in the first input alone is suppressed.
pub open spec fn second_input_shown(ignore_case: bool) -> ConfigView {
    ConfigView {
        ignore_case: ignore_case,
        suppress_column_1: true,
        suppress_column_2: false,
        suppress_column_3: false,
    }
}

/// The tag that a column has once the two inputs are exchanged.
pub open spec fn mirror_column(column: u8) -> u8 {
    if column == 0 {
        1
    } else if column == 1 {
        0
    } else {
        column
    }
}

/// Whether `s` is `r` with the inputs exchanged: row by row the column is
/// mirrored and the text is compared as the same; the text itself is the
/// same wherever the row comes from one input alone.
pub open spec fn mirrors(r: Seq<ResultRowView>, s: Seq<ResultRowView>, ignore_case: bool) -> bool {
    &&& r.len() == s.len()
    &&& forall|i: int|
        0 <= i < r.len() ==> {
            &&& (#[trigger] s[i]).column == mirror_column(r[i].column)
            &&& s[i].separator == r[i].separator
            &&& sort_key(s[i].text, ignore_case) == sort_key(r[i].text, ignore_case)
            &&& (r[i].column != 2 ==> s[i].text == r[i].text)
        }
}

/// Strictly ascending by the comparison in use: sorted, and no line is
/// compared as equal to another of the same input.
pub open spec fn strictly_sorted(lines: Seq<Seq<char>>, ignore_case: bool) -> bool {
    forall|i: int, j: int|
        0 <= i < j < lines.len() ==> text_lt(
            #[trigger] sort_key(lines[i], ignore_case),
            #[trigger] sort_key(lines[j], ignore_case),
        )
}

proof fn lemma_visible_front(row: ResultRowView, rest: Seq<ResultRowView>, config: ConfigView)
    ensures
        visible_rows(seq![row] + rest, config) == if config.suppresses(row.column) {
            visible_rows(rest, config)
        } else {
            seq![row] + visible_rows(rest, config)
        },
{
    assert((seq![row] + rest).drop_first() =~= rest);
}

proof fn lemma_has_key_front(lines: Seq<Seq<char>>, key: Seq<char>, ignore_case: bool)
    requires
        lines.len() > 0,
        has_key(lines.drop_first(), key, ignore_case),
    ensures
        has_key(lines, key, ignore_case),
{
    let j = choose|j: int|
        0 <= j < lines.drop_first().len() && #[trigger] sort_key(
            lines.drop_first()[j],
            ignore_case,
        ) == key;
    assert(sort_key(lines[j + 1], ignore_case) == key);
}

/// Every line of the first input is carried by exactly one row, in the
/// input's order and with its own text: with the second input's column
/// suppressed, the output is the first input line by line. Such a row is
/// tagged as common only where some line of the second input is compared as
/// equal to it; so a line that equals no line of the second input is
/// yielded as found in the first input alone.
pub proof fn law_first_input_in_order(a: Seq<Seq<char>>, b: Seq<Seq<char>>, ignore_case: bool)
    ensures
        visible_rows(merged_rows(a, b, ignore_case), first_input_shown(ignore_case)).len()
            == a.len(),
        forall|i: int|
            0 <= i < a.len() ==> {
                let row = #[trigger] visible_rows(
                    merged_rows(a, b, ignore_case),
                    first_input_shown(ignore_case),
                )[i];
                &&& row.text == a[i]
                &&& (row.column == 0 || row.column == 2)
                &&& (row.column == 2 ==> has_key(b, sort_key(a[i], ignore_case), ignore_case))
            },
    decreases a.len() + b.len(),
{
    let shown = first_input_shown(ignore_case);
    let v = visible_rows(merged_rows(a, b, ignore_case), shown);
    if a.len() == 0 && b.len() == 0 {
    } else if b.len() == 0 || (a.len() > 0 && text_lt(
        sort_key(a[0], ignore_case),
        sort_key(b[0], ignore_case),
    )) {
        let rest = merged_rows(a.drop_first(), b, ignore_case);
        law_first_input_in_order(a.drop_first(), b, ignore_case);
        lemma_visible_front(row_of(a[0], 0), rest, shown);
        let w = visible_rows(rest, shown);
        assert forall|i: int| 0 <= i < a.len() implies {
            let row = #[trigger] v[i];
            &&& row.text == a[i]
            &&& (row.column == 0 || row.column == 2)
            &&& (row.column == 2 ==> has_key(b, sort_key(a[i], ignore_case), ignore_case))
        } by {
            if i > 0 {
                assert(v[i] == w[i - 1]);
                assert(a[i] == a.drop_first()[i - 1]);
            }
        }
    } else if a.len() == 0 || text_lt(sort_key(b[0], ignore_case), sort_key(a[0], ignore_case)) {
        let rest = merged_rows(a, b.drop_first(), ignore_case);
        law_first_input_in_order(a, b.drop_first(), ignore_case);
        lemma_visible_front(row_of(b[0], 1), rest, shown);
        assert forall|i: int| 0 <= i < a.len() implies {
            let row = #[trigger] v[i];
            &&& row.text == a[i]
            &&& (row.column == 0 || row.column == 2)
            &&& (row.column == 2 ==> has_key(b, sort_key(a[i], ignore_case), ignore_case))
        } by {
            if v[i].column == 2 {
                lemma_has_key_front(b, sort_key(a[i], ignore_case), ignore_case);
            }
        }
    } else {
        let rest = merged_rows(a.drop_first(), b.drop_first(), ignore_case);
        law_first_input_in_order(a.drop_first(), b.drop_first(), ignore_case);
        lemma_visible_front(row_of(a[0], 2), rest, shown);
        lemma_text_lt_connected(sort_key(a[0], ignore_case), sort_key(b[0], ignore_case));
        let w = visible_rows(rest, shown);
        assert forall|i: int| 0 <= i < a.len() implies {
            let row = #[trigger] v[i];
            &&& row.text == a[i]
            &&& (row.column == 0 || row.column == 2)
            &&& (row.column == 2 ==> has_key(b, sort_key(a[i], ignore_case), ignore_case))
        } by {
            if i > 0 {
                assert(v[i] == w[i - 1]);
                assert(a[i] == a.drop_first()[i - 1]);
                if v[i].column == 2 {
                    lemma_has_key_front(b, sort_key(a[i], ignore_case), ignore_case);
                }
            } else {
                assert(sort_key(b[0], ignore_case) == sort_key(a[0], ignore_case));
            }
        }
    }
}

/// Every line of the second input is carried by exactly one row, in the
/// input's order: with the first input's column suppressed, the output
/// follows the second input line by line. A row found in the second input
/// alone has that line's text; a common row has a text that is compared as
/// equal to it.
pub proof fn law_second_input_in_order(a: Seq<Seq<char>>, b: Seq<Seq<char>>, ignore_case: bool)
    ensures
        visible_rows(merged_rows(a, b, ignore_case), second_input_shown(ignore_case)).len()
            == b.len(),
        forall|i: int|
            0 <= i < b.len() ==> {
                let row = #[trigger] visible_rows(
                    merged_rows(a, b, ignore_case),
                    second_input_shown(ignore_case),
                )[i];
                &&& sort_key(row.text, ignore_case) == sort_key(b[i], ignore_case)
                &&& (row.column == 1 || row.column == 2)
                &&& (row.column == 1 ==> row.text == b[i])
                &&& (row.column == 2 ==> a.contains(row.text))
            },
    decreases a.len() + b.len(),
{
    let shown = second_input_shown(ignore_case);
    let v = visible_rows(merged_rows(a, b, ignore_case), shown);
    if a.len() == 0 && b.len() == 0 {
    } else if b.len() == 0 || (a.len() > 0 && text_lt(
        sort_key(a[0], ignore_case),
        sort_key(b[0], ignore_case),
    )) {
        let rest = merged_rows(a.drop_first(), b, ignore_case);
        law_second_input_in_order(a.drop_first(), b, ignore_case);
        lemma_visible_front(row_of(a[0], 0), rest, shown);
        assert forall|i: int| 0 <= i < b.len() implies {
            let row = #[trigger] v[i];
            &&& sort_key(row.text, ignore_case) == sort_key(b[i], ignore_case)
            &&& (row.column == 1 || row.column == 2)
            &&& (row.column == 1 ==> row.text == b[i])
            &&& (row.column == 2 ==> a.contains(row.text))
        } by {
            if v[i].column == 2 {
                let k = choose|k: int|
                    0 <= k < a.drop_first().len() && a.drop_first()[k] == v[i].text;
                assert(a[k + 1] == v[i].text);
            }
        }
    } else if a.len() == 0 || text_lt(sort_key(b[0], ignore_case), sort_key(a[0], ignore_case)) {
        let rest = merged_rows(a, b.drop_first(), ignore_case);
        law_second_input_in_order(a, b.drop_first(), ignore_case);
        lemma_visible_front(row_of(b[0], 1), rest, shown);
        let w = visible_rows(rest, shown);
        assert forall|i: int| 0 <= i < b.len() implies {
            let row = #[trigger] v[i];
            &&& sort_key(row.text, ignore_case) == sort_key(b[i], ignore_case)
            &&& (row.column == 1 || row.column == 2)
            &&& (row.column == 1 ==> row.text == b[i])
            &&& (row.column == 2 ==> a.contains(row.text))
        } by {
            if i > 0 {
                assert(v[i] == w[i - 1]);
                assert(b[i] == b.drop_first()[i - 1]);
            }
        }
    } else {
        let rest = merged_rows(a.drop_first(), b.drop_first(), ignore_case);
        law_second_input_in_order(a.drop_first(), b.drop_first(), ignore_case);
        lemma_visible_front(row_of(a[0], 2), rest, shown);
        lemma_text_lt_connected(sort_key(a[0], ignore_case), sort_key(b[0], ignore_case));
        let w = visible_rows(rest, shown);
        assert forall|i: int| 0 <= i < b.len() implies {
            let row = #[trigger] v[i];
            &&& sort_key(row.text, ignore_case) == sort_key(b[i], ignore_case)
            &&& (row.column == 1 || row.column == 2)
            &&& (row.column == 1 ==> row.text == b[i])
            &&& (row.column == 2 ==> a.contains(row.text))
        } by {
            if i > 0 {
                assert(v[i] == w[i - 1]);
                assert(b[i] == b.drop_first()[i - 1]);
                if v[i].column == 2 {
                    let k = choose|k: int|
                        0 <= k < a.drop_first().len() && a.drop_first()[k] == v[i].text;
                    assert(a[k + 1] == v[i].text);
                }
            } else {
                assert(a[0] == v[0].text);
            }
        }
    }
}

/// Two heads that are compared as equal leave both inputs together, as one
/// common row that carries the first input's text, whatever the case of the
/// second input's line.
pub proof fn law_equal_heads_give_one_common_row(
    a: Seq<Seq<char>>,
    b: Seq<Seq<char>>,
    ignore_case: bool,
)
    requires
        a.len() > 0,
        b.len() > 0,
        sort_key(a[0], ignore_case) == sort_key(b[0], ignore_case),
    ensures
        merged_rows(a, b, ignore_case) == seq![row_of(a[0], 2)] + merged_rows(
            a.drop_first(),
            b.drop_first(),
            ignore_case,
        ),
{
    lemma_text_lt_irreflexive(sort_key(a[0], ignore_case));
}

/// With an empty first input the rows are the second input's lines, each
/// as found in the second input alone, in order. With both inputs empty
/// there is no row.
pub proof fn law_empty_first_input(b: Seq<Seq<char>>, ignore_case: bool)
    ensures
        merged_rows(Seq::empty(), b, ignore_case) == Seq::new(
            b.len(),
            |i: int| row_of(b[i], 1),
        ),
        b.len() == 0 ==> merged_rows(Seq::empty(), b, ignore_case).len() == 0,
    decreases b.len(),
{
    let a = Seq::<Seq<char>>::empty();
    if b.len() > 0 {
        law_empty_first_input(b.drop_first(), ignore_case);
        let rest = merged_rows(a, b.drop_first(), ignore_case);
        assert(merged_rows(a, b, ignore_case) == seq![row_of(b[0], 1)] + rest);
    }
    assert(merged_rows(a, b, ignore_case) =~= Seq::new(b.len(), |i: int| row_of(b[i], 1)));
}

/// With an empty second input the rows are the first input's lines, each
/// as found in the first input alone, in order.
pub proof fn law_empty_second_input(a: Seq<Seq<char>>, ignore_case: bool)
    ensures
        merged_rows(a, Seq::empty(), ignore_case) == Seq::new(
            a.len(),
            |i: int| row_of(a[i], 0),
        ),
    decreases a.len(),
{
    let b = Seq::<Seq<char>>::empty();
    if a.len() > 0 {
        law_empty_second_input(a.drop_first(), ignore_case);
        let rest = merged_rows(a.drop_first(), b, ignore_case);
        assert(merged_rows(a, b, ignore_case) == seq![row_of(a[0], 0)] + rest);
    }
    assert(merged_rows(a, b, ignore_case) =~= Seq::new(a.len(), |i: int| row_of(a[i], 0)));
}

proof fn lemma_mirrors_front(
    x: ResultRowView,
    y: ResultRowView,
    r: Seq<ResultRowView>,
    s: Seq<ResultRowView>,
    ignore_case: bool,
)
    requires
        mirrors(r, s, ignore_case),
        y.column == mirror_column(x.column),
        y.separator == x.separator,
        sort_key(y.text, ignore_case) == sort_key(x.text, ignore_case),
        x.column != 2 ==> y.text == x.text,
    ensures
        mirrors(seq![x] + r, seq![y] + s, ignore_case),
{
    let r1 = seq![x] + r;
    let s1 = seq![y] + s;
    assert forall|i: int| 0 <= i < r1.len() implies {
        &&& (#[trigger] s1[i]).column == mirror_column(r1[i].column)
        &&& s1[i].separator == r1[i].separator
        &&& sort_key(s1[i].text, ignore_case) == sort_key(r1[i].text, ignore_case)
        &&& (r1[i].column != 2 ==> s1[i].text == r1[i].text)
    } by {
        if i > 0 {
            assert(s1[i] == s[i - 1]);
            assert(r1[i] == r[i - 1]);
        }
    }
}

/// Exchanging the two inputs, and with them the suppression of columns 1
/// and 2, gives the same output up to the columns' tags: row by row the
/// column is mirrored, the text is the same where the row comes from one
/// input alone, and a common row carries the text of whichever input
/// stands first, the two being compared as equal.
pub proof fn law_exchanged_inputs_mirror(a: Seq<Seq<char>>, b: Seq<Seq<char>>, config: ConfigView)
    ensures
        mirrors(
            visible_rows(merged_rows(a, b, config.ignore_case), config),
            visible_rows(merged_rows(b, a, config.ignore_case), config.mirrored()),
            config.ignore_case,
        ),
    decreases a.len() + b.len(),
{
    let ignore_case = config.ignore_case;
    let other = config.mirrored();
    if a.len() == 0 && b.len() == 0 {
    } else if b.len() == 0 || (a.len() > 0 && text_lt(
        sort_key(a[0], ignore_case),
        sort_key(b[0], ignore_case),
    )) {
        if b.len() > 0 {
            lemma_text_lt_asymmetric(sort_key(a[0], ignore_case), sort_key(b[0], ignore_case));
        }
        let x = row_of(a[0], 0);
        let y = row_of(a[0], 1);
        let r = merged_rows(a.drop_first(), b, ignore_case);
        let s = merged_rows(b, a.drop_first(), ignore_case);
        assert(merged_rows(b, a, ignore_case) == seq![y] + s);
        law_exchanged_inputs_mirror(a.drop_first(), b, config);
        lemma_visible_front(x, r, config);
        lemma_visible_front(y, s, other);
        if !config.suppresses(0) {
            lemma_mirrors_front(
                x,
                y,
                visible_rows(r, config),
                visible_rows(s, other),
                ignore_case,
            );
        }
    } else if a.len() == 0 || text_lt(sort_key(b[0], ignore_case), sort_key(a[0], ignore_case)) {
        let x = row_of(b[0], 1);
        let y = row_of(b[0], 0);
        let r = merged_rows(a, b.drop_first(), ignore_case);
        let s = merged_rows(b.drop_first(), a, ignore_case);
        assert(merged_rows(b, a, ignore_case) == seq![y] + s);
        law_exchanged_inputs_mirror(a, b.drop_first(), config);
        lemma_visible_front(x, r, config);
        lemma_visible_front(y, s, other);
        if !config.suppresses(1) {
            lemma_mirrors_front(
                x,
                y,
                visible_rows(r, config),
                visible_rows(s, other),
                ignore_case,
            );
        }
    } else {
        lemma_text_lt_connected(sort_key(a[0], ignore_case), sort_key(b[0], ignore_case));
        let x = row_of(a[0], 2);
        let y = row_of(b[0], 2);
        let r = merged_rows(a.drop_first(), b.drop_first(), ignore_case);
        let s = merged_rows(b.drop_first(), a.drop_first(), ignore_case);
        assert(merged_rows(b, a, ignore_case) == seq![y] + s);
        law_exchanged_inputs_mirror(a.drop_first(), b.drop_first(), config);
        lemma_visible_front(x, r, config);
        lemma_visible_front(y, s, other);
        if !config.suppresses(2) {
            lemma_mirrors_front(
                x,
                y,
                visible_rows(r, config),
                visible_rows(s, other),
                ignore_case,
            );
        }
    }
}

proof fn lemma_no_key_front(lines: Seq<Seq<char>>, key: Seq<char>, ignore_case: bool)
    requires
        lines.len() > 0,
        sort_key(lines[0], ignore_case) != key,
        !has_key(lines.drop_first(), key, ignore_case),
    ensures
        !has_key(lines, key, ignore_case),
{
    if has_key(lines, key, ignore_case) {
        let j = choose|j: int|
            0 <= j < lines.len() && #[trigger] sort_key(lines[j], ignore_case) == key;
        assert(sort_key(lines.drop_first()[j - 1], ignore_case) == key);
    }
}

proof fn lemma_sorted_rest(lines: Seq<Seq<char>>, ignore_case: bool)
    requires
        lines.len() > 0,
        strictly_sorted(lines, ignore_case),
    ensures
        strictly_sorted(lines.drop_first(), ignore_case),
{
    let rest = lines.drop_first();
    assert forall|i: int, j: int| 0 <= i < j < rest.len() implies text_lt(
        #[trigger] sort_key(rest[i], ignore_case),
        #[trigger] sort_key(rest[j], ignore_case),
    ) by {
        assert(text_lt(sort_key(lines[i + 1], ignore_case), sort_key(lines[j + 1], ignore_case)));
    }
}

/// A key that comes before the head of strictly sorted lines is the key
/// of none of them.
proof fn lemma_key_below_sorted(lines: Seq<Seq<char>>, key: Seq<char>, ignore_case: bool)
    requires
        strictly_sorted(lines, ignore_case),
        lines.len() > 0 ==> text_lt(key, sort_key(lines[0], ignore_case)),
    ensures
        !has_key(lines, key, ignore_case),
{
    if has_key(lines, key, ignore_case) {
        let j = choose|j: int|
            0 <= j < lines.len() && #[trigger] sort_key(lines[j], ignore_case) == key;
        if j > 0 {
            assert(text_lt(sort_key(lines[0], ignore_case), sort_key(lines[j], ignore_case)));
            lemma_text_lt_transitive(key, sort_key(lines[0], ignore_case), key);
        }
        lemma_text_lt_irreflexive(key);
    }
}

/// Of strictly sorted inputs the merge is the set difference: a line of
/// the first input is yielded as found in the first input alone exactly
/// where no line of the second input is compared as equal to it, and as
/// common exactly where one is.
pub proof fn law_sorted_inputs_split(a: Seq<Seq<char>>, b: Seq<Seq<char>>, ignore_case: bool)
    requires
        strictly_sorted(a, ignore_case),
        strictly_sorted(b, ignore_case),
    ensures
        visible_rows(merged_rows(a, b, ignore_case), first_input_shown(ignore_case)).len()
            == a.len(),
        forall|i: int|
            0 <= i < a.len() ==> {
                let row = #[trigger] visible_rows(
                    merged_rows(a, b, ignore_case),
                    first_input_shown(ignore_case),
                )[i];
                &&& row.text == a[i]
                &&& (row.column == 0 <==> !has_key(b, sort_key(a[i], ignore_case), ignore_case))
                &&& (row.column == 2 <==> has_key(b, sort_key(a[i], ignore_case), ignore_case))
            },
    decreases a.len() + b.len(),
{
    let shown = first_input_shown(ignore_case);
    let v = visible_rows(merged_rows(a, b, ignore_case), shown);
    law_first_input_in_order(a, b, ignore_case);
    if a.len() == 0 {
    } else if b.len() == 0 || text_lt(sort_key(a[0], ignore_case), sort_key(b[0], ignore_case)) {
        let rest = merged_rows(a.drop_first(), b, ignore_case);
        lemma_sorted_rest(a, ignore_case);
        law_sorted_inputs_split(a.drop_first(), b, ignore_case);
        lemma_visible_front(row_of(a[0], 0), rest, shown);
        lemma_key_below_sorted(b, sort_key(a[0], ignore_case), ignore_case);
        let w = visible_rows(rest, shown);
        assert forall|i: int| 0 <= i < a.len() && (#[trigger] v[i]).column == 0 implies !has_key(
            b,
            sort_key(a[i], ignore_case),
            ignore_case,
        ) by {
            if i > 0 {
                assert(v[i] == w[i - 1]);
                assert(a[i] == a.drop_first()[i - 1]);
            }
        }
    } else if text_lt(sort_key(b[0], ignore_case), sort_key(a[0], ignore_case)) {
        let rest = merged_rows(a, b.drop_first(), ignore_case);
        lemma_sorted_rest(b, ignore_case);
        law_sorted_inputs_split(a, b.drop_first(), ignore_case);
        lemma_visible_front(row_of(b[0], 1), rest, shown);
        assert forall|i: int| 0 <= i < a.len() && (#[trigger] v[i]).column == 0 implies !has_key(
            b,
            sort_key(a[i], ignore_case),
            ignore_case,
        ) by {
            if v[i].column == 0 {
                if i > 0 {
                    assert(text_lt(sort_key(a[0], ignore_case), sort_key(a[i], ignore_case)));
                    lemma_text_lt_transitive(
                        sort_key(b[0], ignore_case),
                        sort_key(a[0], ignore_case),
                        sort_key(a[i], ignore_case),
                    );
                }
                lemma_text_lt_irreflexive(sort_key(b[0], ignore_case));
                lemma_no_key_front(b, sort_key(a[i], ignore_case), ignore_case);
            }
        }
    } else {
        let rest = merged_rows(a.drop_first(), b.drop_first(), ignore_case);
        lemma_sorted_rest(a, ignore_case);
        lemma_sorted_rest(b, ignore_case);
        law_sorted_inputs_split(a.drop_first(), b.drop_first(), ignore_case);
        lemma_visible_front(row_of(a[0], 2), rest, shown);
        lemma_text_lt_connected(sort_key(a[0], ignore_case), sort_key(b[0], ignore_case));
        let w = visible_rows(rest, shown);
        assert forall|i: int| 0 <= i < a.len() && (#[trigger] v[i]).column == 0 implies !has_key(
            b,
            sort_key(a[i], ignore_case),
            ignore_case,
        ) by {
            if i > 0 && v[i].column == 0 {
                assert(v[i] == w[i - 1]);
                assert(a[i] == a.drop_first()[i - 1]);
                assert(text_lt(sort_key(a[0], ignore_case), sort_key(a[i], ignore_case)));
                lemma_text_lt_irreflexive(sort_key(a[0], ignore_case));
                lemma_no_key_front(b, sort_key(a[i], ignore_case), ignore_case);
            }
        }
    }
}

/// The same of the second input: of strictly sorted inputs, a line of the
/// second input is yielded as found in the second input alone, with its
/// own text, exactly where no line of the first input is compared as equal
/// to it, and is matched by a common row exactly where one is.
pub proof fn law_sorted_inputs_split_second(
    a: Seq<Seq<char>>,
    b: Seq<Seq<char>>,
    ignore_case: bool,
)
    requires
        strictly_sorted(a, ignore_case),
        strictly_sorted(b, ignore_case),
    ensures
        visible_rows(merged_rows(a, b, ignore_case), second_input_shown(ignore_case)).len()
            == b.len(),
        forall|i: int|
            0 <= i < b.len() ==> {
                let row = #[trigger] visible_rows(
                    merged_rows(a, b, ignore_case),
                    second_input_shown(ignore_case),
                )[i];
                &&& (row.column == 1 <==> !has_key(a, sort_key(b[i], ignore_case), ignore_case))
                &&& (row.column == 2 <==> has_key(a, sort_key(b[i], ignore_case), ignore_case))
                &&& (row.column == 1 ==> row.text == b[i])
            },
{
    let exchanged = visible_rows(merged_rows(b, a, ignore_case), first_input_shown(ignore_case));
    let v = visible_rows(merged_rows(a, b, ignore_case), second_input_shown(ignore_case));
    law_sorted_inputs_split(b, a, ignore_case);
    law_second_input_in_order(a, b, ignore_case);
    law_exchanged_inputs_mirror(b, a, first_input_shown(ignore_case));
    assert(first_input_shown(ignore_case).mirrored() == second_input_shown(ignore_case));
    assert forall|i: int| 0 <= i < b.len() implies {
        let row = #[trigger] v[i];
        &&& (row.column == 1 <==> !has_key(a, sort_key(b[i], ignore_case), ignore_case))
        &&& (row.column == 2 <==> has_key(a, sort_key(b[i], ignore_case), ignore_case))
    } by {
        assert(v[i].column == mirror_column(exchanged[i].column));
    }
}

} // verus!

use vstd::prelude::*;

use crate::model::CssProperty;
use crate::normalize::{
    alphanumeric_count, ascii_casing, is_ascii_digit, is_ascii_letter, is_ascii_lower,
    is_capital_of, output_position, pascal_case_of, starts_word,
};
use crate::order::{lemma_chars_le_total, lemma_chars_le_transitive};
use crate::render::document_text;
use crate::sort::{distinct_originals, lemma_sort_determined_by_records, record_le, sorts_to};

verus! {

/// Any two records are comparable.
pub proof fn lemma_record_order_total(a: CssProperty, b: CssProperty)
    ensures
        record_le(a, b) || record_le(b, a),
{
    lemma_chars_le_total(a.key(), b.key());
}

/// If `a` comes no later than `b` and `b` no later than `c`, then `a` comes
/// no later than `c`.
pub proof fn lemma_record_order_transitive(a: CssProperty, b: CssProperty, c: CssProperty)
    requires
        record_le(a, b),
        record_le(b, c),
    ensures
        record_le(a, c),
{
    lemma_chars_le_transitive(a.key(), b.key(), c.key());
}

/// Sorting a sorted collection again changes nothing.
pub proof fn lemma_sort_idempotent(
    x: Seq<CssProperty>,
    once: Seq<CssProperty>,
    twice: Seq<CssProperty>,
)
    requires
        sorts_to(x, once),
        sorts_to(once, twice),
    ensures
        twice == once,
{
}

/// Normalising a name twice gives the same text.
pub proof fn lemma_normalize_deterministic(a: Seq<char>, b: Seq<char>)
    requires
        a == b,
    ensures
        pascal_case_of(a) == pascal_case_of(b),
{
}

/// Serialising the same collection twice gives the same text.
pub proof fn lemma_serialization_deterministic(a: Seq<CssProperty>, b: Seq<CssProperty>)
    requires
        a == b,
    ensures
        document_text(a) == document_text(b),
{
}

/// Two collections that hold the same records, no two of them with one name,
/// are published as the same text once sorted, whatever order they came in.
pub proof fn lemma_same_records_same_document(
    x1: Seq<CssProperty>,
    x2: Seq<CssProperty>,
    y1: Seq<CssProperty>,
    y2: Seq<CssProperty>,
)
    requires
        x1.to_multiset() == x2.to_multiset(),
        distinct_originals(x1),
        sorts_to(x1, y1),
        sorts_to(x2, y2),
    ensures
        document_text(y1) == document_text(y2),
{
    lemma_sort_determined_by_records(x1, x2, y1, y2);
}

/// Words joined by `-`.
pub open spec fn joined(ws: Seq<Seq<char>>) -> Seq<char>
    decreases ws.len(),
{
    if ws.len() == 0 {
        Seq::empty()
    } else if ws.len() == 1 {
        ws[0]
    } else {
        joined(ws.drop_last()) + seq!['-'] + ws.last()
    }
}

/// The number of characters of all the words together.
pub open spec fn words_len(ws: Seq<Seq<char>>) -> nat
    decreases ws.len(),
{
    if ws.len() == 0 {
        0
    } else {
        words_len(ws.drop_last()) + ws.last().len()
    }
}

/// A word as the upstream names spell it: lower-case letters and digits.
pub open spec fn is_plain_word(w: Seq<char>) -> bool {
    &&& w.len() > 0
    &&& forall|k: int| 0 <= k < w.len() ==> is_ascii_lower(#[trigger] w[k]) || is_ascii_digit(w[k])
}

proof fn lemma_count_add(a: Seq<char>, b: Seq<char>)
    ensures
        alphanumeric_count(a + b) == alphanumeric_count(a) + alphanumeric_count(b),
    decreases b.len(),
{
    if b.len() == 0 {
        assert(a + b =~= a);
    } else {
        assert((a + b).drop_last() =~= a + b.drop_last());
        lemma_count_add(a, b.drop_last());
    }
}

proof fn lemma_count_delimiter()
    ensures
        alphanumeric_count(seq!['-']) == 0,
{
    assert(seq!['-'].drop_last() =~= Seq::<char>::empty());
    assert(alphanumeric_count(Seq::<char>::empty()) == 0);
}

proof fn lemma_count_plain(w: Seq<char>, j: int)
    requires
        is_plain_word(w),
        0 <= j <= w.len(),
    ensures
        alphanumeric_count(w.take(j)) == j,
    decreases j,
{
    if j > 0 {
        assert(w.take(j).drop_last() =~= w.take(j - 1));
        lemma_count_plain(w, j - 1);
    } else {
        assert(w.take(j).len() == 0);
    }
}

proof fn lemma_joined_shape(ws: Seq<Seq<char>>)
    requires
        ws.len() >= 1,
        forall|i: int| 0 <= i < ws.len() ==> is_plain_word(#[trigger] ws[i]),
    ensures
        joined(ws).len() == words_len(ws) + ws.len() - 1,
        alphanumeric_count(joined(ws)) == words_len(ws),
    decreases ws.len(),
{
    let last = ws.last();
    lemma_count_plain(last, last.len() as int);
    assert(last.take(last.len() as int) =~= last);
    if ws.len() == 1 {
        assert(words_len(ws.drop_last()) == 0);
    } else {
        let init = ws.drop_last();
        lemma_joined_shape(init);
        lemma_count_add(joined(init), seq!['-']);
        lemma_count_add(joined(init) + seq!['-'], last);
        lemma_count_delimiter();
    }
}

/// Where the `j`-th character of the `i`-th word stands in the joined text.
proof fn lemma_word_position(ws: Seq<Seq<char>>, i: int, j: int)
    requires
        forall|k: int| 0 <= k < ws.len() ==> is_plain_word(#[trigger] ws[k]),
        0 <= i < ws.len(),
        0 <= j < ws[i].len(),
    ensures
        0 <= words_len(ws.take(i)) + i + j < joined(ws).len(),
        joined(ws)[words_len(ws.take(i)) + i + j] == ws[i][j],
        output_position(joined(ws), words_len(ws.take(i)) + i + j) == words_len(ws.take(i)) + j,
        j == 0 && i > 0 ==> joined(ws)[words_len(ws.take(i)) + i - 1] == '-',
    decreases ws.len(),
{
    let p = words_len(ws.take(i)) + i + j;
    if ws.len() == 1 {
        assert(words_len(ws.take(0)) == 0);
        lemma_count_plain(ws[0], j);
    } else {
        let init = ws.drop_last();
        let last = ws.last();
        lemma_joined_shape(init);
        assert(joined(ws) == joined(init) + seq!['-'] + last);
        if i < ws.len() - 1 {
            assert(ws.take(i) =~= init.take(i));
            lemma_word_position(init, i, j);
            assert(joined(ws).take(p) =~= joined(init).take(p));
        } else {
            assert(ws.take(i) =~= init);
            assert(joined(ws).take(p) =~= joined(init) + seq!['-'] + last.take(j));
            lemma_count_add(joined(init), seq!['-']);
            lemma_count_add(joined(init) + seq!['-'], last.take(j));
            lemma_count_delimiter();
            lemma_count_plain(last, j);
        }
    }
}

/// A name made of words of lower-case letters and digits joined by `-`,
/// cased as `normalize` cases ASCII names, is the concatenation of its words
/// with their separators gone: each word keeps its length, its first
/// character is capitalised, and its digits pass through.
pub proof fn lemma_normalized_words(ws: Seq<Seq<char>>, r: Seq<char>)
    requires
        ws.len() >= 1,
        forall|i: int| 0 <= i < ws.len() ==> is_plain_word(#[trigger] ws[i]),
        ascii_casing(joined(ws), r),
    ensures
        r.len() == words_len(ws),
        forall|i: int, j: int|
            0 <= i < ws.len() && 0 <= j < ws[i].len() ==> {
                &&& j == 0 ==> is_capital_of(#[trigger] r[words_len(ws.take(i)) + j], ws[i][j])
                &&& is_ascii_digit(ws[i][j]) ==> r[words_len(ws.take(i)) + j] == ws[i][j]
            },
{
    lemma_joined_shape(ws);
    let s = joined(ws);
    assert forall|i: int, j: int| 0 <= i < ws.len() && 0 <= j < ws[i].len() implies {
        &&& j == 0 ==> is_capital_of(#[trigger] r[words_len(ws.take(i)) + j], ws[i][j])
        &&& is_ascii_digit(ws[i][j]) ==> r[words_len(ws.take(i)) + j] == ws[i][j]
    } by {
        lemma_word_position(ws, i, j);
        let p = words_len(ws.take(i)) + i + j;
        assert(output_position(s, p) == words_len(ws.take(i)) + j);
        assert(is_ascii_lower(ws[i][j]) || is_ascii_digit(ws[i][j]));
        if j == 0 && is_ascii_letter(ws[i][j]) {
            if i == 0 {
                assert(words_len(ws.take(0)) == 0);
            }
            assert(starts_word(s, p));
        }
    }
}

} // verus!

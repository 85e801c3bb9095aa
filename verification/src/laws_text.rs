//! Properties of the string operations, stated without their definitions.

use vstd::prelude::*;
use crate::text::{
    decimal, first_occurrence, is_white_space, join_with, lemma_first_occurrence_from,
    lemma_split_on_nonempty, occurs_at, replace_all, split_on, trimmed, trim_end, trim_start,
};

verus! {

proof fn lemma_replace_prefix_free(s: Seq<char>, pat: Seq<char>, rep: Seq<char>, i: int)
    requires
        pat.len() > 0,
        0 <= i <= s.len(),
        forall|j: int| 0 <= j < i ==> !occurs_at(s, pat, j),
    ensures
        replace_all(s, pat, rep) == s.take(i) + replace_all(s.skip(i), pat, rep),
    decreases i,
{
    if i > 0 {
        assert(!occurs_at(s, pat, 0));
        if pat.len() <= s.len() && s.take(pat.len() as int) == pat {
            assert(s.subrange(0, pat.len() as int) =~= s.take(pat.len() as int));
        }
        let t = s.skip(1);
        assert forall|j: int| 0 <= j < i - 1 implies !occurs_at(t, pat, j) by {
            if occurs_at(t, pat, j) {
                assert(s.subrange(j + 1, j + 1 + pat.len()) =~= t.subrange(j, j + pat.len()));
                assert(occurs_at(s, pat, j + 1));
            }
        }
        lemma_replace_prefix_free(t, pat, rep, i - 1);
        assert(t.skip(i - 1) =~= s.skip(i));
        assert(seq![s[0]] + t.take(i - 1) =~= s.take(i));
    } else {
        assert(s.skip(0) =~= s);
        assert(s.take(0) + replace_all(s, pat, rep) =~= replace_all(s, pat, rep));
    }
}

/// Replacing works from the first occurrence on: the text before it is kept,
/// the occurrence becomes the replacement, and the rest is treated alike.
/// With no occurrence at all the text is unchanged.
pub proof fn law_replace_first_occurrence(s: Seq<char>, pat: Seq<char>, rep: Seq<char>)
    requires
        pat.len() > 0,
    ensures
        first_occurrence(s, pat) matches Some(i) ==> replace_all(s, pat, rep) == s.take(i) + rep
            + replace_all(s.skip(i + pat.len()), pat, rep),
        first_occurrence(s, pat) is None ==> replace_all(s, pat, rep) == s,
{
    lemma_first_occurrence_from(s, pat, 0);
    match first_occurrence(s, pat) {
        Some(i) => {
            lemma_replace_prefix_free(s, pat, rep, i);
            let t = s.skip(i);
            assert(t.take(pat.len() as int) =~= s.subrange(i, i + pat.len()));
            assert(t.skip(pat.len() as int) =~= s.skip(i + pat.len()));
        },
        None => {
            lemma_replace_prefix_free(s, pat, rep, s.len() as int);
            assert(s.take(s.len() as int) =~= s);
            assert(s.skip(s.len() as int) =~= Seq::<char>::empty());
        },
    }
}

proof fn lemma_trim_start_shape(s: Seq<char>)
    ensures
        exists|a: int|
            0 <= a <= s.len() && trim_start(s) == s.skip(a) && (forall|j: int|
                0 <= j < a ==> is_white_space(#[trigger] s[j])),
        trim_start(s).len() > 0 ==> !is_white_space(trim_start(s)[0]),
    decreases s.len(),
{
    if s.len() > 0 && is_white_space(s[0]) {
        let t = s.drop_first();
        lemma_trim_start_shape(t);
        let a = choose|a: int|
            0 <= a <= t.len() && trim_start(t) == t.skip(a) && (forall|j: int|
                0 <= j < a ==> is_white_space(#[trigger] t[j]));
        assert(t.skip(a) =~= s.skip(a + 1));
        assert forall|j: int| 0 <= j < a + 1 implies is_white_space(#[trigger] s[j]) by {
            if j > 0 {
                assert(s[j] == t[j - 1]);
            }
        }
    } else {
        assert(s.skip(0) =~= s);
    }
}

proof fn lemma_trim_end_shape(s: Seq<char>)
    ensures
        exists|b: int|
            0 <= b <= s.len() && trim_end(s) == s.take(b) && (forall|j: int|
                b <= j < s.len() ==> is_white_space(#[trigger] s[j])),
        trim_end(s).len() > 0 ==> !is_white_space(trim_end(s).last()),
    decreases s.len(),
{
    if s.len() > 0 && is_white_space(s.last()) {
        let t = s.drop_last();
        lemma_trim_end_shape(t);
        let b = choose|b: int|
            0 <= b <= t.len() && trim_end(t) == t.take(b) && (forall|j: int|
                b <= j < t.len() ==> is_white_space(#[trigger] t[j]));
        assert(t.take(b) =~= s.take(b));
        assert forall|j: int| b <= j < s.len() implies is_white_space(#[trigger] s[j]) by {
            if j < s.len() - 1 {
                assert(s[j] == t[j]);
            }
        }
    } else {
        assert(s.take(s.len() as int) =~= s);
    }
}

/// Trimming keeps a contiguous middle part of the text: everything cut off
/// at either end is white space, and what is kept neither starts nor ends
/// with white space.
pub proof fn law_trim_cuts_only_white_space(s: Seq<char>)
    ensures
        exists|a: int, b: int|
            0 <= a <= b <= s.len() && trimmed(s) == s.subrange(a, b) && (forall|j: int|
                0 <= j < a ==> is_white_space(#[trigger] s[j])) && (forall|j: int|
                b <= j < s.len() ==> is_white_space(#[trigger] s[j])),
        trimmed(s).len() > 0 ==> !is_white_space(trimmed(s)[0]) && !is_white_space(
            trimmed(s).last(),
        ),
{
    lemma_trim_start_shape(s);
    let a = choose|a: int|
        0 <= a <= s.len() && trim_start(s) == s.skip(a) && (forall|j: int|
            0 <= j < a ==> is_white_space(#[trigger] s[j]));
    let t = trim_start(s);
    lemma_trim_end_shape(t);
    let b = choose|b: int|
        0 <= b <= t.len() && trim_end(t) == t.take(b) && (forall|j: int|
            b <= j < t.len() ==> is_white_space(#[trigger] t[j]));
    assert(t.take(b) =~= s.subrange(a, a + b));
    assert forall|j: int| a + b <= j < s.len() implies is_white_space(#[trigger] s[j]) by {
        assert(s[j] == t[j - a]);
    }
    if trimmed(s).len() > 0 {
        assert(trimmed(s)[0] == t[0]);
    }
}

proof fn lemma_split_parts_free(s: Seq<char>, sep: char)
    ensures
        forall|k: int, j: int|
            0 <= k < split_on(s, sep).len() && 0 <= j < split_on(s, sep)[k].len() ==> #[trigger] split_on(
                s,
                sep,
            )[k][j] != sep,
        join_with(split_on(s, sep), seq![sep]) == s,
    decreases s.len(),
{
    lemma_split_on_nonempty(s, sep);
    if s.len() > 0 {
        let init = s.drop_last();
        lemma_split_parts_free(init, sep);
        lemma_split_on_nonempty(init, sep);
        let parts = split_on(init, sep);
        let c = s.last();
        if c == sep {
            let np = parts.push(Seq::empty());
            assert(np.drop_last() =~= parts);
            assert(join_with(np, seq![sep]) == join_with(parts, seq![sep]) + seq![sep] + Seq::<
                char,
            >::empty());
            assert(init.push(c) =~= s);
            assert(join_with(parts, seq![sep]) + seq![sep] + Seq::<char>::empty() =~= s);
        } else {
            let n = parts.len();
            let np = parts.update(n - 1, parts.last().push(c));
            assert forall|k: int, j: int|
                0 <= k < np.len() && 0 <= j < np[k].len() implies #[trigger] np[k][j] != sep by {
                if k == n - 1 && j == parts.last().len() {
                } else if k == n - 1 {
                    assert(np[k][j] == parts[k][j]);
                } else {
                    assert(np[k] == parts[k]);
                }
            }
            if n == 1 {
                assert(np[0] =~= parts[0].push(c));
                assert(join_with(parts, seq![sep]) == parts[0]);
                assert(join_with(np, seq![sep]) == np[0]);
                assert(parts[0].push(c) =~= s);
            } else {
                assert(np.drop_last() =~= parts.drop_last());
                assert(join_with(np, seq![sep]) == join_with(parts.drop_last(), seq![sep])
                    + seq![sep] + parts.last().push(c));
                assert(join_with(parts, seq![sep]) == join_with(parts.drop_last(), seq![sep])
                    + seq![sep] + parts.last());
                assert(join_with(parts.drop_last(), seq![sep]) + seq![sep] + parts.last().push(c)
                    =~= (join_with(parts.drop_last(), seq![sep]) + seq![sep] + parts.last()).push(c));
                assert(init.push(c) =~= s);
            }
        }
    } else {
        assert(split_on(s, sep) =~= seq![Seq::<char>::empty()]);
        assert(s =~= Seq::<char>::empty());
    }
}

/// Splitting on a character gives pieces free of it which, joined back with
/// it, give the text again.
pub proof fn law_split_then_join(s: Seq<char>, sep: char)
    ensures
        join_with(split_on(s, sep), seq![sep]) == s,
        forall|k: int, j: int|
            0 <= k < split_on(s, sep).len() && 0 <= j < split_on(s, sep)[k].len() ==> #[trigger] split_on(
                s,
                sep,
            )[k][j] != sep,
        split_on(s, sep).len() >= 1,
{
    lemma_split_parts_free(s, sep);
    lemma_split_on_nonempty(s, sep);
}

/// The value of a decimal digit character.
pub open spec fn digit_value(c: char) -> int {
    c as int - '0' as int
}

/// The number a string of decimal digits denotes.
pub open spec fn digits_value(s: Seq<char>) -> int
    decreases s.len(),
{
    if s.len() == 0 {
        0
    } else {
        digits_value(s.drop_last()) * 10 + digit_value(s.last())
    }
}

/// The decimal notation of `n` is made of digits, denotes `n`, and has no
/// leading zero.
pub proof fn law_decimal_denotes(n: nat)
    ensures
        digits_value(decimal(n)) == n,
        forall|j: int| 0 <= j < decimal(n).len() ==> '0' <= #[trigger] decimal(n)[j] <= '9',
        decimal(n).len() > 1 ==> decimal(n)[0] != '0',
        decimal(n).len() >= 1,
    decreases n,
{
    if n < 10 {
        assert(decimal(n).drop_last() =~= Seq::<char>::empty());
        assert(digit_value(crate::text::digit_char(n as int)) == n);
        assert(digits_value(Seq::<char>::empty()) == 0);
        assert(decimal(n).last() == crate::text::digit_char(n as int));
        assert(digits_value(decimal(n)) == digits_value(decimal(n).drop_last()) * 10 + digit_value(
            decimal(n).last(),
        ));
    } else {
        law_decimal_denotes(n / 10);
        let m = n / 10;
        let d = decimal(n);
        assert(d.drop_last() =~= decimal(m));
        assert(d.last() == crate::text::digit_char((n % 10) as int));
        assert(digit_value(d.last()) == n % 10);
        assert(m * 10 + n % 10 == n) by (nonlinear_arith)
            requires
                m == n / 10,
        ;
        assert(digits_value(d) == digits_value(decimal(m)) * 10 + digit_value(d.last()));
        assert(d[0] == decimal(m)[0]);
        if decimal(m).len() == 1 {
            if m >= 10 {
                law_decimal_denotes(m / 10);
            }
            assert(1 <= m < 10);
            assert(decimal(m)[0] == crate::text::digit_char(m as int));
        }
        assert forall|j: int| 0 <= j < d.len() implies '0' <= #[trigger] d[j] <= '9' by {
            if j < d.len() - 1 {
                assert(d[j] == decimal(n / 10)[j]);
            }
        }
    }
}

} // verus!

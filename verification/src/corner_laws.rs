//! The corner rule without the order of the axes: it depends on how many
//! margins are taken and on the sum of their squares only.

use vstd::prelude::*;
use crate::partition::{
    corner_rejects, corner_term, depth, in_middle_band, negative_margin, negative_margins,
    on_negative_side, on_positive_side, positive_margin, positive_margins, MARGIN_ONE,
};
use crate::points3d::Vector;

verus! {

/// A margin is taken for axis `i`: inside its cone (`inside`) or on its
/// side outside the cone, and above zero.
pub open spec fn margin_taken(p: Vector, i: int, inside: bool) -> bool {
    if inside {
        on_positive_side(p, i) && positive_margin(p, i) > 0
    } else {
        on_negative_side(p, i) && negative_margin(p, i) > 0
    }
}

/// The margin of `p` for axis `i`, inside or outside its cone.
pub open spec fn margin_at(p: Vector, i: int, inside: bool) -> int {
    if inside {
        positive_margin(p, i)
    } else {
        negative_margin(p, i)
    }
}

/// The margins taken for the first `n` axes, in the order of the axes.
pub open spec fn margin_list(p: Vector, n: int, inside: bool) -> Seq<int> {
    if inside {
        positive_margins(p, n)
    } else {
        negative_margins(p, n)
    }
}

/// The square of the part of a margin that counts in a corner.
pub open spec fn corner_square(margin: int) -> int {
    corner_term(margin) * corner_term(margin)
}

/// How many of the first `n` numbers have the property `f`.
pub open spec fn count_where(f: spec_fn(int) -> bool, n: int) -> int
    decreases n,
{
    if n <= 0 {
        0
    } else if f(n - 1) {
        count_where(f, n - 1) + 1
    } else {
        count_where(f, n - 1)
    }
}

/// The sum of `v` over those of the first `n` numbers that have the
/// property `f`.
pub open spec fn sum_where(f: spec_fn(int) -> bool, v: spec_fn(int) -> int, n: int) -> int
    decreases n,
{
    if n <= 0 {
        0
    } else if f(n - 1) {
        sum_where(f, v, n - 1) + v(n - 1)
    } else {
        sum_where(f, v, n - 1)
    }
}

/// How many margins are taken for the first `n` axes.
pub open spec fn margin_count(p: Vector, n: int, inside: bool) -> int {
    count_where(|i: int| margin_taken(p, i, inside), n)
}

/// The sum of the corner squares of the margins taken for the first `n` axes.
pub open spec fn margin_squares(p: Vector, n: int, inside: bool) -> int {
    sum_where(
        |i: int| margin_taken(p, i, inside),
        |i: int| corner_square(margin_at(p, i, inside)),
        n,
    )
}

/// The sum of the corner squares of a list of margins.
pub open spec fn squares_of(s: Seq<int>) -> int
    decreases s.len(),
{
    if s.len() == 0 {
        0
    } else {
        squares_of(s.drop_last()) + corner_square(s.last())
    }
}

/// One more margin adds its corner square.
proof fn lemma_squares_of_push(s: Seq<int>, m: int)
    ensures
        squares_of(s.push(m)) == squares_of(s) + corner_square(m),
{
    assert(s.push(m).drop_last() =~= s);
}

/// The corner squares of a list of one margin and of a list of two.
proof fn lemma_squares_of_short(s: Seq<int>)
    ensures
        s.len() == 1 ==> squares_of(s) == corner_square(s[0]),
        s.len() == 2 ==> squares_of(s) == corner_square(s[0]) + corner_square(s[1]),
{
    if s.len() == 1 {
        assert(squares_of(s.drop_last()) == 0);
    }
    if s.len() == 2 {
        let t = s.drop_last();
        assert(t.len() == 1);
        assert(t.drop_last().len() == 0);
        assert(squares_of(t.drop_last()) == 0);
        assert(t.last() == s[0]);
        assert(squares_of(t) == squares_of(t.drop_last()) + corner_square(t.last()));
        assert(squares_of(s) == squares_of(t) + corner_square(s.last()));
    }
}

/// The list of the margins taken has as many entries as margins are taken,
/// and their corner squares add up to the sum of the corner squares taken.
pub proof fn lemma_margin_list(p: Vector, n: int, inside: bool)
    requires
        0 <= n,
    ensures
        margin_list(p, n, inside).len() == margin_count(p, n, inside),
        squares_of(margin_list(p, n, inside)) == margin_squares(p, n, inside),
    decreases n,
{
    if n > 0 {
        lemma_margin_list(p, n - 1, inside);
        if margin_taken(p, n - 1, inside) {
            lemma_squares_of_push(margin_list(p, n - 1, inside), margin_at(p, n - 1, inside));
        }
    }
}

/// The corner rule in terms of counts and sums: the point lies outside a
/// rounded corner where two margins of one kind, or one of each kind outside
/// the middle band, have corner squares that add up to one or more.
pub proof fn lemma_corner_rule(p: Vector, n: int)
    requires
        0 <= n,
    ensures
        corner_rejects(p, n) == ({
            let one = MARGIN_ONE * MARGIN_ONE;
            ||| margin_count(p, n, true) == 2 && margin_squares(p, n, true) >= one
            ||| margin_count(p, n, false) == 2 && margin_squares(p, n, false) >= one
            ||| margin_count(p, n, true) == 1 && margin_count(p, n, false) == 1 && !in_middle_band(
                depth(p),
            ) && margin_squares(p, n, true) + margin_squares(p, n, false) >= one
        }),
{
    lemma_margin_list(p, n, true);
    lemma_margin_list(p, n, false);
    lemma_squares_of_short(positive_margins(p, n));
    lemma_squares_of_short(negative_margins(p, n));
}

} // verus!

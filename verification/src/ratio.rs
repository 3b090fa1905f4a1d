//! The small-integer aspect ratio that fits a selection best.

use crate::text::{decimal, decimal_string, is_digit, law_decimal_reads_back, u32_of};
use vstd::prelude::*;
use vstd::string::*;

verus! {

/// The largest term of a ratio.
pub const RATIO_MAX: u32 = 21;

/// Where the ratio `a` to `b` stands in the order in which ratios are tried.
pub open spec fn ratio_index(a: int, b: int) -> int {
    (a - 1) * 21 + (b - 1)
}

/// `errors` holds what `error` gives for every ratio, in the order in which they are tried.
pub open spec fn measured<F: Fn(u32, u32) -> i64>(error: F, errors: Seq<i64>) -> bool {
    &&& errors.len() == 441
    &&& forall|a: u32, b: u32|
        1 <= a <= RATIO_MAX && 1 <= b <= RATIO_MAX ==> #[trigger] call_ensures(
            error,
            (a, b),
            errors[ratio_index(a as int, b as int)],
        )
}

/// `a` to `b` has the smallest error, and is the first that has it.
pub open spec fn is_first_closest(errors: Seq<i64>, a: int, b: int) -> bool {
    &&& 1 <= a <= RATIO_MAX
    &&& 1 <= b <= RATIO_MAX
    &&& forall|k: int|
        0 <= k < errors.len() ==> if k < ratio_index(a, b) {
            errors[ratio_index(a, b)] < #[trigger] errors[k]
        } else {
            errors[ratio_index(a, b)] <= errors[k]
        }
}

/// What is shown for a selection of `w` by `h` whose ratios have these errors: nothing for a
/// selection without area or where even the closest ratio is off by more than `hide`, else the
/// closest ratio and whether it is off by no more than `exact`.
pub open spec fn fits(
    w: i64,
    h: i64,
    errors: Seq<i64>,
    hide: i64,
    exact: i64,
    r: Option<(u32, u32, bool)>,
) -> bool {
    match r {
        None => w <= 0 || h <= 0 || exists|a: int, b: int| #[trigger]
            is_first_closest(errors, a, b) && errors[ratio_index(a, b)] > hide,
        Some((a, b, close)) => {
            &&& w > 0
            &&& h > 0
            &&& is_first_closest(errors, a as int, b as int)
            &&& errors[ratio_index(a as int, b as int)] <= hide
            &&& close == (errors[ratio_index(a as int, b as int)] <= exact)
        },
    }
}

/// The best approximation of the aspect ratio of a selection with both terms between 1 and
/// `RATIO_MAX`, and whether it counts as exact. `error` is how far off a ratio is; `hide` and
/// `exact` are the errors up to which a ratio is shown at all and shown as exact. Lengths and
/// errors only need to be in order, with 0 for nothing.
pub fn best_ratio<F: Fn(u32, u32) -> i64>(w: i64, h: i64, error: F, hide: i64, exact: i64) -> (r:
    Option<(u32, u32, bool)>)
    requires
        forall|a: u32, b: u32|
            1 <= a <= RATIO_MAX && 1 <= b <= RATIO_MAX ==> call_requires(error, (a, b)),
    ensures
        w <= 0 || h <= 0 ==> r is None,
        w > 0 && h > 0 ==> exists|errors: Seq<i64>|
            measured(error, errors) && #[trigger] fits(w, h, errors, hide, exact, r),
{
    if w <= 0 || h <= 0 {
        return None;
    }
    let ghost mut errors: Seq<i64> = seq![];
    let mut best_a: u32 = 1;
    let mut best_b: u32 = 1;
    let mut best_error: i64 = 0;
    let mut found: bool = false;
    let mut a: u32 = 1;
    while a <= RATIO_MAX
        invariant
            1 <= a <= RATIO_MAX + 1,
            errors.len() == (a - 1) * 21,
            found == (a > 1),
            forall|p: u32, q: u32|
                1 <= p <= RATIO_MAX && 1 <= q <= RATIO_MAX ==> call_requires(error, (p, q)),
            forall|p: u32, q: u32|
                1 <= p < a && 1 <= q <= RATIO_MAX ==> #[trigger] call_ensures(
                    error,
                    (p, q),
                    errors[ratio_index(p as int, q as int)],
                ),
            found ==> is_first_closest(errors, best_a as int, best_b as int),
            found ==> ratio_index(best_a as int, best_b as int) < errors.len()
                && best_error == errors[ratio_index(best_a as int, best_b as int)],
        decreases RATIO_MAX + 1 - a,
    {
        let mut b: u32 = 1;
        while b <= RATIO_MAX
            invariant
                1 <= a <= RATIO_MAX,
                1 <= b <= RATIO_MAX + 1,
                errors.len() == (a - 1) * 21 + (b - 1),
                found == (a > 1 || b > 1),
                forall|p: u32, q: u32|
                    1 <= p <= RATIO_MAX && 1 <= q <= RATIO_MAX ==> call_requires(error, (p, q)),
                forall|p: u32, q: u32|
                    1 <= p <= a && 1 <= q <= RATIO_MAX && (p < a || q < b)
                        ==> #[trigger] call_ensures(
                        error,
                        (p, q),
                        errors[ratio_index(p as int, q as int)],
                    ),
                found ==> is_first_closest(errors, best_a as int, best_b as int),
                found ==> ratio_index(best_a as int, best_b as int) < errors.len()
                    && best_error == errors[ratio_index(best_a as int, best_b as int)],
            decreases RATIO_MAX + 1 - b,
        {
            let e: i64 = error(a, b);
            let ghost earlier = errors;
            proof {
                errors = errors.push(e);
                assert(forall|k: int|
                    0 <= k < earlier.len() ==> #[trigger] errors[k] == earlier[k]);
                assert(errors[ratio_index(a as int, b as int)] == e);
                assert forall|p: u32, q: u32|
                    1 <= p <= a && 1 <= q <= RATIO_MAX && (p < a || q < b + 1)
                        implies #[trigger] call_ensures(
                    error,
                    (p, q),
                    errors[ratio_index(p as int, q as int)],
                ) by {
                    if p < a || q < b {
                        assert(ratio_index(p as int, q as int) < earlier.len());
                        assert(call_ensures(
                            error,
                            (p, q),
                            earlier[ratio_index(p as int, q as int)],
                        ));
                    }
                }
            }
            if !found || e < best_error {
                best_a = a;
                best_b = b;
                best_error = e;
                found = true;
            }
            b = b + 1;
        }
        a = a + 1;
    }
    let r: Option<(u32, u32, bool)> = if best_error > hide {
        None
    } else {
        Some((best_a, best_b, best_error <= exact))
    };
    assert(measured(error, errors) && fits(w, h, errors, hide, exact, r));
    r
}

/// A ratio as it is shown, with a tilde in front of one that is only approximate.
pub open spec fn ratio_label(a: int, b: int, exact: bool) -> Seq<char> {
    (if exact {
        ""@
    } else {
        "~"@
    }) + decimal(a) + ":"@ + decimal(b)
}

/// Writes a ratio as it is shown.
pub fn ratio_text(a: u32, b: u32, exact: bool) -> (r: String)
    ensures
        r@ == ratio_label(a as int, b as int, exact),
{
    let mut out: String = if exact {
        "".to_owned()
    } else {
        "~".to_owned()
    };
    out.append(decimal_string(a).as_str());
    out.append(":");
    out.append(decimal_string(b).as_str());
    out
}

// Laws

/// Where equal ratios have equal errors, the ratio shown is in lowest terms: no number above 1
/// divides both of its terms.
pub proof fn law_best_ratio_is_in_lowest_terms(
    w: i64,
    h: i64,
    errors: Seq<i64>,
    hide: i64,
    exact: i64,
    r: (u32, u32, bool),
    a: int,
    b: int,
    k: int,
)
    requires
        errors.len() == 441,
        fits(w, h, errors, hide, exact, Some(r)),
        forall|p: int, q: int, m: int|
            1 <= p && 1 <= q && 1 <= m && m * p <= RATIO_MAX && m * q <= RATIO_MAX
                ==> #[trigger] errors[ratio_index(p, q)] == #[trigger] errors[ratio_index(
                m * p,
                m * q,
            )],
        1 <= a,
        1 <= b,
        1 <= k,
        r.0 == k * a,
        r.1 == k * b,
    ensures
        k == 1,
{
    if k > 1 {
        assert(a < k * a && b < k * b) by (nonlinear_arith)
            requires
                k > 1,
                a >= 1,
                b >= 1,
        ;
        assert(errors[ratio_index(a, b)] == errors[ratio_index(k * a, k * b)]);
        assert(ratio_index(a, b) < ratio_index(r.0 as int, r.1 as int));
    }
}

/// Only one answer fits.
pub proof fn law_best_ratio_is_unique(
    w: i64,
    h: i64,
    errors: Seq<i64>,
    hide: i64,
    exact: i64,
    r: Option<(u32, u32, bool)>,
    s: Option<(u32, u32, bool)>,
)
    requires
        errors.len() == 441,
        fits(w, h, errors, hide, exact, r),
        fits(w, h, errors, hide, exact, s),
    ensures
        r == s,
{
    assert forall|a: int, b: int, p: int, q: int| #[trigger]
        is_first_closest(errors, a, b) && #[trigger] is_first_closest(errors, p, q) implies a == p
        && b == q by {
        let (i, j) = (ratio_index(a, b), ratio_index(p, q));
        let (e, f) = (errors[i], errors[j]);
    }
}

/// The ratio shown has the smallest error of all ratios with terms between 1 and 21: a ratio `p`
/// to `q` has no smaller one, and one that is tried earlier, with a smaller first term or an equal
/// one and a smaller second, a larger one. It counts as exact up to the error `exact`, and where
/// nothing is shown, every ratio is off by more than `hide`.
pub proof fn law_best_ratio_is_closest<F: Fn(u32, u32) -> i64>(
    w: i64,
    h: i64,
    error: F,
    errors: Seq<i64>,
    hide: i64,
    exact: i64,
    r: Option<(u32, u32, bool)>,
    p: u32,
    q: u32,
)
    requires
        w > 0,
        h > 0,
        measured(error, errors),
        fits(w, h, errors, hide, exact, r),
        1 <= p <= 21,
        1 <= q <= 21,
    ensures
        match r {
            Some((a, b, close)) => 1 <= a <= 21 && 1 <= b <= 21 && exists|least: i64, other: i64|
                {
                    &&& #[trigger] call_ensures(error, (a, b), least)
                    &&& #[trigger] call_ensures(error, (p, q), other)
                    &&& least <= other
                    &&& p < a || (p == a && q < b) ==> least < other
                    &&& least <= hide
                    &&& close == (least <= exact)
                },
            None => exists|other: i64| #[trigger]
                call_ensures(error, (p, q), other) && other > hide,
        },
{
    let other = errors[ratio_index(p as int, q as int)];
    assert(call_ensures(error, (p, q), other));
    match r {
        Some((a, b, close)) => {
            let least = errors[ratio_index(a as int, b as int)];
            assert(call_ensures(error, (a, b), least));
        },
        None => {
            let (a, b) = choose|a: int, b: int| #[trigger]
                is_first_closest(errors, a, b) && errors[ratio_index(a, b)] > hide;
            assert(is_first_closest(errors, a, b));
        },
    }
}

/// The label of a ratio reads back as that ratio: behind a tilde if it is only approximate, its
/// first term, the one colon, and its second term. So no two ratios have the same label, and a
/// ratio has another label than the same one turned round.
pub proof fn law_ratio_label_reads_back(a: u32, b: u32, exact: bool)
    ensures
        ({
            let label = ratio_label(a as int, b as int, exact);
            let start: int = if exact {
                0
            } else {
                1
            };
            &&& !exact ==> label[0] == '~'
            &&& exact ==> label[0] != '~'
            &&& exists|colon: int|
                {
                    &&& start < colon < label.len()
                    &&& #[trigger] label[colon] == ':'
                    &&& u32_of(label.subrange(start, colon)) == Some(a)
                    &&& u32_of(label.skip(colon + 1)) == Some(b)
                    &&& forall|i: int|
                        0 <= i < label.len() && i != colon ==> #[trigger] label[i] != ':'
                }
        }),
{
    let (first, second) = (decimal(a as int), decimal(b as int));
    let label = ratio_label(a as int, b as int, exact);
    law_decimal_reads_back(a);
    law_decimal_reads_back(b);
    reveal_strlit("");
    reveal_strlit("~");
    reveal_strlit(":");
    let start: int = if exact {
        0
    } else {
        1
    };
    let colon = start + first.len();
    assert(label.subrange(start, colon) =~= first);
    assert(label.skip(colon + 1) =~= second);
    assert(label[colon] == ':');
    assert(label[start] == first[0]);
    assert(is_digit(first[0]));
    assert forall|i: int| 0 <= i < label.len() && i != colon implies #[trigger] label[i] != ':' by {
        if start <= i < colon {
            assert(label[i] == first[i - start]);
            assert(is_digit(first[i - start]));
        } else if i > colon {
            assert(label[i] == second[i - colon - 1]);
            assert(is_digit(second[i - colon - 1]));
        }
    }
}

} // verus!

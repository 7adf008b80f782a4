use vstd::prelude::*;
use crate::error::TraceError;

verus! {

/// Two raised to the power `k`.
pub open spec fn pow2(k: nat) -> nat
    decreases k,
{
    if k == 0 {
        1
    } else {
        2 * pow2((k - 1) as nat)
    }
}

/// `n` is a power of two.
pub open spec fn is_pow2(n: nat) -> bool {
    exists|k: nat| n == #[trigger] pow2(k)
}

/// Doubles `p` until it reaches `n`.
pub open spec fn double_up_to(p: nat, n: nat) -> nat
    decreases (if p < n { n - p } else { 0 }),
{
    if p == 0 || p >= n {
        p
    } else {
        double_up_to(2 * p, n)
    }
}

/// The smallest power of two that is at least `n` and at least one.
pub open spec fn next_pow2(n: nat) -> nat {
    double_up_to(1, n)
}

/// The number of rows a trace of `n` real rows is padded to: `2^k` under a fixed
/// shape `k`, else the smallest power of two that holds the rows.
pub open spec fn padded_rows(n: nat, fixed_log2_rows: Option<usize>) -> nat {
    match fixed_log2_rows {
        Some(k) => pow2(k as nat),
        None => next_pow2(n),
    }
}

/// `rows` followed by copies of `fill` up to `target` rows.
pub open spec fn pad_seq<R>(rows: Seq<R>, fill: R, target: nat) -> Seq<R> {
    Seq::new(
        if target >= rows.len() { target } else { rows.len() },
        |i: int| if i < rows.len() { rows[i] } else { fill },
    )
}

pub proof fn lemma_pow2_positive(k: nat)
    ensures
        pow2(k) >= 1,
    decreases k,
{
    if k > 0 {
        lemma_pow2_positive((k - 1) as nat);
    }
}

pub proof fn lemma_pow2_monotonic(i: nat, j: nat)
    requires
        i <= j,
    ensures
        pow2(i) <= pow2(j),
    decreases j,
{
    if i < j {
        lemma_pow2_monotonic(i, (j - 1) as nat);
    }
}

pub proof fn lemma_pow2_at_least_exponent(k: nat)
    ensures
        pow2(k) > k,
    decreases k,
{
    if k > 0 {
        lemma_pow2_at_least_exponent((k - 1) as nat);
    }
}

proof fn lemma_double_up_to(j: nat, n: nat)
    ensures
        is_pow2(double_up_to(pow2(j), n)),
        double_up_to(pow2(j), n) >= n,
        double_up_to(pow2(j), n) >= pow2(j),
        forall|k: nat| k >= j && #[trigger] pow2(k) >= n ==> double_up_to(pow2(j), n) <= pow2(k),
    decreases (if pow2(j) < n { n - pow2(j) } else { 0 }),
{
    lemma_pow2_positive(j);
    let p = pow2(j);
    if p >= n {
        assert forall|k: nat| k >= j && #[trigger] pow2(k) >= n implies p <= pow2(k) by {
            lemma_pow2_monotonic(j, k);
        }
    } else {
        assert(pow2(j + 1) == 2 * p);
        lemma_double_up_to(j + 1, n);
        assert forall|k: nat| k >= j && #[trigger] pow2(k) >= n implies double_up_to(p, n)
            <= pow2(k) by {
            if k == j {
            }
        }
    }
}

proof fn lemma_double_up_to_bounds(j: nat, n: nat)
    requires
        pow2(j) < n,
    ensures
        double_up_to(pow2(j), n) == double_up_to(2 * pow2(j), n),
        double_up_to(pow2(j), n) >= 2 * pow2(j),
        pow2(j + 1) == 2 * pow2(j),
{
    lemma_pow2_positive(j);
    assert(pow2(j + 1) == 2 * pow2(j));
    lemma_double_up_to(j + 1, n);
}

/// The padded row count without a fixed shape is a power of two, holds the
/// rows, is at least one, and no smaller power of two holds the rows.
pub proof fn lemma_next_pow2(n: nat)
    ensures
        is_pow2(next_pow2(n)),
        next_pow2(n) >= n,
        next_pow2(n) >= 1,
        forall|k: nat| #[trigger] pow2(k) >= n ==> next_pow2(n) <= pow2(k),
{
    assert(pow2(0) == 1);
    lemma_double_up_to(0, n);
}

/// Whatever the shape, the padded row count is a power of two, and under a
/// fixed shape `k` it is exactly `2^k`.
pub proof fn lemma_padded_rows_pow2(n: nat, fixed_log2_rows: Option<usize>)
    ensures
        is_pow2(padded_rows(n, fixed_log2_rows)),
        fixed_log2_rows matches Some(k) ==> padded_rows(n, fixed_log2_rows) == pow2(k as nat),
{
    match fixed_log2_rows {
        Some(k) => {
            assert(padded_rows(n, fixed_log2_rows) == pow2(k as nat));
        },
        None => {
            lemma_next_pow2(n);
        },
    }
}

/// What padding `n` rows yields: the padded row count, or the reason why no
/// such trace exists. A fixed shape below `n` is refused, since cutting rows
/// would drop events; a count beyond the machine word cannot be allocated.
pub open spec fn padded_rows_checked(n: nat, fixed_log2_rows: Option<usize>) -> Result<
    usize,
    TraceError,
> {
    let target = padded_rows(n, fixed_log2_rows);
    if target < n {
        Err(TraceError::ShapeTooSmall { rows: n as usize })
    } else if target > usize::MAX {
        Err(TraceError::TooLarge)
    } else {
        Ok(target as usize)
    }
}

/// `2^k`, or `None` when it does not fit in a machine word.
pub fn checked_pow2(k: usize) -> (r: Option<usize>)
    ensures
        r == (if pow2(k as nat) > usize::MAX {
            None
        } else {
            Some(pow2(k as nat) as usize)
        }),
{
    let mut p: usize = 1;
    let mut i: usize = 0;
    while i < k
        invariant
            i <= k,
            p == pow2(i as nat),
        decreases k - i,
    {
        match p.checked_mul(2) {
            Some(q) => {
                p = q;
            },
            None => {
                proof {
                    lemma_pow2_monotonic((i + 1) as nat, k as nat);
                }
                return None;
            },
        }
        i = i + 1;
    }
    Some(p)
}

/// The row count that `n` rows are padded to. With `fixed_power = Some(k)` it
/// is `2^k`; otherwise the smallest power of two that is at least `n` and one.
pub fn next_power_of_two(n: usize, fixed_power: Option<usize>) -> (r: Result<usize, TraceError>)
    ensures
        r == padded_rows_checked(n as nat, fixed_power),
{
    match fixed_power {
        Some(power) => {
            match checked_pow2(power) {
                Some(padded_nb_rows) => {
                    if n > padded_nb_rows {
                        Err(TraceError::ShapeTooSmall { rows: n })
                    } else {
                        Ok(padded_nb_rows)
                    }
                },
                None => Err(TraceError::TooLarge),
            }
        },
        None => {
            let mut p: usize = 1;
            let ghost mut j: nat = 0;
            while p < n
                invariant
                    fixed_power is None,
                    p == pow2(j),
                    double_up_to(p as nat, n as nat) == next_pow2(n as nat),
                decreases (if p < n { n - p } else { 0 }),
            {
                proof {
                    lemma_double_up_to_bounds(j, n as nat);
                    lemma_next_pow2(n as nat);
                }
                match p.checked_mul(2) {
                    Some(q) => {
                        p = q;
                    },
                    None => {
                        return Err(TraceError::TooLarge);
                    },
                }
                proof {
                    j = j + 1;
                }
            }
            proof {
                lemma_pow2_positive(j);
            }
            Ok(p)
        },
    }
}

/// Pads `rows` with copies of `fill` to the row count that `size_log2` fixes,
/// or to the next power of two. On an error `rows` is left as it was.
pub fn pad_rows_fixed<R: Copy>(rows: &mut Vec<R>, fill: R, size_log2: Option<usize>) -> (r: Result<
    (),
    TraceError,
>)
    ensures
        match padded_rows_checked(old(rows)@.len(), size_log2) {
            Ok(target) => r == Ok::<(), TraceError>(()) && final(rows)@ == pad_seq(
                old(rows)@,
                fill,
                target as nat,
            ),
            Err(e) => r == Err::<(), TraceError>(e) && final(rows)@ == old(rows)@,
        },
{
    let nb_rows = rows.len();
    let target = match next_power_of_two(nb_rows, size_log2) {
        Ok(target) => target,
        Err(e) => {
            return Err(e);
        },
    };
    while rows.len() < target
        invariant
            nb_rows == old(rows)@.len(),
            nb_rows <= rows.len() <= target,
            rows@ == pad_seq(old(rows)@, fill, rows.len() as nat),
        decreases target - rows.len(),
    {
        rows.push(fill);
    }
    Ok(())
}

} // verus!

//! The synthetic compute-bound workload: counting the steps a numeric
//! trajectory takes to converge to 1.
//!
//! The pool itself does not depend on this function; any compute-bound
//! callable with the same shape is substitutable. It is verified here because
//! the drivers hand it to every task.

use vstd::prelude::*;

verus! {

use vstd::arithmetic::div_mod::lemma_fundamental_div_mod;
use vstd::arithmetic::mul::lemma_mul_inequality;

/// One step of the trajectory: halve an even value, triple-plus-one an odd
/// one.
pub open spec fn collatz_next(n: int) -> int {
    if n % 2 == 0 {
        n / 2
    } else {
        3 * n + 1
    }
}

/// The value of the trajectory of `n` after `k` steps.
pub open spec fn collatz_iter(n: int, k: nat) -> int
    decreases k,
{
    if k == 0 {
        n
    } else {
        collatz_next(collatz_iter(n, (k - 1) as nat))
    }
}

/// `s` is the convergence step count of `n`: the first index at which the
/// trajectory reaches 1.
pub open spec fn is_step_count(n: int, s: nat) -> bool {
    collatz_iter(n, s) == 1 && (forall|j: nat| j < s ==> collatz_iter(n, j) != 1)
}

/// The trajectory of `n` reaches 1 within the limits of the machine: in at
/// most `u32::MAX` steps, with every intermediate value representable in
/// `u64`.
pub open spec fn converges_in_machine_range(n: int) -> bool {
    exists|s: nat|
        s <= u32::MAX && #[trigger] is_step_count(n, s) && (forall|j: nat|
            j <= s ==> 1 <= #[trigger] collatz_iter(n, j) <= u64::MAX)
}

/// The number of steps the trajectory of `n` takes to reach 1. `None` for
/// zero (that trajectory never reaches 1), for a trajectory that would leave
/// `u64`, and for one that would take more than `u32::MAX` steps; `Some` is
/// owed in every other case.
pub fn collatz_steps(n: u64) -> (r: Option<u32>)
    ensures
        r is Some <==> (1 <= n && converges_in_machine_range(n as int)),
        r matches Some(s) ==> is_step_count(n as int, s as nat),
{
    if n == 0 {
        return None;
    }
    let mut cur: u64 = n;
    let mut steps: u32 = 0;
    while cur != 1
        invariant
            1 <= n,
            1 <= cur,
            cur == collatz_iter(n as int, steps as nat),
            forall|j: nat| j <= steps ==> 1 <= #[trigger] collatz_iter(n as int, j) <= u64::MAX,
            forall|j: nat| j < steps ==> #[trigger] collatz_iter(n as int, j) != 1,
        decreases u32::MAX - steps,
    {
        if steps == u32::MAX {
            // The count would leave `u32`: any first hit would have had to
            // come earlier, and none did.
            proof {
                assert(!converges_in_machine_range(n as int)) by {
                    if converges_in_machine_range(n as int) {
                        let s = choose|s: nat|
                            s <= u32::MAX && #[trigger] is_step_count(n as int, s) && (forall|
                                j: nat,
                            |
                                j <= s ==> 1 <= #[trigger] collatz_iter(n as int, j)
                                    <= u64::MAX);
                        assert(collatz_iter(n as int, s) == 1);
                        assert(s == steps ==> collatz_iter(n as int, s) == cur);
                    }
                }
            }
            return None;
        }
        if cur % 2 == 0 {
            cur = cur / 2;
        } else {
            let limit: u64 = (u64::MAX - 1) / 3;
            if cur > limit {
                // The next value, three times `cur` plus one, would leave
                // `u64`: no run of representable intermediates reaches 1.
                proof {
                    lemma_fundamental_div_mod(u64::MAX as int - 1, 3);
                    assert(3 * (limit as int + 1) + 1 > u64::MAX);
                    assert(collatz_iter(n as int, (steps + 1) as nat) == 3 * cur + 1);
                    assert(!converges_in_machine_range(n as int)) by {
                        if converges_in_machine_range(n as int) {
                            let s = choose|s: nat|
                                s <= u32::MAX && #[trigger] is_step_count(n as int, s) && (forall|
                                    j: nat,
                                |
                                    j <= s ==> 1 <= #[trigger] collatz_iter(n as int, j)
                                        <= u64::MAX);
                            if s <= steps as nat {
                                assert(s == steps ==> collatz_iter(n as int, s) == cur);
                                assert(false);
                            } else {
                                assert(steps + 1 <= s);
                                assert(1 <= collatz_iter(n as int, (steps + 1) as nat)
                                    <= u64::MAX);
                                assert(3 * cur + 1 > 3 * (limit as int) + 1) by (nonlinear_arith)
                                    requires
                                        cur > limit,
                                ;
                                assert(false);
                            }
                        }
                    }
                }
                return None;
            }
            proof {
                lemma_fundamental_div_mod(u64::MAX as int - 1, 3);
                lemma_mul_inequality(cur as int, limit as int, 3);
                assert(cur as int * 3 == 3 * (cur as int)) by (nonlinear_arith);
            }
            cur = 3 * cur + 1;
        }
        proof {
            assert(collatz_iter(n as int, (steps + 1) as nat) == collatz_next(
                collatz_iter(n as int, steps as nat),
            ));
        }
        steps = steps + 1;
    }
    proof {
        assert(is_step_count(n as int, steps as nat));
    }
    Some(steps)
}

} // verus!

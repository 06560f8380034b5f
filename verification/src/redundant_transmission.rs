//! Sending the same data over up to four paths at once, accepting the first
//! path that succeeds: the limits on the number of paths, and how the
//! results that arrive are settled (the first success wins, counting the
//! failures that came before it; if none succeeds, the last error, or a
//! fixed message when nothing arrived). Running the paths on threads is
//! left to the caller.

use vstd::prelude::*;

verus! {

/// The most paths one send may use.
pub const MAX_REDUNDANT_PATHS: usize = 4;

#[derive(Debug, Clone)]
pub struct RedundantSendOutcome<T> {
    /// The position (among the given paths) of the path that succeeded.
    pub succeeded_path_index: usize,
    pub value: T,
    /// How many paths had failed before the success arrived.
    pub failed_before_success: usize,
}

pub open spec fn no_paths_message() -> Seq<char> {
    "no paths provided / 経路が1本も指定されていません"@
}

pub open spec fn too_many_paths_message() -> Seq<char> {
    "cannot use more than 4 redundant paths / 冗長経路は最大4本までです"@
}

pub open spec fn all_failed_message() -> Seq<char> {
    "all redundant paths failed or timed out / 全ての冗長経路が失敗またはタイムアウトしました"@
}

/// Checks the number of paths of a redundant send: at least one, at most
/// [`MAX_REDUNDANT_PATHS`].
pub fn check_path_count(n: usize) -> (r: Result<(), String>)
    ensures
        n == 0 ==> (r matches Err(e) && e@ == no_paths_message()),
        n > MAX_REDUNDANT_PATHS ==> (r matches Err(e) && e@ == too_many_paths_message()),
        1 <= n <= MAX_REDUNDANT_PATHS ==> r is Ok,
{
    if n == 0 {
        return Err("no paths provided / 経路が1本も指定されていません".to_owned());
    }
    if n > MAX_REDUNDANT_PATHS {
        return Err("cannot use more than 4 redundant paths / 冗長経路は最大4本までです".to_owned());
    }
    Ok(())
}

/// The index of the first successful arrival among the first `n`.
pub open spec fn first_success<T>(arrivals: Seq<(usize, Result<T, String>)>, n: int) -> Option<int>
    decreases n,
{
    if n <= 0 {
        None
    } else {
        match first_success(arrivals, n - 1) {
            Some(i) => Some(i),
            None => if arrivals[n - 1].1 is Ok {
                Some(n - 1)
            } else {
                None
            },
        }
    }
}

proof fn lemma_first_success_props<T>(arrivals: Seq<(usize, Result<T, String>)>, n: int)
    requires
        0 <= n <= arrivals.len(),
    ensures
        first_success(arrivals, n) matches Some(i) ==> 0 <= i < n && arrivals[i].1 is Ok && (forall|
            j: int,
        | 0 <= j < i ==> (#[trigger] arrivals[j]).1 is Err),
        first_success(arrivals, n) is None ==> forall|j: int|
            0 <= j < n ==> (#[trigger] arrivals[j]).1 is Err,
    decreases n,
{
    if n > 0 {
        lemma_first_success_props(arrivals, n - 1);
    }
}

proof fn lemma_first_success_stable<T>(arrivals: Seq<(usize, Result<T, String>)>, a: int, b: int)
    requires
        0 <= a <= b,
        first_success(arrivals, a) is Some,
    ensures
        first_success(arrivals, b) == first_success(arrivals, a),
    decreases b - a,
{
    if b > a {
        lemma_first_success_stable(arrivals, a, b - 1);
    }
}

/// Settles a redundant send from the results in the order they arrived
/// (`(path index, result)`): the first success wins, with the number of
/// failures before it; with no success, the error of the last arrival, or
/// [`all_failed_message`] when nothing arrived.
pub fn settle_redundant<T>(arrivals: Vec<(usize, Result<T, String>)>) -> (r: Result<
    RedundantSendOutcome<T>,
    String,
>)
    ensures
        first_success(arrivals@, arrivals@.len() as int) matches Some(i) ==> (r matches Ok(o) && o.succeeded_path_index
            == arrivals@[i].0 && arrivals@[i].1 == Ok::<T, String>(o.value)
            && o.failed_before_success == i),
        first_success(arrivals@, arrivals@.len() as int) is None && arrivals@.len() > 0 ==> (r matches Err(e)
            && arrivals@.last().1 == Err::<T, String>(e)),
        arrivals@.len() == 0 ==> (r matches Err(e) && e@ == all_failed_message()),
{
    let total = arrivals.len();
    let ghost all = arrivals@;
    proof {
        lemma_first_success_props(all, all.len() as int);
    }
    let mut failed: usize = 0;
    let mut last_err: Option<String> = None;
    let mut rest = arrivals;
    let ghost n = total as nat;
    let mut k: usize = 0;
    while rest.len() > 0
        invariant
            k <= n,
            n == all.len(),
            all == arrivals@,
            n <= usize::MAX,
            rest@ == all.subrange(k as int, n as int),
            failed == k,
            first_success(all, k as int) is None,
            k > 0 ==> (last_err matches Some(e) && all[k - 1].1 == Err::<T, String>(e)),
            k == 0 ==> last_err is None,
        decreases rest.len(),
    {
        let (idx, result) = rest.remove(0);
        assert(all[k as int] == (idx, result));
        match result {
            Ok(value) => {
                proof {
                    assert(first_success(all, k + 1) == Some(k as int));
                    lemma_first_success_stable(all, k + 1, n as int);
                }
                return Ok(RedundantSendOutcome { succeeded_path_index: idx, value, failed_before_success: failed });
            },
            Err(e) => {
                failed = failed + 1;
                last_err = Some(e);
            },
        }
        k = k + 1;
        assert(rest@ =~= all.subrange(k as int, n as int));
    }
    match last_err {
        Some(e) => Err(e),
        None => Err("all redundant paths failed or timed out / 全ての冗長経路が失敗またはタイムアウトしました".to_owned()),
    }
}

} // verus!

//! Protection of removable drives: the list of removable drives that
//! PowerShell prints (one drive letter per line), which drives appeared
//! since the last poll, and the result of neutralising an `autorun.inf`
//! (renamed, never deleted). Querying the OS, renaming and scanning are left
//! to the caller.

use vstd::prelude::*;
use vstd::string::{StrSliceExecFns, StringExecFns};

use crate::text::{chars_of, lines, lines_ranges, range_pieces, str_eq, trim, trim_range};

verus! {

#[derive(Debug, Clone, Copy, PartialEq, Eq, Structural)]
pub struct AutorunCheckResult {
    pub found: bool,
    pub quarantined: bool,
}

/// The result of neutralising `autorun.inf`: found when it existed,
/// quarantined when it existed and the rename succeeded.
pub fn autorun_check_result(existed: bool, renamed: bool) -> (r: AutorunCheckResult)
    ensures
        r.found == existed,
        r.quarantined == (existed && renamed),
{
    AutorunCheckResult { found: existed, quarantined: existed && renamed }
}

/// The drive roots in a listing of drive letters: every non-blank line,
/// trimmed, followed by a backslash.
pub open spec fn drive_roots(ls: Seq<Seq<char>>) -> Seq<Seq<char>>
    decreases ls.len(),
{
    if ls.len() == 0 {
        Seq::empty()
    } else {
        let before = drive_roots(ls.drop_last());
        if trim(ls.last()).len() == 0 {
            before
        } else {
            before.push(trim(ls.last()) + "\\"@)
        }
    }
}

pub open spec fn views_of(v: Seq<String>) -> Seq<Seq<char>> {
    v.map_values(|s: String| s@)
}

/// Parses the drive letters that `Win32_LogicalDisk` (removable drives)
/// prints, one per line, into drive roots such as `E:\`.
pub fn parse_removable_drive_list(stdout: &str) -> (drives: Vec<String>)
    ensures
        views_of(drives@) == drive_roots(lines(stdout@)),
{
    let v = chars_of(stdout);
    let ls = lines_ranges(&v);
    let ghost all = lines(v@);
    let mut drives: Vec<String> = Vec::new();
    let n = ls.len();
    let mut k: usize = 0;
    while k < n
        invariant
            n == ls@.len(),
            k <= n,
            v@ == stdout@,
            all == lines(v@),
            range_pieces(v@, ls@) == all,
            forall|j: int| #![trigger ls@[j]] 0 <= j < ls@.len() ==> ls@[j].0 <= ls@[j].1 <= v@.len(),
            views_of(drives@) == drive_roots(all.subrange(0, k as int)),
        decreases n - k,
    {
        let (a, b) = ls[k];
        assert(range_pieces(v@, ls@)[k as int] == v@.subrange(a as int, b as int));
        proof {
            assert(all.subrange(0, k + 1).drop_last() =~= all.subrange(0, k as int));
            assert(all.subrange(0, k + 1).last() == v@.subrange(a as int, b as int));
        }
        let (ta, tb) = trim_range(&v, a, b);
        if ta < tb {
            let ghost before = drives@;
            let mut root = stdout.substring_char(ta, tb).to_owned();
            root.append("\\");
            drives.push(root);
            assert(views_of(drives@) =~= views_of(before).push(root@));
        }
        k = k + 1;
    }
    assert(all.subrange(0, n as int) =~= all);
    drives
}

pub(crate) fn contains_name(v: &Vec<String>, name: &str) -> (r: bool)
    ensures
        r == views_of(v@).contains(name@),
{
    let n = v.len();
    let mut i: usize = 0;
    while i < n
        invariant
            n == v@.len(),
            i <= n,
            forall|j: int| 0 <= j < i ==> v@[j]@ != name@,
        decreases n - i,
    {
        if str_eq(v[i].as_str(), name) {
            assert(views_of(v@)[i as int] == name@);
            return true;
        }
        i = i + 1;
    }
    assert(!views_of(v@).contains(name@)) by {
        if views_of(v@).contains(name@) {
            let j = choose|j: int| 0 <= j < views_of(v@).len() && views_of(v@)[j] == name@;
            assert(v@[j]@ == name@);
        }
    }
    false
}

/// One polling step of removable-drive detection: `current` is the drive
/// list just read, `seen` the drives known from the previous step. Returns
/// the drives that are new (in `current`, not in `seen`), each once, and
/// replaces `seen` by the drives of `current`, each once.
pub fn poll_new_drives(seen: &mut Vec<String>, current: Vec<String>) -> (newly_inserted: Vec<String>)
    ensures
        views_of(final(seen)@).no_duplicates(),
        views_of(final(seen)@).to_set() == views_of(current@).to_set(),
        views_of(newly_inserted@).no_duplicates(),
        views_of(newly_inserted@).to_set() == views_of(current@).to_set().difference(
            views_of(old(seen)@).to_set(),
        ),
{
    let mut now: Vec<String> = Vec::new();
    let mut fresh: Vec<String> = Vec::new();
    let n = current.len();
    let mut i: usize = 0;
    while i < n
        invariant
            n == current@.len(),
            i <= n,
            *seen == *old(seen),
            views_of(now@).no_duplicates(),
            views_of(fresh@).no_duplicates(),
            views_of(now@).to_set() == views_of(current@.subrange(0, i as int)).to_set(),
            views_of(fresh@).to_set() == views_of(current@.subrange(0, i as int)).to_set().difference(
                views_of(seen@).to_set(),
            ),
        decreases n - i,
    {
        let name = current[i].as_str();
        let ghost prefix = views_of(current@.subrange(0, i as int));
        let ghost next = views_of(current@.subrange(0, i + 1));
        proof {
            assert(next =~= prefix.push(name@));
            prefix.lemma_push_to_set_commute(name@);
        }
        if !contains_name(&now, name) {
            let ghost old_now = views_of(now@);
            let ghost old_fresh = views_of(fresh@);
            now.push(current[i].clone());
            proof {
                assert(views_of(now@) =~= old_now.push(name@));
                old_now.lemma_push_to_set_commute(name@);
                assert(views_of(now@).no_duplicates()) by {
                    assert forall|a: int, b: int|
                        0 <= a < views_of(now@).len() && 0 <= b < views_of(now@).len() && a != b
                        implies views_of(now@)[a] != views_of(now@)[b] by {
                        if a < old_now.len() && b < old_now.len() {
                        } else if a == old_now.len() {
                            assert(old_now[b] != name@);
                        } else {
                            assert(old_now[a] != name@);
                        }
                    }
                }
            }
            if !contains_name(seen, name) {
                fresh.push(current[i].clone());
                proof {
                    assert(views_of(fresh@) =~= old_fresh.push(name@));
                    old_fresh.lemma_push_to_set_commute(name@);
                    assert(!old_fresh.contains(name@)) by {
                        if old_fresh.contains(name@) {
                            let j = choose|j: int| 0 <= j < old_fresh.len() && old_fresh[j] == name@;
                            assert(old_fresh.to_set().contains(name@));
                            assert(old_now.to_set().contains(name@));
                        }
                    }
                    assert(views_of(fresh@).no_duplicates()) by {
                        assert forall|a: int, b: int|
                            0 <= a < views_of(fresh@).len() && 0 <= b < views_of(fresh@).len()
                                && a != b implies views_of(fresh@)[a] != views_of(fresh@)[b] by {
                            if a < old_fresh.len() && b < old_fresh.len() {
                            } else if a == old_fresh.len() {
                                assert(old_fresh[b] != name@);
                            } else {
                                assert(old_fresh[a] != name@);
                            }
                        }
                    }
                    assert(views_of(fresh@).to_set() =~= next.to_set().difference(
                        views_of(seen@).to_set(),
                    ));
                }
            } else {
                proof {
                    assert(views_of(seen@).to_set().contains(name@));
                    assert(views_of(fresh@).to_set() =~= next.to_set().difference(
                        views_of(seen@).to_set(),
                    ));
                }
            }
        } else {
            proof {
                assert(views_of(now@).to_set().contains(name@));
                assert(views_of(now@).to_set() =~= next.to_set());
                assert(views_of(fresh@).to_set() =~= next.to_set().difference(
                    views_of(seen@).to_set(),
                ));
            }
        }
        i = i + 1;
    }
    assert(current@.subrange(0, n as int) =~= current@);
    *seen = now;
    fresh
}

} // verus!

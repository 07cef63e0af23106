//! What the device report shows of a disk.
use vstd::prelude::*;
use crate::devices::{Disk, DiskStatus};

verus! {

/// `yes` or `no`.
pub fn yes_no(value: bool) -> (r: &'static str)
    ensures
        r@ == (if value {
            "yes"@
        } else {
            "no"@
        }),
{
    if value {
        "yes"
    } else {
        "no"
    }
}

/// The positions, in increasing order, of the disks with the given status.
pub open spec fn positions_with_status(disks: Seq<Disk>, status: DiskStatus) -> Seq<usize>
    decreases disks.len(),
{
    if disks.len() == 0 {
        Seq::empty()
    } else {
        let before = positions_with_status(disks.drop_last(), status);
        if disks.last().status_spec() == status {
            before.push((disks.len() - 1) as usize)
        } else {
            before
        }
    }
}

/// Where the disks of one group of the report stand in `disks`, in order.
pub fn disks_with_status(disks: &Vec<Disk>, status: DiskStatus) -> (r: Vec<usize>)
    ensures
        r@ == positions_with_status(disks@, status),
        forall|k: int| 0 <= k < r@.len() ==> (#[trigger] r@[k]) < disks@.len() && disks@[r@[k] as int].status_spec() == status,
        forall|i: int| 0 <= i < disks@.len() && (#[trigger] disks@[i]).status_spec() == status ==> r@.contains(i as usize),
{
    let mut found: Vec<usize> = Vec::new();
    let mut i: usize = 0;
    while i < disks.len()
        invariant
            i <= disks.len(),
            found@ == positions_with_status(disks@.take(i as int), status),
        decreases disks.len() - i,
    {
        assert(disks@.take(i + 1).drop_last() == disks@.take(i as int));
        assert(disks@.take(i + 1).last() == disks@[i as int]);
        if disks[i].status() == status {
            found.push(i);
        }
        i = i + 1;
    }
    assert(disks@.take(disks.len() as int) == disks@);
    proof {
        lemma_positions_are_the_disks_with_status(disks@, status);
    }
    found
}

/// The positions for a status are, in increasing order, exactly those of
/// the disks with that status.
pub proof fn lemma_positions_are_the_disks_with_status(disks: Seq<Disk>, status: DiskStatus)
    requires
        disks.len() <= usize::MAX,
    ensures
        forall|k: int|
            0 <= k < positions_with_status(disks, status).len() ==> {
                let p = #[trigger] positions_with_status(disks, status)[k];
                &&& p < disks.len()
                &&& disks[p as int].status_spec() == status
            },
        forall|k: int, l: int|
            0 <= k < l < positions_with_status(disks, status).len() ==> #[trigger] positions_with_status(
                disks,
                status,
            )[k] < #[trigger] positions_with_status(disks, status)[l],
        forall|i: int|
            0 <= i < disks.len() && (#[trigger] disks[i]).status_spec() == status ==> positions_with_status(
                disks,
                status,
            ).contains(i as usize),
    decreases disks.len(),
{
    if disks.len() > 0 {
        let rest = disks.drop_last();
        lemma_positions_are_the_disks_with_status(rest, status);
        let before = positions_with_status(rest, status);
        let all = positions_with_status(disks, status);
        assert forall|k: int| 0 <= k < all.len() implies {
            let p = #[trigger] all[k];
            &&& p < disks.len()
            &&& disks[p as int].status_spec() == status
        } by {
            if k < before.len() {
                assert(all[k] == before[k]);
                assert(disks[before[k] as int] == rest[before[k] as int]);
            }
        }
        assert forall|k: int, l: int| 0 <= k < l < all.len() implies #[trigger] all[k] < #[trigger] all[l] by {
            if l < before.len() {
                assert(all[k] == before[k]);
                assert(all[l] == before[l]);
            } else {
                assert(all[k] == before[k]);
                assert(before[k] < rest.len());
            }
        }
        assert forall|i: int| 0 <= i < disks.len() && (#[trigger] disks[i]).status_spec() == status implies all.contains(
            i as usize,
        ) by {
            if i < disks.len() - 1 {
                assert(rest[i] == disks[i]);
                let k: int = choose|k: int| 0 <= k < before.len() && before[k] == i as usize;
                assert(all[k] == before[k]);
            } else {
                assert(all[all.len() - 1] == i as usize);
            }
        }
    }
}

} // verus!

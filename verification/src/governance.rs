//! The governance gate: an administrative call goes through when enough
//! registered admins stand among those who authorized it.

use vstd::prelude::*;
use crate::store::{contains_text, texts, upsert_keys, KeyedStore};

verus! {

/// Number of the admins that occur among `signers`. The admins are distinct,
/// so each one counts once however often it signed.
pub open spec fn approvals(admins: Seq<Seq<char>>, signers: Seq<Seq<char>>) -> nat
    decreases admins.len(),
{
    if admins.len() == 0 {
        0
    } else {
        approvals(admins.drop_last(), signers) + if signers.contains(admins.last()) {
            1nat
        } else {
            0nat
        }
    }
}

/// Governance lets a call through when at least `min_signatures` admins signed.
pub open spec fn quorum_met(
    admins: Seq<Seq<char>>,
    min_signatures: u32,
    signers: Seq<Seq<char>>,
) -> bool {
    approvals(admins, signers) >= min_signatures
}

/// The names of `list` in order of first occurrence, each once.
pub open spec fn distinct(list: Seq<Seq<char>>) -> Seq<Seq<char>>
    decreases list.len(),
{
    if list.len() == 0 {
        Seq::<Seq<char>>::empty()
    } else {
        upsert_keys(distinct(list.drop_last()), list.last())
    }
}

/// Nobody approves without signers, and no more approve than there are admins.
pub proof fn lemma_approvals_bounds(admins: Seq<Seq<char>>, signers: Seq<Seq<char>>)
    ensures
        approvals(admins, signers) <= admins.len(),
        signers.len() == 0 ==> approvals(admins, signers) == 0,
    decreases admins.len(),
{
    if admins.len() > 0 {
        lemma_approvals_bounds(admins.drop_last(), signers);
    }
}

/// Counts the admins that occur among `signers`.
pub fn count_approvals(admins: &KeyedStore<()>, signers: &Vec<String>) -> (count: usize)
    requires
        admins.wf(),
    ensures
        count == approvals(admins.keys(), texts(signers@)),
{
    let n: usize = admins.len();
    let mut count: usize = 0;
    let mut i: usize = 0;
    while i < n
        invariant
            admins.wf(),
            n == admins.keys().len(),
            i <= n,
            count <= i,
            count == approvals(admins.keys().take(i as int), texts(signers@)),
        decreases n - i,
    {
        proof {
            assert(admins.keys().take(i + 1).drop_last() =~= admins.keys().take(i as int));
        }
        if contains_text(signers, admins.key_at(i)) {
            count = count + 1;
        }
        i += 1;
    }
    proof {
        assert(admins.keys().take(n as int) =~= admins.keys());
    }
    count
}

/// Whether at least `min_signatures` admins occur among `signers`.
pub fn check_quorum(admins: &KeyedStore<()>, min_signatures: u32, signers: &Vec<String>) -> (ok:
    bool)
    requires
        admins.wf(),
    ensures
        ok == quorum_met(admins.keys(), min_signatures, texts(signers@)),
{
    count_approvals(admins, signers) >= min_signatures as usize
}

/// Builds the admin set of a list of names: each name once, in order of
/// first occurrence.
pub fn admin_set(list: &Vec<String>) -> (admins: KeyedStore<()>)
    ensures
        admins.wf(),
        admins.keys() == distinct(texts(list@)),
{
    let mut admins: KeyedStore<()> = KeyedStore::new();
    let mut i: usize = 0;
    while i < list.len()
        invariant
            admins.wf(),
            i <= list.len(),
            admins.keys() == distinct(texts(list@).take(i as int)),
        decreases list.len() - i,
    {
        proof {
            assert(texts(list@).take(i + 1).drop_last() =~= texts(list@).take(i as int));
        }
        admins.insert(list[i].clone(), ());
        i += 1;
    }
    proof {
        assert(texts(list@).take(list.len() as int) =~= texts(list@));
    }
    admins
}

} // verus!

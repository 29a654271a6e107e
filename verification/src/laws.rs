use vstd::prelude::*;

verus! {

use crate::device::{AccountId, Error, IotDevice};
use crate::registry::RegistryView;

/// The registry state after a sequence of mint attempts, applied in order.
/// Each attempt is a caller together with the candidate identifier its
/// entropy and call context derived.
pub open spec fn apply_all(v: RegistryView, reqs: Seq<(AccountId, [u8; 16])>) -> RegistryView
    decreases reqs.len(),
{
    if reqs.len() == 0 {
        v
    } else {
        apply_all(v.mint_post(reqs[0].0, reqs[0].1), reqs.skip(1))
    }
}

/// The identifiers returned by the successful attempts of a sequence, in
/// order; failed attempts return nothing.
pub open spec fn minted_ids(v: RegistryView, reqs: Seq<(AccountId, [u8; 16])>) -> Seq<[u8; 16]>
    decreases reqs.len(),
{
    if reqs.len() == 0 {
        Seq::empty()
    } else {
        let rest = minted_ids(v.mint_post(reqs[0].0, reqs[0].1), reqs.skip(1));
        if v.mint_result(reqs[0].0, reqs[0].1) is Ok {
            seq![reqs[0].1] + rest
        } else {
            rest
        }
    }
}

/// A failed mint changes nothing: whatever the failure, the state after
/// the attempt is the state before it, field for field.
pub proof fn lemma_no_partial_mutation(v: RegistryView, owner: AccountId, id: [u8; 16])
    ensures
        v.mint_result(owner, id) is Err ==> v.mint_post(owner, id) == v,
{
}

/// An owner already at the configured capacity cannot mint another device:
/// the attempt fails, with `MaximumDevicesOwned` once the duplicate check
/// passes, and the state is untouched.
pub proof fn lemma_capacity_enforcement(v: RegistryView, owner: AccountId, id: [u8; 16])
    requires
        v.owner_ids(owner).len() >= v.max_owned,
    ensures
        v.mint_result(owner, id) is Err,
        !v.contains_id(id) ==> v.mint_result(owner, id) == Err::<[u8; 16], Error>(
            Error::MaximumDevicesOwned,
        ),
        v.mint_post(owner, id) == v,
{
}

/// The counter counts exactly the successful mints: after any sequence of
/// attempts, the count has grown by precisely the number of identifiers
/// returned, so a fresh registry reaches `count == K` after exactly `K`
/// successes. The invariant is preserved throughout, and one event is
/// recorded per success, none per failure.
pub proof fn lemma_counter_integrity(v: RegistryView, reqs: Seq<(AccountId, [u8; 16])>)
    requires
        v.wf(),
    ensures
        apply_all(v, reqs).wf(),
        apply_all(v, reqs).count == v.count + minted_ids(v, reqs).len(),
        apply_all(v, reqs).events.len() == v.events.len() + minted_ids(v, reqs).len(),
    decreases reqs.len(),
{
    if reqs.len() == 0 {
    } else {
        let o = reqs[0].0;
        let id = reqs[0].1;
        let v1 = v.mint_post(o, id);
        if v.mint_result(o, id) is Ok {
            v.lemma_commit(o, id);
        }
        lemma_counter_integrity(v1, reqs.skip(1));
    }
}

/// Uniqueness: over any sequence of attempts, the identifiers returned by
/// the successful mints are pairwise distinct, none of them was present
/// before, and each of them is registered afterwards; since the invariant
/// keeps device identifiers globally unique, the final state holds exactly
/// one record per returned identifier. Registered identifiers are never
/// lost along the way.
pub proof fn lemma_uniqueness(v: RegistryView, reqs: Seq<(AccountId, [u8; 16])>)
    requires
        v.wf(),
    ensures
        apply_all(v, reqs).wf(),
        forall|x: [u8; 16]|
            v.contains_id(x) ==> #[trigger] apply_all(v, reqs).contains_id(x),
        forall|a: int|
            0 <= a < minted_ids(v, reqs).len() ==> apply_all(v, reqs).contains_id(
                #[trigger] minted_ids(v, reqs)[a],
            ) && !v.contains_id(minted_ids(v, reqs)[a]),
        forall|a: int, b: int|
            #![trigger minted_ids(v, reqs)[a], minted_ids(v, reqs)[b]]
            0 <= a < minted_ids(v, reqs).len() && 0 <= b < minted_ids(v, reqs).len() && a != b
                ==> minted_ids(v, reqs)[a] != minted_ids(v, reqs)[b],
    decreases reqs.len(),
{
    if reqs.len() == 0 {
    } else {
        let o = reqs[0].0;
        let id = reqs[0].1;
        let v1 = v.mint_post(o, id);
        let w = apply_all(v, reqs);
        let rest = minted_ids(v1, reqs.skip(1));
        let minted = minted_ids(v, reqs);
        if v.mint_result(o, id) is Ok {
            v.lemma_commit(o, id);
        }
        lemma_uniqueness(v1, reqs.skip(1));
        assert(w == apply_all(v1, reqs.skip(1)));
        if v.mint_result(o, id) is Ok {
            assert(minted == seq![id] + rest);
            assert(minted[0] == id);
            assert forall|a: int| 1 <= a < minted.len() implies #[trigger] minted[a] == rest[a
                - 1] by {}
            assert(v1.contains_id(id));
            assert(w.contains_id(id));
            assert forall|a: int|
                0 <= a < minted.len() implies w.contains_id(#[trigger] minted[a])
                && !v.contains_id(minted[a]) by {
                if a == 0 {
                } else {
                    assert(rest[a - 1] == minted[a]);
                    assert(w.contains_id(rest[a - 1]) && !v1.contains_id(rest[a - 1]));
                    if v.contains_id(minted[a]) {
                        assert(v1.contains_id(minted[a]));
                    }
                }
            }
            assert forall|a: int, b: int|
                #![trigger minted[a], minted[b]]
                0 <= a < minted.len() && 0 <= b < minted.len() && a != b implies minted[a]
                != minted[b] by {
                if a == 0 {
                    assert(minted[b] == rest[b - 1]);
                    assert(!v1.contains_id(rest[b - 1]));
                    assert(v1.contains_id(id));
                } else if b == 0 {
                    assert(minted[a] == rest[a - 1]);
                    assert(!v1.contains_id(rest[a - 1]));
                    assert(v1.contains_id(id));
                } else {
                    assert(minted[a] == rest[a - 1] && minted[b] == rest[b - 1]);
                    assert(rest[a - 1] != rest[b - 1]);
                }
            }
        } else {
            assert(v1 == v);
            assert(minted == rest);
        }
    }
}

/// Lookup after a successful mint: the registry then contains the
/// identifier, `record_for` yields exactly the record that was committed,
/// and an identifier is contained exactly when lookup yields a record.
pub proof fn lemma_idempotent_lookup(v: RegistryView, owner: AccountId, id: [u8; 16])
    requires
        v.wf(),
        v.mint_result(owner, id) is Ok,
    ensures
        v.mint_post(owner, id).contains_id(id),
        v.mint_post(owner, id).record_for(id) == Some(IotDevice { unique_id: id, owner }),
        forall|x: [u8; 16]|
            #![trigger v.mint_post(owner, id).contains_id(x)]
            #![trigger v.mint_post(owner, id).record_for(x)]
            v.mint_post(owner, id).contains_id(x) <==> v.mint_post(owner, id).record_for(x)
                is Some,
{
    v.lemma_commit(owner, id);
}

/// Committed records persist unchanged: once an identifier resolves to a
/// record, every later sequence of attempts leaves that resolution exactly
/// as it was.
pub proof fn lemma_records_persist(v: RegistryView, reqs: Seq<(AccountId, [u8; 16])>)
    requires
        v.wf(),
    ensures
        forall|x: [u8; 16]|
            v.record_for(x) is Some ==> #[trigger] apply_all(v, reqs).record_for(x)
                == v.record_for(x),
    decreases reqs.len(),
{
    if reqs.len() == 0 {
    } else {
        let o = reqs[0].0;
        let id = reqs[0].1;
        let v1 = v.mint_post(o, id);
        if v.mint_result(o, id) is Ok {
            v.lemma_commit(o, id);
        }
        lemma_records_persist(v1, reqs.skip(1));
        assert forall|x: [u8; 16]|
            v.record_for(x) is Some implies #[trigger] apply_all(v, reqs).record_for(x)
            == v.record_for(x) by {
            assert(v.contains_id(x));
            if v.mint_result(o, id) is Ok {
                assert(x != id);
                assert(v1.record_for(x) == v.record_for(x));
            }
            assert(apply_all(v1, reqs.skip(1)).record_for(x) == v1.record_for(x));
        }
    }
}

} // verus!

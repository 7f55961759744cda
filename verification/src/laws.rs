//! The ledger's cross-cutting laws: value conservation of the royalty split,
//! exclusivity foreclosure, duplicate-guard consistency, idempotence of
//! duplicate mints, and the transfer round trip.

use vstd::prelude::*;
use crate::errors::Error;
use crate::guard_map::GuardVal;
use crate::index_map::tomb_first;
use crate::ledger::LedgerView;
use crate::ledger::has_exclusive_license;
use crate::ledger::flag_set;
use crate::ledger::live_filter;
use crate::ledger::mint_effect;
use crate::ledger::mint_error;
use crate::ledger::platform_fee_amount;
use crate::ledger::required_transfer_total;
use crate::ledger::royalty_amount;
use crate::ledger::transfer_effect;
use crate::ledger::transfer_error;
use crate::license::LicenseView;
use crate::license::type_of_code;

verus! {

/// Whether license `l` is an active license of kind `t` for sample `s`,
/// currently owned by `a`.
pub open spec fn owns_kind(l: LicenseView, a: u64, s: u64, t: u8) -> bool {
    &&& l.current_owner == a
    &&& l.sample_id == s
    &&& l.license_type.code() == t
    &&& l.is_active
}

/// Guard consistency: a duplicate-guard cell is set exactly when its account
/// currently owns an active license of that type for that sample, the cell
/// records that license's id, a cleared cell records no id, and no account
/// ever owns two active licenses of the same type for the same sample.
pub open spec fn guards_consistent(
    guards: Map<(u64, u64, u8), GuardVal>,
    licenses: Seq<LicenseView>,
) -> bool {
    &&& forall|a: u64, s: u64, t: u8|
        (#[trigger] crate::guard_map::guard_of(guards, a, s, t)).holds <==> exists|i: int|
            0 <= i < licenses.len() && owns_kind(#[trigger] licenses[i], a, s, t)
    &&& forall|a: u64, s: u64, t: u8|
        (#[trigger] crate::guard_map::guard_of(guards, a, s, t)).holds ==> {
            let g = crate::guard_map::guard_of(guards, a, s, t).license_id;
            &&& 1 <= g <= licenses.len()
            &&& owns_kind(licenses[g - 1], a, s, t)
        }
    &&& forall|a: u64, s: u64, t: u8|
        !(#[trigger] crate::guard_map::guard_of(guards, a, s, t)).holds ==> crate::guard_map::guard_of(
            guards,
            a,
            s,
            t,
        ).license_id == 0
    &&& forall|i: int, j: int, a: u64, s: u64, t: u8|
        0 <= i < licenses.len() && 0 <= j < licenses.len() && #[trigger] owns_kind(
            licenses[i],
            a,
            s,
            t,
        ) && #[trigger] owns_kind(licenses[j], a, s, t) ==> i == j
}

/// A freshly deployed ledger has consistent guards.
pub proof fn lemma_initial_guards_consistent(admin: u64)
    ensures
        guards_consistent(
            crate::ledger::initial_ledger(admin).guards,
            crate::ledger::initial_ledger(admin).licenses,
        ),
{
}

/// The royalty split conserves value exactly: what a successful transfer
/// distributes — the sale price to the seller, the creator royalty, the
/// platform fee — sums to precisely the required minimum attached value; and
/// the two independent truncating divisions together lose strictly less than
/// two units against an exact twelve-percent split.
pub proof fn lemma_transfer_conserves_value(p: nat)
    ensures
        p + royalty_amount(p) + platform_fee_amount(p) == required_transfer_total(p),
        100 * (royalty_amount(p) + platform_fee_amount(p)) <= 12 * p,
        12 * p < 100 * (royalty_amount(p) + platform_fee_amount(p)) + 200,
{
    vstd::arithmetic::div_mod::lemma_fundamental_div_mod((p * 10) as int, 100);
    vstd::arithmetic::div_mod::lemma_fundamental_div_mod((p * 2) as int, 100);
}

/// At most one exclusive license ever exists for a sample: any two exclusive
/// records for the same sample are the same record, and while one exists the
/// sample's flag is set and the recorded holder is that record's owner.
pub proof fn lemma_exclusivity_invariant(v: LedgerView, i: int, j: int)
    requires
        v.inv(),
        0 <= i < v.licenses.len(),
        0 <= j < v.licenses.len(),
        v.licenses[i].license_type is Exclusive,
        v.licenses[j].license_type is Exclusive,
        v.licenses[i].sample_id == v.licenses[j].sample_id,
    ensures
        i == j,
        v.has_exclusive(v.licenses[i].sample_id),
        v.exclusive_holder(v.licenses[i].sample_id) == Some(v.licenses[i].current_owner),
{
    assert(has_exclusive_license(v.licenses, v.licenses[i].sample_id));
}

/// Exclusivity forecloses the whole sample: once a sample carries an
/// exclusive license, every further mint for it fails, whatever the caller,
/// the requested type or the buyer.
pub proof fn lemma_exclusive_forecloses_mint(
    v: LedgerView,
    caller: u64,
    sample_id: u64,
    license_type: u8,
    buyer: u64,
)
    requires
        v.inv(),
        has_exclusive_license(v.licenses, sample_id),
    ensures
        mint_error(v, caller, sample_id, license_type, buyer) is Some,
{
    assert(flag_set(v.sample_has_exclusive, sample_id));
}

/// A successful mint preserves guard consistency: it sets exactly the
/// (buyer, sample, type) cell that its duplicate check proved clear.
pub proof fn lemma_mint_preserves_guards(
    v: LedgerView,
    caller: u64,
    sample_id: u64,
    license_type: u8,
    buyer: u64,
    original_creator: u64,
    price: nat,
    timestamp: u64,
)
    requires
        v.inv(),
        guards_consistent(v.guards, v.licenses),
        mint_error(v, caller, sample_id, license_type, buyer) is None,
        v.licenses.len() < u64::MAX,
    ensures
        guards_consistent(
            mint_effect(
                v,
                sample_id,
                license_type,
                buyer,
                original_creator,
                price,
                timestamp,
            ).guards,
            mint_effect(
                v,
                sample_id,
                license_type,
                buyer,
                original_creator,
                price,
                timestamp,
            ).licenses,
        ),
{
    let w = mint_effect(v, sample_id, license_type, buyer, original_creator, price, timestamp);
    let n = v.licenses.len() as int;
    let id = (n + 1) as u64;
    let lt = type_of_code(license_type)->Some_0;
    assert(lt.code() == license_type);
    assert(forall|i: int| 0 <= i < n ==> w.licenses[i] == v.licenses[i]);
    assert(owns_kind(w.licenses[n], buyer, sample_id, license_type));

    assert forall|a: u64, s: u64, t: u8|
        (#[trigger] crate::guard_map::guard_of(w.guards, a, s, t)).holds <==> exists|i: int|
            0 <= i < w.licenses.len() && owns_kind(#[trigger] w.licenses[i], a, s, t) by {
        if (a, s, t) == (buyer, sample_id, license_type) {
            assert(owns_kind(w.licenses[n], a, s, t));
        } else {
            assert(crate::guard_map::guard_of(w.guards, a, s, t) == crate::guard_map::guard_of(
                v.guards,
                a,
                s,
                t,
            ));
            assert(!owns_kind(w.licenses[n], a, s, t));
            if crate::guard_map::guard_of(v.guards, a, s, t).holds {
                let i = choose|i: int|
                    0 <= i < v.licenses.len() && owns_kind(#[trigger] v.licenses[i], a, s, t);
                assert(owns_kind(w.licenses[i], a, s, t));
            }
            if exists|i: int| 0 <= i < w.licenses.len() && owns_kind(#[trigger] w.licenses[i], a, s, t) {
                let i = choose|i: int|
                    0 <= i < w.licenses.len() && owns_kind(#[trigger] w.licenses[i], a, s, t);
                assert(i < n);
                assert(owns_kind(v.licenses[i], a, s, t));
            }
        }
    }
    assert forall|a: u64, s: u64, t: u8|
        (#[trigger] crate::guard_map::guard_of(w.guards, a, s, t)).holds implies {
        let g = crate::guard_map::guard_of(w.guards, a, s, t).license_id;
        &&& 1 <= g <= w.licenses.len()
        &&& owns_kind(w.licenses[g - 1], a, s, t)
    } by {
        if (a, s, t) == (buyer, sample_id, license_type) {
            assert(crate::guard_map::guard_of(w.guards, a, s, t).license_id == id);
        } else {
            assert(crate::guard_map::guard_of(w.guards, a, s, t) == crate::guard_map::guard_of(
                v.guards,
                a,
                s,
                t,
            ));
            let g = crate::guard_map::guard_of(v.guards, a, s, t).license_id;
            assert(owns_kind(v.licenses[g - 1], a, s, t));
            assert(w.licenses[g - 1] == v.licenses[g - 1]);
        }
    }
    assert forall|a: u64, s: u64, t: u8|
        !(#[trigger] crate::guard_map::guard_of(w.guards, a, s, t)).holds implies crate::guard_map::guard_of(
        w.guards,
        a,
        s,
        t,
    ).license_id == 0 by {
        if (a, s, t) != (buyer, sample_id, license_type) {
            assert(crate::guard_map::guard_of(w.guards, a, s, t) == crate::guard_map::guard_of(
                v.guards,
                a,
                s,
                t,
            ));
        }
    }
    assert forall|i: int, j: int, a: u64, s: u64, t: u8|
        0 <= i < w.licenses.len() && 0 <= j < w.licenses.len() && #[trigger] owns_kind(
            w.licenses[i],
            a,
            s,
            t,
        ) && #[trigger] owns_kind(w.licenses[j], a, s, t) implies i == j by {
        if i == n && j < n {
            assert(owns_kind(v.licenses[j], buyer, sample_id, license_type));
            assert(crate::guard_map::guard_of(v.guards, buyer, sample_id, license_type).holds);
        }
        if j == n && i < n {
            assert(owns_kind(v.licenses[i], buyer, sample_id, license_type));
            assert(crate::guard_map::guard_of(v.guards, buyer, sample_id, license_type).holds);
        }
        if i < n && j < n {
            assert(owns_kind(v.licenses[i], a, s, t));
            assert(owns_kind(v.licenses[j], a, s, t));
        }
    }
}

/// A successful transfer preserves guard consistency, provided the recipient
/// does not already hold a license of the same type for the same sample (or
/// is the seller). The ledger does not itself check that condition on
/// transfer, so this is the one precondition the law needs beyond the
/// transfer's own.
pub proof fn lemma_transfer_preserves_guards(
    v: LedgerView,
    caller: u64,
    license_id: u64,
    to: u64,
    sale_price: nat,
    attached_value: nat,
)
    requires
        v.inv(),
        guards_consistent(v.guards, v.licenses),
        transfer_error(v, caller, license_id, sale_price, attached_value) is None,
        v.license(license_id).transfer_count < u64::MAX,
        to == v.license(license_id).current_owner || !v.guard(
            to,
            v.license(license_id).sample_id,
            v.license(license_id).license_type.code(),
        ).holds,
    ensures
        guards_consistent(
            transfer_effect(v, license_id, to, sale_price).guards,
            transfer_effect(v, license_id, to, sale_price).licenses,
        ),
{
    let w = transfer_effect(v, license_id, to, sale_price);
    let i0 = license_id - 1;
    let lic = v.license(license_id);
    let prev = lic.current_owner;
    let s0 = lic.sample_id;
    let t0 = lic.license_type.code();
    let kp = (prev, s0, t0);
    let kt = (to, s0, t0);
    assert(forall|i: int|
        0 <= i < v.licenses.len() && i != i0 ==> (#[trigger] w.licenses[i]) == v.licenses[i]);
    assert(owns_kind(v.licenses[i0], prev, s0, t0));
    assert(owns_kind(w.licenses[i0], to, s0, t0));
    assert(w.licenses[i0].license_type.code() == t0);

    assert forall|a: u64, s: u64, t: u8|
        (#[trigger] crate::guard_map::guard_of(w.guards, a, s, t)).holds <==> exists|i: int|
            0 <= i < w.licenses.len() && owns_kind(#[trigger] w.licenses[i], a, s, t) by {
        if (a, s, t) == kt {
            assert(crate::guard_map::guard_of(w.guards, a, s, t).holds);
            assert(owns_kind(w.licenses[i0], a, s, t));
        } else if (a, s, t) == kp {
            assert(!crate::guard_map::guard_of(w.guards, a, s, t).holds);
            if exists|i: int|
                0 <= i < w.licenses.len() && owns_kind(#[trigger] w.licenses[i], a, s, t) {
                let i = choose|i: int|
                    0 <= i < w.licenses.len() && owns_kind(#[trigger] w.licenses[i], a, s, t);
                assert(i != i0);
                assert(owns_kind(v.licenses[i], prev, s0, t0));
            }
        } else {
            assert(crate::guard_map::guard_of(w.guards, a, s, t) == crate::guard_map::guard_of(
                v.guards,
                a,
                s,
                t,
            ));
            if crate::guard_map::guard_of(v.guards, a, s, t).holds {
                let i = choose|i: int|
                    0 <= i < v.licenses.len() && owns_kind(#[trigger] v.licenses[i], a, s, t);
                assert(i != i0);
                assert(owns_kind(w.licenses[i], a, s, t));
            }
            if exists|i: int|
                0 <= i < w.licenses.len() && owns_kind(#[trigger] w.licenses[i], a, s, t) {
                let i = choose|i: int|
                    0 <= i < w.licenses.len() && owns_kind(#[trigger] w.licenses[i], a, s, t);
                assert(i != i0);
                assert(owns_kind(v.licenses[i], a, s, t));
            }
        }
    }
    assert forall|a: u64, s: u64, t: u8|
        (#[trigger] crate::guard_map::guard_of(w.guards, a, s, t)).holds implies {
        let g = crate::guard_map::guard_of(w.guards, a, s, t).license_id;
        &&& 1 <= g <= w.licenses.len()
        &&& owns_kind(w.licenses[g - 1], a, s, t)
    } by {
        if (a, s, t) == kt {
            assert(crate::guard_map::guard_of(w.guards, a, s, t).license_id == license_id);
            assert(owns_kind(w.licenses[i0], a, s, t));
        } else {
            assert((a, s, t) != kp);
            assert(crate::guard_map::guard_of(w.guards, a, s, t) == crate::guard_map::guard_of(
                v.guards,
                a,
                s,
                t,
            ));
            let g = crate::guard_map::guard_of(v.guards, a, s, t).license_id;
            assert(owns_kind(v.licenses[g - 1], a, s, t));
            if g - 1 == i0 {
                assert(owns_kind(v.licenses[i0], prev, s0, t0));
                assert((a, s, t) == kp);
            }
            assert(w.licenses[g - 1] == v.licenses[g - 1]);
        }
    }
    assert forall|a: u64, s: u64, t: u8|
        !(#[trigger] crate::guard_map::guard_of(w.guards, a, s, t)).holds implies crate::guard_map::guard_of(
        w.guards,
        a,
        s,
        t,
    ).license_id == 0 by {
        if (a, s, t) != kt && (a, s, t) != kp {
            assert(crate::guard_map::guard_of(w.guards, a, s, t) == crate::guard_map::guard_of(
                v.guards,
                a,
                s,
                t,
            ));
        }
    }
    assert forall|i: int, j: int, a: u64, s: u64, t: u8|
        0 <= i < w.licenses.len() && 0 <= j < w.licenses.len() && #[trigger] owns_kind(
            w.licenses[i],
            a,
            s,
            t,
        ) && #[trigger] owns_kind(w.licenses[j], a, s, t) implies i == j by {
        if i != j {
            if i == i0 || j == i0 {
                let other = if i == i0 {
                    j
                } else {
                    i
                };
                assert(owns_kind(w.licenses[i0], a, s, t));
                assert((a, s, t) == kt);
                assert(owns_kind(v.licenses[other], to, s0, t0));
                assert(crate::guard_map::guard_of(v.guards, to, s0, t0).holds);
                if to == prev {
                    assert(owns_kind(v.licenses[other], prev, s0, t0));
                    assert(owns_kind(v.licenses[i0], prev, s0, t0));
                    assert(other == i0);
                }
            } else {
                assert(owns_kind(v.licenses[i], a, s, t));
                assert(owns_kind(v.licenses[j], a, s, t));
            }
        }
    }
}


/// The gap between a creator's lifetime royalty total and their withdrawable
/// balance is the total ever withdrawn: a successful transfer credits both
/// sides of the creator's account equally and leaves every gap unchanged,
/// while a withdrawal (which zeroes the withdrawable balance and leaves the
/// lifetime total untouched) grows the caller's gap by exactly the amount
/// paid out.
pub proof fn lemma_royalty_gap_tracks_withdrawals(
    v: LedgerView,
    caller: u64,
    license_id: u64,
    to: u64,
    sale_price: nat,
    attached_value: nat,
    c: u64,
)
    requires
        v.inv(),
        transfer_error(v, caller, license_id, sale_price, attached_value) is None,
        v.license(license_id).transfer_count < u64::MAX,
    ensures
        ({
            let w = transfer_effect(v, license_id, to, sale_price);
            w.lifetime_of(c) - w.earnings_of(c) == v.lifetime_of(c) - v.earnings_of(c)
        }),
        ({
            let u = LedgerView { royalty_earnings: v.royalty_earnings.insert(c, 0), ..v };
            u.lifetime_of(c) - u.earnings_of(c) == v.lifetime_of(c) - v.earnings_of(c)
                + v.earnings_of(c)
        }),
{
}

/// Minting the same (buyer, sample, type) twice without an intervening
/// transfer-away fails the second time: with the duplicate error for every
/// non-exclusive type, and with the exclusivity error for an exclusive one
/// (the exclusivity check runs first). The mint contract then guarantees the
/// failing call leaves the ledger unchanged.
pub proof fn lemma_mint_idempotent(
    v: LedgerView,
    caller: u64,
    sample_id: u64,
    license_type: u8,
    buyer: u64,
    original_creator: u64,
    price: nat,
    timestamp: u64,
)
    requires
        v.inv(),
        mint_error(v, caller, sample_id, license_type, buyer) is None,
        v.licenses.len() < u64::MAX,
    ensures
        ({
            let w = mint_effect(
                v,
                sample_id,
                license_type,
                buyer,
                original_creator,
                price,
                timestamp,
            );
            &&& mint_error(w, caller, sample_id, license_type, buyer) is Some
            &&& license_type != 3 ==> mint_error(w, caller, sample_id, license_type, buyer)
                == Some(Error::AlreadyHasLicenseType)
            &&& license_type == 3 ==> mint_error(w, caller, sample_id, license_type, buyer)
                == Some(Error::SampleExclusivelyLicensed)
        }),
{
    let w = mint_effect(v, sample_id, license_type, buyer, original_creator, price, timestamp);
    assert(crate::guard_map::guard_of(w.guards, buyer, sample_id, license_type).holds);
    if license_type == 3 {
        assert(flag_set(w.sample_has_exclusive, sample_id));
    } else {
        assert(flag_set(w.sample_has_exclusive, sample_id) == flag_set(
            v.sample_has_exclusive,
            sample_id,
        ));
    }
}

/// Transferring a license A to B and back to A restores A as owner, counts
/// both resales, appends A's re-acquired slot at the end of A's index rather
/// than resurrecting the tombstoned one, tombstones B's slot again, and
/// leaves B's live enumeration exactly as it was before the round trip.
pub proof fn lemma_transfer_round_trip(
    v: LedgerView,
    a: u64,
    b: u64,
    license_id: u64,
    p1: nat,
    att1: nat,
    p2: nat,
    att2: nat,
)
    requires
        v.inv(),
        a != b,
        transfer_error(v, a, license_id, p1, att1) is None,
        v.license(license_id).transfer_count + 2 <= u64::MAX,
        att2 >= required_transfer_total(p2),
    ensures
        ({
            let v1 = transfer_effect(v, license_id, b, p1);
            let v2 = transfer_effect(v1, license_id, a, p2);
            &&& transfer_error(v1, b, license_id, p2, att2) is None
            &&& v2.license(license_id).current_owner == a
            &&& v2.license(license_id).transfer_count == v.license(license_id).transfer_count + 2
            &&& v2.owner_list(a) == tomb_first(v.owner_list(a), license_id).push(license_id)
            &&& v2.owner_list(b) == v.owner_list(b).push(0u64)
            &&& live_filter(v2.licenses, v2.owner_list(b), b) == live_filter(
                v.licenses,
                v.owner_list(b),
                b,
            )
            &&& live_filter(v2.licenses, v2.owner_list(a), a).contains(license_id)
        }),
{
    let i0 = license_id - 1;
    let lic = v.license(license_id);
    let v1 = transfer_effect(v, license_id, b, p1);
    crate::ledger::lemma_transfer_preserves_inv(v, a, license_id, b, p1, att1);
    assert(v1.license(license_id).current_owner == b);
    assert(v1.license(license_id).is_active);
    assert(!(v1.license(license_id).license_type is Exclusive));
    assert(transfer_error(v1, b, license_id, p2, att2) is None);
    let v2 = transfer_effect(v1, license_id, a, p2);

    // Index bookkeeping of the first leg.
    let al = v.owner_list(a);
    let bl = v.owner_list(b);
    assert(v1.owner_list(a) == tomb_first(al, license_id));
    assert(v1.owner_list(b) == bl.push(license_id));

    // The second leg tombstones the slot B just gained: B's list held no
    // other live occurrence of this id, so the appended slot is the first.
    let bl1 = bl.push(license_id);
    assert forall|p: int| 0 <= p < bl.len() implies (#[trigger] bl[p]) != license_id by {
        if bl[p] != 0 {
            assert(v.licenses[bl[p] - 1].current_owner == b);
        }
    }
    bl1.index_of_first_ensures(license_id);
    assert(bl1.contains(license_id)) by {
        assert(bl1[bl.len() as int] == license_id);
    }
    let fi = bl1.index_of_first(license_id)->Some_0;
    assert(fi == bl.len() as int) by {
        if fi < bl.len() as int {
            assert(bl1[fi] == bl[fi]);
        }
    }
    assert(tomb_first(bl1, license_id) =~= bl.push(0u64)) by {
        assert(tomb_first(bl1, license_id) == bl1.update(fi, 0u64));
    }
    assert(v2.owner_list(b) == bl.push(0u64));
    assert(v2.owner_list(a) == tomb_first(al, license_id).push(license_id)) by {
        assert(v1.owner_list(a) == tomb_first(al, license_id));
    }

    // B's live enumeration is unchanged: the trailing tombstone contributes
    // nothing, and every surviving slot names a license the trip never moved.
    assert(bl.push(0u64).drop_last() =~= bl);
    assert(live_filter(v2.licenses, bl.push(0u64), b) == live_filter(v2.licenses, bl, b));
    lemma_live_filter_same(v2.licenses, v.licenses, bl, b, license_id);

    // A's enumeration ends with the re-acquired license.
    let l2 = v2.owner_list(a);
    assert(live_filter(v2.licenses, l2, a).contains(license_id)) by {
        assert(l2.last() == license_id);
        assert(l2.drop_last() =~= tomb_first(al, license_id));
        assert(v2.licenses[i0].current_owner == a);
        let res = live_filter(v2.licenses, l2, a);
        assert(res.last() == license_id);
    }
}


/// What survives enumeration is characterized pointwise: an id is in the
/// filtered list exactly when some slot holds it and it names a license the
/// account currently owns.
proof fn lemma_live_filter_members(
    licenses: Seq<LicenseView>,
    slots: Seq<u64>,
    owner: u64,
    x: u64,
)
    ensures
        live_filter(licenses, slots, owner).contains(x) <==> ((exists|p: int|
            0 <= p < slots.len() && slots[p] == x) && x != 0 && 1 <= x <= licenses.len()
            && licenses[x - 1].current_owner == owner),
    decreases slots.len(),
{
    let res = live_filter(licenses, slots, owner);
    let keeps = (exists|p: int| 0 <= p < slots.len() && slots[p] == x) && x != 0 && 1 <= x
        <= licenses.len() && licenses[x - 1].current_owner == owner;
    if slots.len() == 0 {
        assert(!res.contains(x));
    } else {
        lemma_live_filter_members(licenses, slots.drop_last(), owner, x);
        let dl = slots.drop_last();
        let pre = live_filter(licenses, dl, owner);
        let id = slots.last();
        let id_kept = id != 0 && 1 <= id && id <= licenses.len() && licenses[id
            - 1].current_owner == owner;
        if res.contains(x) {
            let q = choose|q: int| 0 <= q < res.len() && res[q] == x;
            if id_kept && q == pre.len() {
                assert(x == id);
                assert(slots[slots.len() - 1] == x);
            } else {
                assert(pre[q] == x);
                assert(pre.contains(x));
                let p = choose|p: int| 0 <= p < dl.len() && dl[p] == x;
                assert(slots[p] == x);
            }
            assert(keeps);
        }
        if keeps {
            let p = choose|p: int| 0 <= p < slots.len() && slots[p] == x;
            if p == slots.len() - 1 {
                assert(x == id);
                assert(res == pre.push(id));
                assert(res[res.len() - 1] == x);
            } else {
                assert(dl[p] == x);
                assert(pre.contains(x));
                let q = choose|q: int| 0 <= q < pre.len() && pre[q] == x;
                assert(res[q] == x);
            }
            assert(res.contains(x));
        }
    }
}

/// The owner index, filtered on read, reflects ownership exactly: an id is in
/// an account's enumeration precisely when that account currently owns the
/// license it names. The index is a cache; the record is the ground truth.
pub proof fn lemma_enumeration_reflects_ownership(v: LedgerView, a: u64, id: u64)
    requires
        v.inv(),
    ensures
        live_filter(v.licenses, v.owner_list(a), a).contains(id) <==> (v.valid_id(id)
            && v.license(id).current_owner == a),
{
    lemma_live_filter_members(v.licenses, v.owner_list(a), a, id);
    if v.valid_id(id) && v.license(id).current_owner == a {
        assert(v.licenses[id - 1].license_id == id);
        assert(v.owner_list(a).contains(id));
    }
}

/// Two license lists that differ only in the record with id `x` induce the
/// same live enumeration over a slot list that never mentions `x`.
proof fn lemma_live_filter_same(
    l1: Seq<LicenseView>,
    l2: Seq<LicenseView>,
    slots: Seq<u64>,
    owner: u64,
    x: u64,
)
    requires
        l1.len() == l2.len(),
        forall|i: int| 0 <= i < l1.len() && i != x - 1 ==> (#[trigger] l1[i]) == l2[i],
        forall|p: int| 0 <= p < slots.len() ==> (#[trigger] slots[p]) != x,
    ensures
        live_filter(l1, slots, owner) == live_filter(l2, slots, owner),
    decreases slots.len(),
{
    if slots.len() > 0 {
        assert(forall|p: int|
            0 <= p < slots.len() - 1 ==> (#[trigger] slots.drop_last()[p]) == slots[p]);
        lemma_live_filter_same(l1, l2, slots.drop_last(), owner, x);
        let id = slots.last();
        if id != 0 && 1 <= id && id <= l1.len() {
            assert(id != x);
            assert(l1[id - 1] == l2[id - 1]);
        }
    }
}

} // verus!

//! Laws of the store, stated and proved over the model: coalesce updates
//! with nothing set change nothing, a cascade delete removes exactly the
//! dependents of the deleted grave, and pagination over a fixed filter
//! partitions the full listing.

use vstd::prelude::*;
use vstd::math::min;

use crate::model::{
    block_coalesce, block_index, delete_grave_next, grave_coalesce, grave_id_is_not, grave_index,
    heir_coalesce, heir_index, heir_not_of_grave, page, payment_not_of_grave, settings_coalesce,
    update_block_next, update_grave_next, update_heir_next, update_settings_next, State,
};
use crate::store::lemma_filter_pairwise;
use crate::types::{
    Grave, Heir, Payment, UpdateBlockRequest, UpdateGraveRequest, UpdateHeirRequest,
    UpdateSettingsRequest,
};

verus! {

broadcast use vstd::seq_lib::group_filter_ensures;

/// Coalesce update law for blocks: a request with every field unset
/// leaves every field of every block equal to its prior value.
pub proof fn lemma_update_block_all_unset(s: State, id: i64, req: UpdateBlockRequest)
    requires
        req.code is None,
        req.description is None,
        req.total_capacity is None,
        req.annual_fee is None,
        req.status is None,
    ensures
        update_block_next(s, id, req) == s,
{
    if crate::model::block_id_taken(s.blocks, id) {
        let i = block_index(s.blocks, id);
        assert(0 <= i < s.blocks.len() && s.blocks[i].id == id);
        assert(block_coalesce(s.blocks[i], req) == s.blocks[i]);
        assert(update_block_next(s, id, req).blocks =~= s.blocks);
    }
}

/// Coalesce update law for graves.
pub proof fn lemma_update_grave_all_unset(s: State, id: i64, req: UpdateGraveRequest)
    requires
        req.deceased_name is None,
        req.block_id is None,
        req.number is None,
        req.date_of_death is None,
        req.burial_date is None,
        req.notes is None,
    ensures
        update_grave_next(s, id, req) == s,
{
    if crate::model::grave_id_taken(s.graves, id) {
        let i = grave_index(s.graves, id);
        assert(0 <= i < s.graves.len() && s.graves[i].id == id);
        assert(grave_coalesce(s.graves[i], req) == s.graves[i]);
        assert(update_grave_next(s, id, req).graves =~= s.graves);
    }
}

/// Coalesce update law for heirs.
pub proof fn lemma_update_heir_all_unset(s: State, id: i64, req: UpdateHeirRequest)
    requires
        req.full_name is None,
        req.phone_number is None,
        req.relationship is None,
        req.address is None,
        req.is_primary is None,
    ensures
        update_heir_next(s, id, req) == s,
{
    if crate::model::heir_id_taken(s.heirs, id) {
        let i = heir_index(s.heirs, id);
        assert(0 <= i < s.heirs.len() && s.heirs[i].id == id);
        assert(heir_coalesce(s.heirs[i], req) == s.heirs[i]);
        assert(update_heir_next(s, id, req).heirs =~= s.heirs);
    }
}

/// Coalesce update law for settings.
pub proof fn lemma_update_settings_all_unset(s: State, req: UpdateSettingsRequest)
    requires
        req.foundation_name is None,
        req.address is None,
        req.phone is None,
        req.email is None,
        req.logo_path is None,
        req.active_year is None,
        req.auto_backup is None,
    ensures
        update_settings_next(s, req) == s,
{
    match s.settings {
        Option::Some(t) => {
            assert(settings_coalesce(t, req) == t);
        },
        Option::None => {},
    }
}

/// Referential delete guard: while at least one grave references a
/// block, the count of dependent graves is positive, so the delete of
/// that block is refused with that count and the state — the block
/// included — stays as it was.
pub proof fn lemma_referential_delete_guard(s: State, b: i64)
    requires
        exists|i: int| 0 <= i < s.graves.len() && (#[trigger] s.graves[i]).block_id == b,
    ensures
        crate::model::grave_count(s, b) > 0,
{
    let i = choose|i: int| 0 <= i < s.graves.len() && (#[trigger] s.graves[i]).block_id == b;
    assert(crate::model::grave_in_block(b)(s.graves[i]));
    assert(s.graves.filter(crate::model::grave_in_block(b)).contains(s.graves[i]));
    let f = s.graves.filter(crate::model::grave_in_block(b));
    let w = choose|w: int| 0 <= w < f.len() && f[w] == s.graves[i];
    assert(f.len() > 0);
}

/// Cascade law: deleting grave `g` removes exactly the heirs and
/// payments whose `grave_id` is `g`, and exactly the grave itself, and
/// nothing else; every other row survives.
pub proof fn lemma_cascade_delete(s: State, g: i64)
    ensures
        forall|h: Heir|
            delete_grave_next(s, g).heirs.contains(h) <==> (#[trigger] s.heirs.contains(h)
                && h.grave_id != g),
        forall|p: Payment|
            delete_grave_next(s, g).payments.contains(p) <==> (#[trigger] s.payments.contains(p)
                && p.grave_id != g),
        forall|x: Grave|
            delete_grave_next(s, g).graves.contains(x) <==> (#[trigger] s.graves.contains(x)
                && x.id != g),
        delete_grave_next(s, g).blocks == s.blocks,
        delete_grave_next(s, g).settings == s.settings,
{
    let next = delete_grave_next(s, g);
    lemma_filter_pairwise(s.heirs, heir_not_of_grave(g), |a: Heir, b: Heir| true);
    lemma_filter_pairwise(s.payments, payment_not_of_grave(g), |a: Payment, b: Payment| true);
    lemma_filter_pairwise(s.graves, grave_id_is_not(g), |a: Grave, b: Grave| true);
    assert forall|h: Heir|
        next.heirs.contains(h) <==> (#[trigger] s.heirs.contains(h) && h.grave_id != g) by {
        if next.heirs.contains(h) {
            let i = choose|i: int| 0 <= i < next.heirs.len() && next.heirs[i] == h;
            assert(s.heirs.contains(next.heirs[i]));
            assert(heir_not_of_grave(g)(next.heirs[i]));
        }
        if s.heirs.contains(h) && h.grave_id != g {
            let i = choose|i: int| 0 <= i < s.heirs.len() && s.heirs[i] == h;
            assert(heir_not_of_grave(g)(s.heirs[i]));
            assert(next.heirs.contains(s.heirs[i]));
        }
    }
    assert forall|p: Payment|
        next.payments.contains(p) <==> (#[trigger] s.payments.contains(p) && p.grave_id != g) by {
        if next.payments.contains(p) {
            let i = choose|i: int| 0 <= i < next.payments.len() && next.payments[i] == p;
            assert(s.payments.contains(next.payments[i]));
            assert(payment_not_of_grave(g)(next.payments[i]));
        }
        if s.payments.contains(p) && p.grave_id != g {
            let i = choose|i: int| 0 <= i < s.payments.len() && s.payments[i] == p;
            assert(payment_not_of_grave(g)(s.payments[i]));
            assert(next.payments.contains(s.payments[i]));
        }
    }
    assert forall|x: Grave|
        next.graves.contains(x) <==> (#[trigger] s.graves.contains(x) && x.id != g) by {
        if next.graves.contains(x) {
            let i = choose|i: int| 0 <= i < next.graves.len() && next.graves[i] == x;
            assert(s.graves.contains(next.graves[i]));
            assert(grave_id_is_not(g)(next.graves[i]));
        }
        if s.graves.contains(x) && x.id != g {
            let i = choose|i: int| 0 <= i < s.graves.len() && s.graves[i] == x;
            assert(grave_id_is_not(g)(s.graves[i]));
            assert(next.graves.contains(s.graves[i]));
        }
    }
}

/// The first `n` pages of a listing, concatenated in order.
pub open spec fn pages_concat<T>(q: Seq<T>, limit: i64, n: int) -> Seq<T>
    decreases n,
{
    if n <= 0 {
        Seq::empty()
    } else {
        pages_concat(q, limit, n - 1) + page(q, limit, ((n - 1) * limit) as i64)
    }
}

/// Pagination consistency: for a fixed listing and a positive page size,
/// the first `n` pages concatenate to the first `n * limit` elements, so
/// enough pages reproduce the whole listing.
pub proof fn lemma_pagination_consistency<T>(q: Seq<T>, limit: i64, n: int)
    requires
        0 < limit,
        0 <= n,
        n * limit <= i64::MAX as int,
    ensures
        pages_concat(q, limit, n) == q.take(min(n * limit, q.len() as int)),
        n * limit >= q.len() ==> pages_concat(q, limit, n) == q,
    decreases n,
{
    if n == 0 {
        assert(q.take(0) =~= Seq::<T>::empty());
        assert(n * limit == 0) by (nonlinear_arith)
            requires
                n == 0,
        ;
        assert(min(n * limit, q.len() as int) == 0);
        assert(pages_concat(q, limit, 0) == Seq::<T>::empty());
        assert(pages_concat(q, limit, n) == q.take(min(n * limit, q.len() as int)));
    } else {
        assert((n - 1) * limit + limit == n * limit) by (nonlinear_arith);
        assert((n - 1) * limit >= 0) by (nonlinear_arith)
            requires
                n >= 1,
                limit > 0,
        ;
        lemma_pagination_consistency(q, limit, n - 1);
        let off = (n - 1) * limit;
        assert((off as i64) as int == off);
        let p = page(q, limit, off as i64);
        if off >= q.len() {
            assert(p =~= Seq::<T>::empty());
            assert(min(n * limit, q.len() as int) == q.len() as int);
            assert(min(off, q.len() as int) == q.len() as int);
            assert(pages_concat(q, limit, n) =~= q.take(q.len() as int));
            assert(pages_concat(q, limit, n) == q.take(min(n * limit, q.len() as int)));
        } else {
            let end = min(n * limit, q.len() as int);
            assert(p =~= q.subrange(off, end));
            assert(pages_concat(q, limit, n) =~= q.take(end));
            assert(pages_concat(q, limit, n) == q.take(min(n * limit, q.len() as int)));
        }
    }
    assert(pages_concat(q, limit, n) == q.take(min(n * limit, q.len() as int)));
    if n * limit >= q.len() {
        assert(q.take(min(n * limit, q.len() as int)) =~= q);
    }
}

} // verus!

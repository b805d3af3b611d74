//! The verified in-memory form of the store: five tables held in vectors,
//! whose every operation is proved against the model in `model`.

use vstd::prelude::*;

use crate::model::{
    block_code_taken_by_other, block_coalesce, block_create_rel,
    block_id_taken, block_index, can_create_block, can_create_grave,
    can_create_heir, can_create_payment, can_update_block, can_update_grave, delete_block_next,
    delete_grave_next, delete_heir_next, delete_heirs_of_grave_next, delete_payment_next,
    filtered_graves, find_block, find_grave, find_heir, find_payment_for_year, grave_coalesce,
    grave_count, grave_create_rel, grave_id_taken, grave_index, grave_matches,
    heir_coalesce, heir_create_rel, heir_created_from, heir_index, heir_leq, heirs_created_from,
    heirs_of, join_grave, listed_graves, marked_backed_up, page, payment_create_rel,
    payment_year_geq, payments_of, settings_coalesce, state_wf, block_code_leq,
    update_block_next, update_grave_next, update_heir_next, update_settings_next, 
    search_view, can_create_grave_with_heirs, can_replace_heirs, grave_with_heirs_rel,
    summary_matches, export_entry_ok, export_has_payment, export_year_occurs,
    export_years_within, block_ids, grave_ids, heir_ids, payment_ids, ids_ok, next_of,
    rows_valid,
    heirs_replaced_rel, block_id_is_not, grave_id_is_not, heir_id_is_not, payment_id_is_not, heir_not_of_grave,
    payment_not_of_grave, heir_of_grave, payment_of_grave, grave_in_block, grave_filter_pred,
    State,
};
use crate::types::{
    Block, BlockStats, CreateBlockRequest, CreateGraveRequest, CreateGraveWithHeirsRequest,
    CreateHeirRequest, CreatePaymentRequest, StoreError, Grave, GraveDetail, GraveExportData,
    ExportGravesResult, GravePaymentSummary, GraveWithBlock, Heir, Payment, Settings,
    UpdateBlockRequest, UpdateGraveRequest, UpdateHeirRequest, UpdateSettingsRequest, YearPaymentStatus, clone_opt_str,
};

verus! {

broadcast use vstd::seq_lib::group_filter_ensures, vstd::seq_lib::group_to_multiset_ensures;

/// The five tables and the per-table identifier counters.
pub struct Store {
    blocks: Vec<Block>,
    graves: Vec<Grave>,
    heirs: Vec<Heir>,
    payments: Vec<Payment>,
    settings: Option<Settings>,
    next_block_id: i64,
    next_grave_id: i64,
    next_heir_id: i64,
    next_payment_id: i64,
}

impl View for Store {
    type V = State;

    closed spec fn view(&self) -> State {
        State {
            blocks: self.blocks@,
            graves: self.graves@,
            heirs: self.heirs@,
            payments: self.payments@,
            settings: self.settings,
            next_block_id: self.next_block_id as int,
            next_grave_id: self.next_grave_id as int,
            next_heir_id: self.next_heir_id as int,
            next_payment_id: self.next_payment_id as int,
        }
    }
}

impl Store {
    pub open spec fn wf(&self) -> bool {
        state_wf(self@)
    }

    /// The empty store, as a freshly created file holds it before the
    /// settings row is read back.
    pub fn new() -> (s: Store)
        ensures
            s.wf(),
            s@.blocks == Seq::<Block>::empty(),
            s@.graves == Seq::<Grave>::empty(),
            s@.heirs == Seq::<Heir>::empty(),
            s@.payments == Seq::<Payment>::empty(),
            s@.settings == Option::<Settings>::None,
            s@.next_block_id == 1,
            s@.next_grave_id == 1,
            s@.next_heir_id == 1,
            s@.next_payment_id == 1,
    {
        Store {
            blocks: Vec::new(),
            graves: Vec::new(),
            heirs: Vec::new(),
            payments: Vec::new(),
            settings: Option::None,
            next_block_id: 1,
            next_grave_id: 1,
            next_heir_id: 1,
            next_payment_id: 1,
        }
    }

    /// Index of the block with the given identifier, if any.
    fn find_block_idx(&self, id: i64) -> (r: Option<usize>)
        ensures
            match r {
                Option::Some(i) => i < self@.blocks.len() && self@.blocks[i as int].id == id
                    && block_id_taken(self@.blocks, id) && find_block(self@.blocks, id)
                    == Option::Some(self@.blocks[i as int]),
                Option::None => !block_id_taken(self@.blocks, id) && find_block(self@.blocks, id)
                    is None,
            },
    {
        let n = self.blocks.len();
        let mut i: usize = 0;
        proof {
            assert(self@.blocks.skip(0) =~= self@.blocks);
        }
        while i < n
            invariant
                n == self.blocks.len(),
                i <= n,
                forall|k: int| 0 <= k < i ==> (#[trigger] self.blocks@[k]).id != id,
                find_block(self@.blocks, id) == find_block(self@.blocks.skip(i as int), id),
            decreases n - i,
        {
            proof {
                assert(self@.blocks.skip(i as int)[0] == self@.blocks[i as int]);
                assert(self@.blocks.skip(i as int).skip(1) =~= self@.blocks.skip(i + 1));
            }
            if self.blocks[i].id == id {
                return Option::Some(i);
            }
            i = i + 1;
        }
        Option::None
    }

    /// Index of the grave with the given identifier, if any.
    fn find_grave_idx(&self, id: i64) -> (r: Option<usize>)
        ensures
            match r {
                Option::Some(i) => i < self@.graves.len() && self@.graves[i as int].id == id
                    && grave_id_taken(self@.graves, id) && find_grave(self@.graves, id)
                    == Option::Some(self@.graves[i as int]),
                Option::None => !grave_id_taken(self@.graves, id) && find_grave(self@.graves, id)
                    is None,
            },
    {
        let n = self.graves.len();
        let mut i: usize = 0;
        proof {
            assert(self@.graves.skip(0) =~= self@.graves);
        }
        while i < n
            invariant
                n == self.graves.len(),
                i <= n,
                forall|k: int| 0 <= k < i ==> (#[trigger] self.graves@[k]).id != id,
                find_grave(self@.graves, id) == find_grave(self@.graves.skip(i as int), id),
            decreases n - i,
        {
            proof {
                assert(self@.graves.skip(i as int)[0] == self@.graves[i as int]);
                assert(self@.graves.skip(i as int).skip(1) =~= self@.graves.skip(i + 1));
            }
            if self.graves[i].id == id {
                return Option::Some(i);
            }
            i = i + 1;
        }
        Option::None
    }

    /// Index of the heir with the given identifier, if any.
    fn find_heir_idx(&self, id: i64) -> (r: Option<usize>)
        ensures
            match r {
                Option::Some(i) => i < self@.heirs.len() && self@.heirs[i as int].id == id
                    && find_heir(self@.heirs, id) == Option::Some(self@.heirs[i as int]),
                Option::None => find_heir(self@.heirs, id) is None && forall|k: int|
                    0 <= k < self@.heirs.len() ==> (#[trigger] self@.heirs[k]).id != id,
            },
    {
        let n = self.heirs.len();
        let mut i: usize = 0;
        proof {
            assert(self@.heirs.skip(0) =~= self@.heirs);
        }
        while i < n
            invariant
                n == self.heirs.len(),
                i <= n,
                forall|k: int| 0 <= k < i ==> (#[trigger] self.heirs@[k]).id != id,
                find_heir(self@.heirs, id) == find_heir(self@.heirs.skip(i as int), id),
            decreases n - i,
        {
            proof {
                assert(self@.heirs.skip(i as int)[0] == self@.heirs[i as int]);
                assert(self@.heirs.skip(i as int).skip(1) =~= self@.heirs.skip(i + 1));
            }
            if self.heirs[i].id == id {
                return Option::Some(i);
            }
            i = i + 1;
        }
        Option::None
    }

    /// Creates a block; fails when the identifier space is exhausted, the
    /// capacity is negative, or the code is already in use.
    pub fn create_block(&mut self, req: &CreateBlockRequest, now: &str) -> (r: Result<i64, StoreError>)
        requires
            old(self).wf(),
        ensures
            final(self).wf(),
            can_create_block(old(self)@, *req) ==> (r matches Ok(id)
                && id as int == old(self)@.next_block_id) && block_create_rel(
                old(self)@,
                final(self)@,
                *req,
                now@,
            ),
            !can_create_block(old(self)@, *req) ==> (r matches Err(e) && e.is_query())
                && final(self)@ == old(self)@,
    {
        if self.next_block_id == i64::MAX {
            return Result::Err(StoreError::Query(String::from_str("create_block: id space exhausted")));
        }
        if req.total_capacity < 0 {
            return Result::Err(
                StoreError::Query(String::from_str("create_block: negative total_capacity")),
            );
        }
        let n = self.blocks.len();
        let mut i: usize = 0;
        while i < n
            invariant
                *self == *old(self),
                self.wf(),
                n == self.blocks.len(),
                forall|k: int| 0 <= k < i ==> (#[trigger] self.blocks@[k]).code@ != req.code@,
            decreases n - i,
        {
            if self.blocks[i].code == req.code {
                return Result::Err(
                    StoreError::Query(String::from_str("create_block: code already exists")),
                );
            }
            i = i + 1;
        }
        let id = self.next_block_id;
        let b = Block {
            id,
            code: req.code.clone(),
            description: Option::Some(
                match &req.description {
                    Option::Some(d) => d.clone(),
                    Option::None => String::new(),
                },
            ),
            total_capacity: req.total_capacity,
            annual_fee: req.annual_fee,
            status: req.status.clone(),
            created_at: String::from_str(now),
            updated_at: String::from_str(now),
        };
        self.blocks.push(b);
        self.next_block_id = self.next_block_id + 1;
        proof {
            assert(self.blocks@.drop_last() =~= old(self).blocks@);
            assert forall|i2: int|
                0 <= i2 < self@.graves.len() implies block_id_taken(
                self@.blocks,
                (#[trigger] self@.graves[i2]).block_id,
            ) by {
                let w = choose|w: int|
                    0 <= w < old(self)@.blocks.len() && (#[trigger] old(self)@.blocks[w]).id
                        == self@.graves[i2].block_id;
                assert(self@.blocks[w].id == self@.graves[i2].block_id);
            }
        }
        Result::Ok(id)
    }

    /// Single block lookup; absence is a valid `None`, not an error.
    pub fn get_block_by_id(&self, id: i64) -> (r: Option<Block>)
        ensures
            r == find_block(self@.blocks, id),
            r is Some <==> block_id_taken(self@.blocks, id),
    {
        match self.find_block_idx(id) {
            Option::Some(i) => Option::Some(self.blocks[i].clone()),
            Option::None => Option::None,
        }
    }

    /// Creates a grave; fails when the identifier space is exhausted or the
    /// referenced block does not exist.
    pub fn create_grave(&mut self, req: &CreateGraveRequest, now: &str) -> (r: Result<i64, StoreError>)
        requires
            old(self).wf(),
        ensures
            final(self).wf(),
            can_create_grave(old(self)@, *req) ==> (r matches Ok(id)
                && id as int == old(self)@.next_grave_id) && grave_create_rel(
                old(self)@,
                final(self)@,
                *req,
                now@,
            ),
            !can_create_grave(old(self)@, *req) ==> (r matches Err(e) && e.is_query())
                && final(self)@ == old(self)@,
    {
        if self.next_grave_id == i64::MAX {
            return Result::Err(StoreError::Query(String::from_str("create_grave: id space exhausted")));
        }
        if self.find_block_idx(req.block_id).is_none() {
            return Result::Err(StoreError::Query(String::from_str("create_grave: no such block")));
        }
        let id = self.next_grave_id;
        let g = Grave {
            id,
            deceased_name: req.deceased_name.clone(),
            block_id: req.block_id,
            number: req.number.clone(),
            date_of_death: req.date_of_death.clone(),
            burial_date: Option::Some(
                match &req.burial_date {
                    Option::Some(d) => d.clone(),
                    Option::None => String::new(),
                },
            ),
            notes: Option::Some(
                match &req.notes {
                    Option::Some(d) => d.clone(),
                    Option::None => String::new(),
                },
            ),
            created_at: String::from_str(now),
            updated_at: String::from_str(now),
        };
        self.graves.push(g);
        self.next_grave_id = self.next_grave_id + 1;
        proof {
            assert(self.graves@.drop_last() =~= old(self).graves@);
            assert forall|i2: int|
                0 <= i2 < self@.heirs.len() implies grave_id_taken(
                self@.graves,
                (#[trigger] self@.heirs[i2]).grave_id,
            ) by {
                let w = choose|w: int|
                    0 <= w < old(self)@.graves.len() && (#[trigger] old(self)@.graves[w]).id
                        == self@.heirs[i2].grave_id;
                assert(self@.graves[w].id == self@.heirs[i2].grave_id);
            }
            assert forall|i2: int|
                0 <= i2 < self@.payments.len() implies grave_id_taken(
                self@.graves,
                (#[trigger] self@.payments[i2]).grave_id,
            ) by {
                let w = choose|w: int|
                    0 <= w < old(self)@.graves.len() && (#[trigger] old(self)@.graves[w]).id
                        == self@.payments[i2].grave_id;
                assert(self@.graves[w].id == self@.payments[i2].grave_id);
            }
        }
        Result::Ok(id)
    }

    /// Creates an heir under the given grave; fails when the identifier
    /// space is exhausted or the grave does not exist.
    pub fn create_heir(&mut self, req: &CreateHeirRequest, grave_id: i64, now: &str) -> (r: Result<
        i64,
        StoreError,
    >)
        requires
            old(self).wf(),
        ensures
            final(self).wf(),
            can_create_heir(old(self)@, grave_id) ==> (r matches Ok(id)
                && id as int == old(self)@.next_heir_id) && heir_create_rel(
                old(self)@,
                final(self)@,
                *req,
                grave_id,
                now@,
            ),
            !can_create_heir(old(self)@, grave_id) ==> (r matches Err(e) && e.is_query())
                && final(self)@ == old(self)@,
    {
        if self.next_heir_id == i64::MAX {
            return Result::Err(StoreError::Query(String::from_str("create_heir: id space exhausted")));
        }
        if self.find_grave_idx(grave_id).is_none() {
            return Result::Err(StoreError::Query(String::from_str("create_heir: no such grave")));
        }
        let id = self.next_heir_id;
        let h = Heir {
            id,
            grave_id,
            order_number: req.order_number,
            full_name: req.full_name.clone(),
            phone_number: Option::Some(
                match &req.phone_number {
                    Option::Some(d) => d.clone(),
                    Option::None => String::new(),
                },
            ),
            relationship: Option::Some(
                match &req.relationship {
                    Option::Some(d) => d.clone(),
                    Option::None => String::new(),
                },
            ),
            address: Option::Some(
                match &req.address {
                    Option::Some(d) => d.clone(),
                    Option::None => String::new(),
                },
            ),
            is_primary: req.is_primary,
            created_at: String::from_str(now),
            updated_at: String::from_str(now),
        };
        self.heirs.push(h);
        self.next_heir_id = self.next_heir_id + 1;
        proof {
            assert(self.heirs@.drop_last() =~= old(self).heirs@);
        }
        Result::Ok(id)
    }

    /// Single heir lookup.
    pub fn get_heir_by_id(&self, id: i64) -> (r: Option<Heir>)
        ensures
            r == find_heir(self@.heirs, id),
    {
        match self.find_heir_idx(id) {
            Option::Some(i) => Option::Some(self.heirs[i].clone()),
            Option::None => Option::None,
        }
    }

    /// Creates a payment; fails when the identifier space is exhausted or
    /// the grave does not exist. Uniqueness per (grave, year) is the
    /// caller's duty, checked through `get_payment_by_grave_and_year`.
    pub fn create_payment(&mut self, req: &CreatePaymentRequest, now: &str) -> (r: Result<
        i64,
        StoreError,
    >)
        requires
            old(self).wf(),
        ensures
            final(self).wf(),
            can_create_payment(old(self)@, *req) ==> (r matches Ok(id)
                && id as int == old(self)@.next_payment_id) && payment_create_rel(
                old(self)@,
                final(self)@,
                *req,
                now@,
            ),
            !can_create_payment(old(self)@, *req) ==> (r matches Err(e) && e.is_query())
                && final(self)@ == old(self)@,
    {
        if self.next_payment_id == i64::MAX {
            return Result::Err(
                StoreError::Query(String::from_str("create_payment: id space exhausted")),
            );
        }
        if self.find_grave_idx(req.grave_id).is_none() {
            return Result::Err(StoreError::Query(String::from_str("create_payment: no such grave")));
        }
        let id = self.next_payment_id;
        let p = Payment {
            id,
            grave_id: req.grave_id,
            year: req.year,
            payment_date: req.payment_date.clone(),
            amount: req.amount,
            payment_method: Option::Some(
                match &req.payment_method {
                    Option::Some(d) => d.clone(),
                    Option::None => String::from_str("cash"),
                },
            ),
            payment_proof: Option::Some(
                match &req.payment_proof {
                    Option::Some(d) => d.clone(),
                    Option::None => String::new(),
                },
            ),
            paid_by: Option::Some(
                match &req.paid_by {
                    Option::Some(d) => d.clone(),
                    Option::None => String::new(),
                },
            ),
            notes: Option::Some(
                match &req.notes {
                    Option::Some(d) => d.clone(),
                    Option::None => String::new(),
                },
            ),
            created_at: String::from_str(now),
            updated_at: String::from_str(now),
        };
        self.payments.push(p);
        self.next_payment_id = self.next_payment_id + 1;
        proof {
            assert(self.payments@.drop_last() =~= old(self).payments@);
        }
        Result::Ok(id)
    }

    /// The payment covering one year of one grave, if recorded; scans in
    /// storage order as the underlying single-row query does.
    pub fn get_payment_by_grave_and_year(&self, grave_id: i64, year: i32) -> (r: Option<Payment>)
        ensures
            r == find_payment_for_year(self@.payments, grave_id, year),
            r is Some <==> exists|j: int|
                0 <= j < self@.payments.len() && (#[trigger] self@.payments[j]).grave_id == grave_id
                    && self@.payments[j].year == year,
    {
        let n = self.payments.len();
        let mut i: usize = 0;
        proof {
            assert(self@.payments.skip(0) =~= self@.payments);
        }
        while i < n
            invariant
                n == self.payments.len(),
                i <= n,
                forall|k: int|
                    0 <= k < i ==> !((#[trigger] self.payments@[k]).grave_id == grave_id
                        && self.payments@[k].year == year),
                find_payment_for_year(self@.payments, grave_id, year) == find_payment_for_year(
                    self@.payments.skip(i as int),
                    grave_id,
                    year,
                ),
            decreases n - i,
        {
            proof {
                assert(self@.payments.skip(i as int)[0] == self@.payments[i as int]);
                assert(self@.payments.skip(i as int).skip(1) =~= self@.payments.skip(i + 1));
            }
            if self.payments[i].grave_id == grave_id && self.payments[i].year == year {
                return Option::Some(self.payments[i].clone());
            }
            i = i + 1;
        }
        Option::None
    }

    /// Number of graves that reference the given block.
    fn count_graves_in_block(&self, block_id: i64) -> (c: i64)
        requires
            self.wf(),
        ensures
            c as int == grave_count(self@, block_id),
            c >= 0,
    {
        let n = self.graves.len();
        let mut cnt: usize = 0;
        let mut k: usize = 0;
        proof {
            reveal(Seq::filter);
            assert(self@.graves.subrange(0, 0) =~= Seq::<Grave>::empty());
            assert(Seq::<Grave>::empty().filter(grave_in_block(block_id)) =~= Seq::<
                Grave,
            >::empty());
        }
        while k < n
            invariant
                n == self.graves.len(),
                k <= n,
                cnt <= k,
                cnt as int == self@.graves.subrange(0, k as int).filter(
                    grave_in_block(block_id),
                ).len(),
            decreases n - k,
        {
            proof {
                assert(self@.graves.subrange(0, k + 1) =~= self@.graves.subrange(
                    0,
                    k as int,
                ).push(self@.graves[k as int]));
                lemma_filter_push(
                    self@.graves.subrange(0, k as int),
                    grave_in_block(block_id),
                    self@.graves[k as int],
                );
            }
            if self.graves[k].block_id == block_id {
                cnt = cnt + 1;
            }
            k = k + 1;
        }
        proof {
            assert(self@.graves.subrange(0, n as int) =~= self@.graves);
            assert(cnt as int <= self@.graves.len());
        }
        cnt as i64
    }

    /// Coalesce update of a block: unset fields keep their stored value.
    /// An absent identifier is a silent no-op, as a zero-row update is.
    pub fn update_block(&mut self, id: i64, req: &UpdateBlockRequest) -> (r: Result<(), StoreError>)
        requires
            old(self).wf(),
        ensures
            final(self).wf(),
            !block_id_taken(old(self)@.blocks, id) ==> r is Ok && final(self)@ == old(self)@,
            block_id_taken(old(self)@.blocks, id) && !can_update_block(old(self)@, id, *req) ==> (
            r matches Err(e)
                && e.is_query()) && final(self)@ == old(self)@,
            block_id_taken(old(self)@.blocks, id) && can_update_block(old(self)@, id, *req)
                ==> r is Ok && final(self)@ == update_block_next(old(self)@, id, *req),
    {
        let idx = match self.find_block_idx(id) {
            Option::None => {
                return Result::Ok(());
            },
            Option::Some(i) => i,
        };
        if let Option::Some(c) = &req.code {
            let n = self.blocks.len();
            let mut k: usize = 0;
            while k < n
                invariant
                    *self == *old(self),
                    self.wf(),
                    n == self.blocks.len(),
                    k <= n,
                    idx < n,
                    self@.blocks[idx as int].id == id,
                    req.code == Option::Some(*c),
                    forall|m: int|
                        0 <= m < k && m != idx ==> (#[trigger] self@.blocks[m]).code@ != c@,
                decreases n - k,
            {
                if k != idx && self.blocks[k].code == *c {
                    proof {
                        if (k as int) < (idx as int) {
                            assert(self@.blocks[k as int].id < self@.blocks[idx as int].id);
                        } else {
                            assert(self@.blocks[idx as int].id < self@.blocks[k as int].id);
                        }
                        assert(self@.blocks[k as int].id != id);
                        assert(self@.blocks[k as int].code@ == c@);
                        assert(block_code_taken_by_other(self@.blocks, c@, id));
                        assert(req.code matches Option::Some(cc) && cc@ == c@);
                        assert(!can_update_block(self@, id, *req));
                    }
                    return Result::Err(
                        StoreError::Query(String::from_str("update_block: code already exists")),
                    );
                }
                k = k + 1;
            }
            proof {
                assert forall|m: int|
                    0 <= m < self@.blocks.len() && (#[trigger] self@.blocks[m]).id
                        != id implies self@.blocks[m].code@ != c@ by {
                    assert(m != idx);
                }
            }
        }
        if let Option::Some(t) = req.total_capacity {
            if t < 0 {
                return Result::Err(
                    StoreError::Query(String::from_str("update_block: negative total_capacity")),
                );
            }
        }
        let ghost s0 = self@;
        let cur = self.blocks.remove(idx);
        let upd = apply_block_update(cur, req);
        self.blocks.insert(idx, upd);
        proof {
            let i = idx as int;
            let b = block_coalesce(s0.blocks[i], *req);
            assert(self@.blocks =~= s0.blocks.update(i, b));
            let j = block_index(s0.blocks, id);
            assert(0 <= j < s0.blocks.len() && s0.blocks[j].id == id);
            if j != i {
                if j < i {
                    assert(s0.blocks[j].id < s0.blocks[i].id);
                } else {
                    assert(s0.blocks[i].id < s0.blocks[j].id);
                }
            }
            assert(j == i);
            let u = self@.blocks;
            assert forall|m: int| 0 <= m < u.len() implies (#[trigger] u[m]).id == s0.blocks[m].id
                by {}
            assert forall|a: int, b2: int| 0 <= a < b2 < u.len() implies (#[trigger] u[a]).code@
                != (#[trigger] u[b2]).code@ by {
                if a != i && b2 != i {
                    assert(s0.blocks[a].code@ != s0.blocks[b2].code@);
                } else {
                    let m = if a == i {
                        b2
                    } else {
                        a
                    };
                    assert(s0.blocks[m].id != id);
                    match req.code {
                        Option::Some(_) => {},
                        Option::None => {
                            assert(u[i].code@ == s0.blocks[i].code@);
                        },
                    }
                }
            }
            assert forall|k2: int|
                0 <= k2 < self@.graves.len() implies block_id_taken(
                u,
                (#[trigger] self@.graves[k2]).block_id,
            ) by {
                let w = choose|w: int|
                    0 <= w < s0.blocks.len() && (#[trigger] s0.blocks[w]).id
                        == self@.graves[k2].block_id;
                assert(u[w].id == self@.graves[k2].block_id);
            }
            assert(state_wf(self@));
        }
        Result::Ok(())
    }

    /// Coalesce update of a grave; an absent identifier is a silent no-op.
    pub fn update_grave(&mut self, id: i64, req: &UpdateGraveRequest) -> (r: Result<(), StoreError>)
        requires
            old(self).wf(),
        ensures
            final(self).wf(),
            !grave_id_taken(old(self)@.graves, id) ==> r is Ok && final(self)@ == old(self)@,
            grave_id_taken(old(self)@.graves, id) && !can_update_grave(old(self)@, *req) ==> (
            r matches Err(e)
                && e.is_query()) && final(self)@ == old(self)@,
            grave_id_taken(old(self)@.graves, id) && can_update_grave(old(self)@, *req)
                ==> r is Ok && final(self)@ == update_grave_next(old(self)@, id, *req),
    {
        let idx = match self.find_grave_idx(id) {
            Option::None => {
                return Result::Ok(());
            },
            Option::Some(i) => i,
        };
        if let Option::Some(b) = req.block_id {
            if self.find_block_idx(b).is_none() {
                return Result::Err(StoreError::Query(String::from_str("update_grave: no such block")));
            }
        }
        let ghost s0 = self@;
        let cur = self.graves.remove(idx);
        let upd = apply_grave_update(cur, req);
        self.graves.insert(idx, upd);
        proof {
            let i = idx as int;
            let g = grave_coalesce(s0.graves[i], *req);
            assert(self@.graves =~= s0.graves.update(i, g));
            let j = grave_index(s0.graves, id);
            assert(0 <= j < s0.graves.len() && s0.graves[j].id == id);
            if j != i {
                if j < i {
                    assert(s0.graves[j].id < s0.graves[i].id);
                } else {
                    assert(s0.graves[i].id < s0.graves[j].id);
                }
            }
            assert(j == i);
            let u = self@.graves;
            assert forall|m: int| 0 <= m < u.len() implies (#[trigger] u[m]).id == s0.graves[m].id
                by {}
            assert forall|k2: int|
                0 <= k2 < u.len() implies block_id_taken(
                self@.blocks,
                (#[trigger] u[k2]).block_id,
            ) by {
                if k2 == i {
                    match req.block_id {
                        Option::Some(_) => {},
                        Option::None => {
                            assert(u[i].block_id == s0.graves[i].block_id);
                        },
                    }
                } else {
                    assert(u[k2].block_id == s0.graves[k2].block_id);
                }
            }
            assert forall|k2: int|
                0 <= k2 < self@.heirs.len() implies grave_id_taken(
                u,
                (#[trigger] self@.heirs[k2]).grave_id,
            ) by {
                let w = choose|w: int|
                    0 <= w < s0.graves.len() && (#[trigger] s0.graves[w]).id
                        == self@.heirs[k2].grave_id;
                assert(u[w].id == self@.heirs[k2].grave_id);
            }
            assert forall|k2: int|
                0 <= k2 < self@.payments.len() implies grave_id_taken(
                u,
                (#[trigger] self@.payments[k2]).grave_id,
            ) by {
                let w = choose|w: int|
                    0 <= w < s0.graves.len() && (#[trigger] s0.graves[w]).id
                        == self@.payments[k2].grave_id;
                assert(u[w].id == self@.payments[k2].grave_id);
            }
            assert(state_wf(self@));
        }
        Result::Ok(())
    }

    /// Coalesce update of an heir; an absent identifier is a silent no-op.
    pub fn update_heir(&mut self, id: i64, req: &UpdateHeirRequest) -> (r: Result<(), StoreError>)
        requires
            old(self).wf(),
        ensures
            final(self).wf(),
            r is Ok,
            !(exists|i: int|
                0 <= i < old(self)@.heirs.len() && (#[trigger] old(self)@.heirs[i]).id == id)
                ==> final(self)@ == old(self)@,
            (exists|i: int|
                0 <= i < old(self)@.heirs.len() && (#[trigger] old(self)@.heirs[i]).id == id)
                ==> final(self)@ == update_heir_next(old(self)@, id, *req),
    {
        let idx = match self.find_heir_idx(id) {
            Option::None => {
                return Result::Ok(());
            },
            Option::Some(i) => i,
        };
        let ghost s0 = self@;
        let cur = self.heirs.remove(idx);
        let upd = apply_heir_update(cur, req);
        self.heirs.insert(idx, upd);
        proof {
            let i = idx as int;
            let h = heir_coalesce(s0.heirs[i], *req);
            assert(self@.heirs =~= s0.heirs.update(i, h));
            let j = heir_index(s0.heirs, id);
            assert(0 <= j < s0.heirs.len() && s0.heirs[j].id == id);
            if j != i {
                if j < i {
                    assert(s0.heirs[j].id < s0.heirs[i].id);
                } else {
                    assert(s0.heirs[i].id < s0.heirs[j].id);
                }
            }
            assert(j == i);
            let u = self@.heirs;
            assert forall|m: int| 0 <= m < u.len() implies (#[trigger] u[m]).id == s0.heirs[m].id
                by {}
            assert forall|m: int| 0 <= m < u.len() implies (#[trigger] u[m]).grave_id
                == s0.heirs[m].grave_id by {}
            assert(state_wf(self@));
        }
        Result::Ok(())
    }

    /// Deletes a block, unless graves still reference it; then the error
    /// carries the count of dependent graves and nothing changes.
    pub fn delete_block(&mut self, id: i64) -> (r: Result<(), StoreError>)
        requires
            old(self).wf(),
        ensures
            final(self).wf(),
            grave_count(old(self)@, id) > 0 ==> (r matches Err(
                StoreError::ReferentialConflict(c),
            ) && c as int == grave_count(old(self)@, id)) && final(self)@ == old(self)@,
            grave_count(old(self)@, id) == 0 ==> r is Ok && final(self)@ == delete_block_next(
                old(self)@,
                id,
            ),
    {
        let cnt = self.count_graves_in_block(id);
        if cnt > 0 {
            return Result::Err(StoreError::ReferentialConflict(cnt));
        }
        let out = filter_blocks_excluding(&self.blocks, id);
        proof {
            let s = self@;
            lemma_filter_blocks_wf(s.blocks, block_id_is_not(id), s.next_block_id);
            assert forall|k: int|
                0 <= k < s.graves.len() implies block_id_taken(
                s.blocks.filter(block_id_is_not(id)),
                (#[trigger] s.graves[k]).block_id,
            ) by {
                if s.graves[k].block_id == id {
                    assert(grave_in_block(id)(s.graves[k]));
                    assert(s.graves.filter(grave_in_block(id)).contains(s.graves[k]));
                    assert(false);
                }
                let w = choose|w: int|
                    0 <= w < s.blocks.len() && (#[trigger] s.blocks[w]).id == s.graves[k].block_id;
                assert(block_id_is_not(id)(s.blocks[w]));
                assert(s.blocks.filter(block_id_is_not(id)).contains(s.blocks[w]));
                let f = s.blocks.filter(block_id_is_not(id));
                let v = choose|v: int| 0 <= v < f.len() && f[v] == s.blocks[w];
                assert(f[v].id == s.graves[k].block_id);
            }
        }
        self.blocks = out;
        Result::Ok(())
    }

    /// Deletes a grave; its heirs and payments are removed with it.
    pub fn delete_grave(&mut self, id: i64) -> (r: Result<(), StoreError>)
        requires
            old(self).wf(),
        ensures
            final(self).wf(),
            r is Ok,
            final(self)@ == delete_grave_next(old(self)@, id),
    {
        let out_graves = filter_graves_excluding(&self.graves, id);
        let out_heirs = filter_heirs_not_of_grave(&self.heirs, id);
        let out_payments = filter_payments_not_of_grave(&self.payments, id);
        proof {
            let s = self@;
            lemma_filter_graves_wf(s.graves, grave_id_is_not(id), s.next_grave_id);
            lemma_filter_heirs_wf(s.heirs, heir_not_of_grave(id), s.next_heir_id);
            lemma_filter_payments_wf(s.payments, payment_not_of_grave(id), s.next_payment_id);
            let fg = s.graves.filter(grave_id_is_not(id));
            let fh = s.heirs.filter(heir_not_of_grave(id));
            let fp = s.payments.filter(payment_not_of_grave(id));
            assert forall|k: int|
                0 <= k < fg.len() implies block_id_taken(s.blocks, (#[trigger] fg[k]).block_id) by {
                assert(s.graves.contains(fg[k])) by {
                    lemma_filter_pairwise(
                        s.graves,
                        grave_id_is_not(id),
                        |a: Grave, b: Grave| a.id < b.id,
                    );
                }
                let w = choose|w: int| 0 <= w < s.graves.len() && s.graves[w] == fg[k];
                assert(block_id_taken(s.blocks, s.graves[w].block_id));
            }
            assert forall|k: int|
                0 <= k < fh.len() implies grave_id_taken(fg, (#[trigger] fh[k]).grave_id) by {
                assert(s.heirs.contains(fh[k])) by {
                    lemma_filter_pairwise(
                        s.heirs,
                        heir_not_of_grave(id),
                        |a: Heir, b: Heir| a.id < b.id,
                    );
                }
                let w = choose|w: int| 0 <= w < s.heirs.len() && s.heirs[w] == fh[k];
                let v = choose|v: int|
                    0 <= v < s.graves.len() && (#[trigger] s.graves[v]).id == s.heirs[w].grave_id;
                assert(fh[k].grave_id != id);
                assert(grave_id_is_not(id)(s.graves[v]));
                assert(fg.contains(s.graves[v]));
                let u = choose|u: int| 0 <= u < fg.len() && fg[u] == s.graves[v];
                assert(fg[u].id == fh[k].grave_id);
            }
            assert forall|k: int|
                0 <= k < fp.len() implies grave_id_taken(fg, (#[trigger] fp[k]).grave_id) by {
                assert(s.payments.contains(fp[k])) by {
                    lemma_filter_pairwise(
                        s.payments,
                        payment_not_of_grave(id),
                        |a: Payment, b: Payment| a.id < b.id,
                    );
                }
                let w = choose|w: int| 0 <= w < s.payments.len() && s.payments[w] == fp[k];
                let v = choose|v: int|
                    0 <= v < s.graves.len() && (#[trigger] s.graves[v]).id
                        == s.payments[w].grave_id;
                assert(fp[k].grave_id != id);
                assert(grave_id_is_not(id)(s.graves[v]));
                assert(fg.contains(s.graves[v]));
                let u = choose|u: int| 0 <= u < fg.len() && fg[u] == s.graves[v];
                assert(fg[u].id == fp[k].grave_id);
            }
        }
        self.graves = out_graves;
        self.heirs = out_heirs;
        self.payments = out_payments;
        Result::Ok(())
    }

    /// Deletes one heir; an absent identifier deletes nothing.
    pub fn delete_heir(&mut self, id: i64) -> (r: Result<(), StoreError>)
        requires
            old(self).wf(),
        ensures
            final(self).wf(),
            r is Ok,
            final(self)@ == delete_heir_next(old(self)@, id),
    {
        let out = filter_heirs_excluding(&self.heirs, id);
        proof {
            let s = self@;
            lemma_filter_heirs_wf(s.heirs, heir_id_is_not(id), s.next_heir_id);
            let fh = s.heirs.filter(heir_id_is_not(id));
            assert forall|k: int|
                0 <= k < fh.len() implies grave_id_taken(s.graves, (#[trigger] fh[k]).grave_id) by {
                assert(s.heirs.contains(fh[k])) by {
                    lemma_filter_pairwise(
                        s.heirs,
                        heir_id_is_not(id),
                        |a: Heir, b: Heir| a.id < b.id,
                    );
                }
                let w = choose|w: int| 0 <= w < s.heirs.len() && s.heirs[w] == fh[k];
                assert(grave_id_taken(s.graves, s.heirs[w].grave_id));
            }
        }
        self.heirs = out;
        Result::Ok(())
    }

    /// Deletes every heir of one grave, for bulk replacement.
    pub fn delete_heirs_by_grave(&mut self, grave_id: i64) -> (r: Result<(), StoreError>)
        requires
            old(self).wf(),
        ensures
            final(self).wf(),
            r is Ok,
            final(self)@ == delete_heirs_of_grave_next(old(self)@, grave_id),
    {
        let out = filter_heirs_not_of_grave(&self.heirs, grave_id);
        proof {
            let s = self@;
            lemma_filter_heirs_wf(s.heirs, heir_not_of_grave(grave_id), s.next_heir_id);
            let fh = s.heirs.filter(heir_not_of_grave(grave_id));
            assert forall|k: int|
                0 <= k < fh.len() implies grave_id_taken(s.graves, (#[trigger] fh[k]).grave_id) by {
                assert(s.heirs.contains(fh[k])) by {
                    lemma_filter_pairwise(
                        s.heirs,
                        heir_not_of_grave(grave_id),
                        |a: Heir, b: Heir| a.id < b.id,
                    );
                }
                let w = choose|w: int| 0 <= w < s.heirs.len() && s.heirs[w] == fh[k];
                assert(grave_id_taken(s.graves, s.heirs[w].grave_id));
            }
        }
        self.heirs = out;
        Result::Ok(())
    }

    /// All blocks, ordered by code ascending.
    pub fn get_all_blocks(&self) -> (r: Vec<Block>)
        ensures
            vstd::relations::sorted_by(r@, block_code_leq()),
            r@.to_multiset() == self@.blocks.to_multiset(),
    {
        sort_blocks(&self.blocks)
    }

    /// Heirs of one grave, ordered by order number ascending.
    pub fn get_heirs_by_grave(&self, grave_id: i64) -> (r: Vec<Heir>)
        ensures
            vstd::relations::sorted_by(r@, heir_leq()),
            r@.to_multiset() == heirs_of(self@, grave_id).to_multiset(),
    {
        let mine = filter_heirs_of_grave(&self.heirs, grave_id);
        sort_heirs(&mine)
    }

    /// Payments of one grave, ordered by year descending.
    pub fn get_payments_by_grave(&self, grave_id: i64) -> (r: Vec<Payment>)
        ensures
            vstd::relations::sorted_by(r@, payment_year_geq()),
            r@.to_multiset() == payments_of(self@, grave_id).to_multiset(),
    {
        let mine = filter_payments_of_grave(&self.payments, grave_id);
        sort_payments(&mine)
    }

    /// Occupancy figures of one block; fails when the block is absent.
    pub fn get_block_stats(&self, block_id: i64) -> (r: Result<BlockStats, StoreError>)
        requires
            self.wf(),
        ensures
            match r {
                Result::Ok(st) => {
                    &&& block_id_taken(self@.blocks, block_id)
                    &&& (match find_block(self@.blocks, block_id) {
                        Option::Some(b) => st.total_capacity == b.total_capacity,
                        Option::None => false,
                    })
                    &&& st.occupied as int == grave_count(self@, block_id)
                    &&& st.available as int == st.total_capacity - st.occupied
                },
                Result::Err(e) => !block_id_taken(self@.blocks, block_id) && e.is_query(),
            },
    {
        let idx = match self.find_block_idx(block_id) {
            Option::None => {
                return Result::Err(
                    StoreError::Query(String::from_str("get_block_stats: no such block")),
                );
            },
            Option::Some(i) => i,
        };
        let total_capacity = self.blocks[idx].total_capacity;
        let occupied = self.count_graves_in_block(block_id);
        proof {
            assert(grave_count(self@, block_id) <= self@.graves.len());
        }
        Result::Ok(BlockStats { total_capacity, occupied, available: total_capacity - occupied })
    }

    /// Whether a grave passes the search-text and block filters.
    fn grave_matches_exec(g: &Grave, search: &Option<String>, block_id: Option<i64>) -> (r: bool)
        ensures
            r == grave_matches(*g, search_view(*search), block_id),
    {
        let s_ok = match search {
            Option::None => true,
            Option::Some(q) => crate::text::str_contains(g.deceased_name.as_str(), q.as_str())
                || crate::text::str_contains(g.number.as_str(), q.as_str()),
        };
        let b_ok = match block_id {
            Option::None => true,
            Option::Some(b) => g.block_id == b,
        };
        s_ok && b_ok
    }

    /// Joins one grave with its block; the block exists in a well-formed
    /// store.
    fn join_grave_exec(&self, g: &Grave) -> (r: GraveWithBlock)
        requires
            self.wf(),
            block_id_taken(self@.blocks, g.block_id),
        ensures
            r == join_grave(self@, *g),
    {
        let bidx = match self.find_block_idx(g.block_id) {
            Option::Some(i) => i,
            Option::None => {
                // never reached: the block is referenced, so it exists
                proof {
                    assert(false);
                }
                0
            },
        };
        let b = &self.blocks[bidx];
        GraveWithBlock {
            id: g.id,
            deceased_name: g.deceased_name.clone(),
            block_id: g.block_id,
            number: g.number.clone(),
            date_of_death: g.date_of_death.clone(),
            burial_date: clone_opt_str(&g.burial_date),
            notes: clone_opt_str(&g.notes),
            created_at: g.created_at.clone(),
            updated_at: g.updated_at.clone(),
            code: b.code.clone(),
            annual_fee: b.annual_fee,
        }
    }

    /// Every matching grave joined with its block, newest first.
    fn matching_graves_desc(&self, search: &Option<String>, block_id: Option<i64>) -> (r: Vec<
        GraveWithBlock,
    >)
        requires
            self.wf(),
        ensures
            r@ == listed_graves(self@, search_view(*search), block_id),
    {
        let ghost sv = search_view(*search);
        let ghost pred = grave_filter_pred(sv, block_id);
        let ghost jf = |g: Grave| join_grave(self@, g);
        let n = self.graves.len();
        let mut out: Vec<GraveWithBlock> = Vec::new();
        let mut k: usize = 0;
        proof {
            reveal(Seq::filter);
            assert(self@.graves.skip(n as int) =~= Seq::<Grave>::empty());
            assert(Seq::<Grave>::empty().reverse() =~= Seq::<Grave>::empty());
            assert(Seq::<Grave>::empty().filter(pred) =~= Seq::<Grave>::empty());
            assert(out@ =~= Seq::<Grave>::empty().filter(pred).map_values(jf));
        }
        while k < n
            invariant
                self.wf(),
                n == self.graves.len(),
                k <= n,
                sv == search_view(*search),
                pred == grave_filter_pred(sv, block_id),
                jf == (|g: Grave| join_grave(self@, g)),
                out@ == self@.graves.skip(n - k).reverse().filter(pred).map_values(jf),
            decreases n - k,
        {
            let i = n - k - 1;
            let ghost tail = self@.graves.skip(n - k);
            proof {
                assert(self@.graves.skip(i as int).reverse() =~= tail.reverse().push(
                    self@.graves[i as int],
                ));
                lemma_filter_push(tail.reverse(), pred, self@.graves[i as int]);
            }
            if Self::grave_matches_exec(&self.graves[i], search, block_id) {
                let joined = self.join_grave_exec(&self.graves[i]);
                out.push(joined);
                proof {
                    let f = tail.reverse().filter(pred);
                    assert(f.push(self@.graves[i as int]).map_values(jf) =~= f.map_values(
                        jf,
                    ).push(jf(self@.graves[i as int])));
                }
            } else {
                proof {
                    assert(!pred(self@.graves[i as int]));
                }
            }
            k = k + 1;
        }
        proof {
            assert(self@.graves.skip(0) =~= self@.graves);
        }
        out
    }

    /// Matching graves joined with their blocks, newest first, one page.
    pub fn get_graves(
        &self,
        search: &Option<String>,
        block_id: Option<i64>,
        limit: i64,
        offset: i64,
    ) -> (r: Vec<GraveWithBlock>)
        requires
            self.wf(),
        ensures
            r@ == page(listed_graves(self@, search_view(*search), block_id), limit, offset),
    {
        let all = self.matching_graves_desc(search, block_id);
        let len = all.len();
        let off: usize = if offset < 0 {
            0
        } else if offset as u64 >= len as u64 {
            len
        } else {
            offset as usize
        };
        let end: usize = if limit < 0 {
            len
        } else if (limit as u64) >= (len - off) as u64 {
            len
        } else {
            off + (limit as usize)
        };
        let mut out: Vec<GraveWithBlock> = Vec::new();
        let mut t: usize = off;
        while t < end
            invariant
                off <= t <= end <= all.len(),
                out@ == all@.subrange(off as int, t as int),
            decreases end - t,
        {
            proof {
                assert(all@.subrange(off as int, t + 1) =~= all@.subrange(off as int, t as int).push(
                    all@[t as int],
                ));
            }
            out.push(all[t].clone());
            t = t + 1;
        }
        proof {
            let q = listed_graves(self@, search_view(*search), block_id);
            assert(all@ == q);
            if off >= len {
                assert(out@ =~= page(q, limit, offset));
            } else {
                assert(out@ =~= page(q, limit, offset));
            }
        }
        out
    }

    /// Number of graves that pass the filters.
    pub fn count_graves(&self, search: &Option<String>, block_id: Option<i64>) -> (c: i64)
        requires
            self.wf(),
        ensures
            c as int == filtered_graves(self@, search_view(*search), block_id).len(),
            c >= 0,
    {
        let all = self.matching_graves_desc(search, block_id);
        proof {
            assert(self@.graves.reverse().len() == self@.graves.len());
            assert(filtered_graves(self@, search_view(*search), block_id).len()
                <= self@.graves.len());
        }
        all.len() as i64
    }

    /// Single grave joined with its block, or absence.
    pub fn get_grave_by_id(&self, id: i64) -> (r: Option<GraveWithBlock>)
        requires
            self.wf(),
        ensures
            r == (match find_grave(self@.graves, id) {
                Option::Some(g) => Option::Some(join_grave(self@, g)),
                Option::None => Option::<GraveWithBlock>::None,
            }),
            r is Some <==> grave_id_taken(self@.graves, id),
    {
        match self.find_grave_idx(id) {
            Option::Some(i) => {
                let g = &self.graves[i];
                Option::Some(self.join_grave_exec(g))
            },
            Option::None => Option::None,
        }
    }

    /// The settings singleton, always the row with identifier 1; its
    /// absence is the one `NotFound` error.
    pub fn get_settings(&self) -> (r: Result<Settings, StoreError>)
        requires
            self.wf(),
        ensures
            match self@.settings {
                Option::Some(t) => r matches Ok(got) && got == t && got.id == 1,
                Option::None => r matches Err(StoreError::NotFound),
            },
    {
        match &self.settings {
            Option::Some(t) => Result::Ok(t.clone()),
            Option::None => Result::Err(StoreError::NotFound),
        }
    }

    /// Coalesce update of the settings row; a missing row is a silent
    /// no-op, as a zero-row update is.
    pub fn update_settings(&mut self, req: &UpdateSettingsRequest) -> (r: Result<(), StoreError>)
        requires
            old(self).wf(),
        ensures
            final(self).wf(),
            r is Ok,
            final(self)@ == update_settings_next(old(self)@, *req),
    {
        match &self.settings {
            Option::None => Result::Ok(()),
            Option::Some(t) => {
                let updated = apply_settings_update(t.clone(), req);
                self.settings = Option::Some(updated);
                Result::Ok(())
            },
        }
    }

    /// Sets the last-backup marker to the given timestamp.
    pub fn mark_backed_up(&mut self, now: &str) -> (r: Result<(), StoreError>)
        requires
            old(self).wf(),
        ensures
            final(self).wf(),
            r is Ok,
            marked_backed_up(old(self)@, final(self)@, now@),
    {
        match &self.settings {
            Option::None => Result::Ok(()),
            Option::Some(t) => {
                let mut updated = t.clone();
                updated.last_backup = Option::Some(String::from_str(now));
                self.settings = Option::Some(updated);
                Result::Ok(())
            },
        }
    }

    /// Row counts of the three record tables.
    pub fn counts(&self) -> (r: (i64, i64, i64))
        requires
            self.wf(),
        ensures
            r.0 as int == self@.graves.len(),
            r.1 as int == self@.heirs.len(),
            r.2 as int == self@.payments.len(),
            r.0 >= 0 && r.1 >= 0 && r.2 >= 0,
    {
        (self.graves.len() as i64, self.heirs.len() as i64, self.payments.len() as i64)
    }

    /// The block table, for persistence.
    pub fn blocks_ref(&self) -> (r: &Vec<Block>)
        ensures
            r@ == self@.blocks,
    {
        &self.blocks
    }

    /// The grave table, for persistence.
    pub fn graves_ref(&self) -> (r: &Vec<Grave>)
        ensures
            r@ == self@.graves,
    {
        &self.graves
    }

    /// The heir table, for persistence.
    pub fn heirs_ref(&self) -> (r: &Vec<Heir>)
        ensures
            r@ == self@.heirs,
    {
        &self.heirs
    }

    /// The payment table, for persistence.
    pub fn payments_ref(&self) -> (r: &Vec<Payment>)
        ensures
            r@ == self@.payments,
    {
        &self.payments
    }

    /// The settings row, for persistence.
    pub fn settings_ref(&self) -> (r: &Option<Settings>)
        ensures
            *r == self@.settings,
    {
        &self.settings
    }

    /// Creates a grave and its heir list in one operation; the heirs'
    /// grave identifiers are overwritten with the new grave's. Nothing is
    /// applied when the grave cannot be created or the heir identifier
    /// space lacks room.
    pub fn create_grave_with_heirs(
        &mut self,
        req: &CreateGraveWithHeirsRequest,
        now: &str,
    ) -> (r: Result<i64, StoreError>)
        requires
            old(self).wf(),
        ensures
            final(self).wf(),
            can_create_grave_with_heirs(old(self)@, req.grave, req.heirs@.len() as int) ==> (
            r matches Ok(id)
                && id as int == old(self)@.next_grave_id) && grave_with_heirs_rel(
                old(self)@,
                final(self)@,
                req.grave,
                req.heirs@,
                now@,
            ),
            !can_create_grave_with_heirs(old(self)@, req.grave, req.heirs@.len() as int) ==> (
            r matches Err(e)
                && e.is_query()) && final(self)@ == old(self)@,
    {
        if (self.next_heir_id as u128) + (req.heirs.len() as u128) > (i64::MAX as u128) {
            return Result::Err(
                StoreError::Query(String::from_str("create_grave_with_heirs: id space exhausted")),
            );
        }
        let gid = match self.create_grave(&req.grave, now) {
            Result::Ok(id) => id,
            Result::Err(e) => {
                return Result::Err(e);
            },
        };
        let ghost s_mid = self@;
        proof {
            assert(self@.graves[self@.graves.len() - 1].id == gid);
            assert(grave_id_taken(self@.graves, gid));
            assert(self@.heirs.subrange(0, s_mid.heirs.len() as int) =~= s_mid.heirs);
            assert(self@.heirs.skip(s_mid.heirs.len() as int) =~= Seq::<Heir>::empty());
            assert(req.heirs@.subrange(0, 0) =~= Seq::<CreateHeirRequest>::empty());
        }
        let n = req.heirs.len();
        let mut k: usize = 0;
        while k < n
            invariant
                self.wf(),
                n == req.heirs.len(),
                k <= n,
                grave_id_taken(self@.graves, gid),
                self@.blocks == s_mid.blocks,
                self@.next_block_id == s_mid.next_block_id,
                self@.graves == s_mid.graves,
                self@.next_grave_id == s_mid.next_grave_id,
                self@.payments == s_mid.payments,
                self@.next_payment_id == s_mid.next_payment_id,
                self@.settings == s_mid.settings,
                self@.next_heir_id as int == s_mid.next_heir_id + k,
                s_mid.next_heir_id + n <= i64::MAX as int,
                self@.heirs.len() == s_mid.heirs.len() + k,
                self@.heirs.subrange(0, s_mid.heirs.len() as int) == s_mid.heirs,
                heirs_created_from(
                    self@.heirs.skip(s_mid.heirs.len() as int),
                    req.heirs@.subrange(0, k as int),
                    gid,
                    s_mid.next_heir_id,
                    now@,
                ),
            decreases n - k,
        {
            let ghost pre = self@;
            let res = self.create_heir(&req.heirs[k], gid, now);
            match res {
                Result::Ok(_) => {},
                Result::Err(e) => {
                    proof {
                        assert(false);
                    }
                    return Result::Err(e);
                },
            }
            proof {
                let h0 = s_mid.heirs.len() as int;
                assert(self@.heirs.drop_last() == pre.heirs);
                assert(self@.heirs.skip(h0) =~= pre.heirs.skip(h0).push(self@.heirs.last()));
                assert(self@.heirs.subrange(0, h0) =~= pre.heirs.subrange(0, h0));
                assert(req.heirs@.subrange(0, k + 1) =~= req.heirs@.subrange(0, k as int).push(
                    req.heirs@[k as int],
                ));
                let tail = self@.heirs.skip(h0);
                let reqs = req.heirs@.subrange(0, k + 1);
                assert forall|t: int| 0 <= t < reqs.len() implies heir_created_from(
                    #[trigger] tail[t],
                    reqs[t],
                    gid,
                    s_mid.next_heir_id + t,
                    now@,
                ) by {
                    if t < k {
                        assert(tail[t] == pre.heirs.skip(h0)[t]);
                        assert(reqs[t] == req.heirs@.subrange(0, k as int)[t]);
                    } else {
                        assert(tail[t] == self@.heirs.last());
                    }
                }
            }
            k = k + 1;
        }
        Result::Ok(gid)
    }

    /// Replaces every heir of one grave with a new list: the old heirs are
    /// deleted first, then the list is inserted in order. When the grave
    /// does not exist and the list is non-empty, the delete found_any already
    /// happened when the error is reported, as a failed bulk update leaves
    /// it.
    pub fn replace_heirs_for_grave(
        &mut self,
        grave_id: i64,
        heirs: &Vec<CreateHeirRequest>,
        now: &str,
    ) -> (r: Result<(), StoreError>)
        requires
            old(self).wf(),
        ensures
            final(self).wf(),
            !can_replace_heirs(old(self)@, heirs@.len() as int) ==> (r matches Err(e)
                && e.is_query()) && final(self)@ == old(self)@,
            can_replace_heirs(old(self)@, heirs@.len() as int) && !grave_id_taken(
                old(self)@.graves,
                grave_id,
            ) && heirs@.len() > 0 ==> (r matches Err(e) && e.is_query()) && final(self)@
                == delete_heirs_of_grave_next(old(self)@, grave_id),
            can_replace_heirs(old(self)@, heirs@.len() as int) && (grave_id_taken(
                old(self)@.graves,
                grave_id,
            ) || heirs@.len() == 0) ==> r is Ok && heirs_replaced_rel(
                old(self)@,
                final(self)@,
                grave_id,
                heirs@,
                now@,
            ),
    {
        if (self.next_heir_id as u128) + (heirs.len() as u128) > (i64::MAX as u128) {
            return Result::Err(
                StoreError::Query(String::from_str("replace_heirs_for_grave: id space exhausted")),
            );
        }
        match self.delete_heirs_by_grave(grave_id) {
            Result::Ok(_) => {},
            Result::Err(e) => {
                proof {
                    assert(false);
                }
                return Result::Err(e);
            },
        }
        let ghost s_mid = self@;
        let n = heirs.len();
        if n > 0 {
            if self.find_grave_idx(grave_id).is_none() {
                return Result::Err(
                    StoreError::Query(String::from_str("replace_heirs_for_grave: no such grave")),
                );
            }
        }
        proof {
            assert(self@.heirs.subrange(0, s_mid.heirs.len() as int) =~= s_mid.heirs);
            assert(self@.heirs.skip(s_mid.heirs.len() as int) =~= Seq::<Heir>::empty());
            assert(heirs@.subrange(0, 0) =~= Seq::<CreateHeirRequest>::empty());
        }
        let mut k: usize = 0;
        while k < n
            invariant
                self.wf(),
                n == heirs.len(),
                k <= n,
                n > 0 ==> grave_id_taken(self@.graves, grave_id),
                self@.blocks == s_mid.blocks,
                self@.next_block_id == s_mid.next_block_id,
                self@.graves == s_mid.graves,
                self@.next_grave_id == s_mid.next_grave_id,
                self@.payments == s_mid.payments,
                self@.next_payment_id == s_mid.next_payment_id,
                self@.settings == s_mid.settings,
                self@.next_heir_id as int == s_mid.next_heir_id + k,
                s_mid.next_heir_id + n <= i64::MAX as int,
                self@.heirs.len() == s_mid.heirs.len() + k,
                self@.heirs.subrange(0, s_mid.heirs.len() as int) == s_mid.heirs,
                heirs_created_from(
                    self@.heirs.skip(s_mid.heirs.len() as int),
                    heirs@.subrange(0, k as int),
                    grave_id,
                    s_mid.next_heir_id,
                    now@,
                ),
            decreases n - k,
        {
            let ghost pre = self@;
            let res = self.create_heir(&heirs[k], grave_id, now);
            match res {
                Result::Ok(_) => {},
                Result::Err(e) => {
                    proof {
                        assert(false);
                    }
                    return Result::Err(e);
                },
            }
            proof {
                let h0 = s_mid.heirs.len() as int;
                assert(self@.heirs.drop_last() == pre.heirs);
                assert(self@.heirs.skip(h0) =~= pre.heirs.skip(h0).push(self@.heirs.last()));
                assert(self@.heirs.subrange(0, h0) =~= pre.heirs.subrange(0, h0));
                assert(heirs@.subrange(0, k + 1) =~= heirs@.subrange(0, k as int).push(
                    heirs@[k as int],
                ));
                let tail = self@.heirs.skip(h0);
                let reqs = heirs@.subrange(0, k + 1);
                assert forall|t: int| 0 <= t < reqs.len() implies heir_created_from(
                    #[trigger] tail[t],
                    reqs[t],
                    grave_id,
                    s_mid.next_heir_id + t,
                    now@,
                ) by {
                    if t < k {
                        assert(tail[t] == pre.heirs.skip(h0)[t]);
                        assert(reqs[t] == heirs@.subrange(0, k as int)[t]);
                    } else {
                        assert(tail[t] == self@.heirs.last());
                    }
                }
            }
            k = k + 1;
        }
        Result::Ok(())
    }

    /// A grave joined with its block and its ordered heir list.
    pub fn get_grave_detail(&self, id: i64) -> (r: Option<GraveDetail>)
        requires
            self.wf(),
        ensures
            match find_grave(self@.graves, id) {
                Option::Some(g) => r matches Some(d) && d.grave == join_grave(self@, g)
                    && vstd::relations::sorted_by(d.heirs@, heir_leq()) && d.heirs@.to_multiset()
                    == heirs_of(self@, id).to_multiset(),
                Option::None => r is None,
            },
    {
        match self.get_grave_by_id(id) {
            Option::None => Option::None,
            Option::Some(g) => {
                let heirs = self.get_heirs_by_grave(id);
                Option::Some(GraveDetail { grave: g, heirs })
            },
        }
    }

    /// One summary row per listed grave: the target-year payment, if any,
    /// and the five-year settlement window ending at the target year.
    pub fn get_graves_with_payment_summary(
        &self,
        search: &Option<String>,
        block_id: Option<i64>,
        year: i32,
        limit: i64,
        offset: i64,
    ) -> (r: Vec<GravePaymentSummary>)
        requires
            self.wf(),
            year >= i32::MIN + 4,
        ensures
            ({
                let listed = page(listed_graves(self@, search_view(*search), block_id), limit, offset);
                &&& r@.len() == listed.len()
                &&& forall|k: int|
                    0 <= k < listed.len() ==> summary_matches(
                        #[trigger] r@[k],
                        listed[k],
                        self@.payments,
                        year,
                    )
            }),
    {
        let graves = self.get_graves(search, block_id, limit, offset);
        let n = graves.len();
        let mut out: Vec<GravePaymentSummary> = Vec::new();
        let mut k: usize = 0;
        while k < n
            invariant
                self.wf(),
                year >= i32::MIN + 4,
                n == graves.len(),
                k <= n,
                out@.len() == k,
                forall|t: int|
                    0 <= t < k ==> summary_matches(
                        #[trigger] out@[t],
                        graves@[t],
                        self@.payments,
                        year,
                    ),
            decreases n - k,
        {
            let g = &graves[k];
            let current = self.get_payment_by_grave_and_year(g.id, year);
            proof {
                lemma_find_payment_props(self@.payments, g.id, year);
            }
            let mut recent: Vec<YearPaymentStatus> = Vec::new();
            let mut d: usize = 0;
            while d < 5
                invariant
                    self.wf(),
                    year >= i32::MIN + 4,
                    d <= 5,
                    n == graves.len(),
                    k < n,
                    recent@.len() == d,
                    forall|t: int|
                        0 <= t < d ==> {
                            let e = #[trigger] recent@[t];
                            let y = year - 4 + t;
                            &&& e.year as int == y
                            &&& e.is_paid == exists|j: int|
                                0 <= j < self@.payments.len() && (#[trigger] self@.payments[j]).grave_id
                                    == graves@[k as int].id && self@.payments[j].year as int == y
                            &&& (e.is_paid ==> exists|j: int|
                                0 <= j < self@.payments.len() && (#[trigger] self@.payments[j]).grave_id
                                    == graves@[k as int].id && self@.payments[j].year as int == y
                                    && e.amount == Option::Some(self@.payments[j].amount))
                            &&& (!e.is_paid ==> e.amount is None)
                        },
                decreases 5 - d,
            {
                let y = year - 4 + (d as i32);
                let found = self.get_payment_by_grave_and_year(graves[k].id, y);
                proof {
                    lemma_find_payment_props(self@.payments, graves@[k as int].id, y);
                    if found is Some {
                        let p = found->0;
                        assert(self@.payments.contains(p));
                        let w = choose|w: int|
                            0 <= w < self@.payments.len() && self@.payments[w] == p;
                        assert(self@.payments[w].grave_id == graves@[k as int].id);
                    }
                }
                let (is_paid, amount) = match &found {
                    Option::Some(p) => (true, Option::Some(p.amount)),
                    Option::None => (false, Option::None),
                };
                recent.push(YearPaymentStatus { year: y, is_paid, amount });
                d = d + 1;
            }
            proof {
                if current is Some {
                    let p = current->0;
                    assert(self@.payments.contains(p));
                }
            }
            let sm = GravePaymentSummary {
                grave_id: g.id,
                deceased_name: g.deceased_name.clone(),
                block_code: g.code.clone(),
                number: g.number.clone(),
                annual_fee: g.annual_fee,
                current_year_payment: current,
                recent_payments: recent,
            };
            out.push(sm);
            k = k + 1;
        }
        out
    }

    /// Every matching grave with its full heir list and payment history,
    /// newest grave first.
    pub fn get_all_graves_with_heirs(
        &self,
        search: &Option<String>,
        block_id: Option<i64>,
    ) -> (r: Vec<GraveExportData>)
        requires
            self.wf(),
        ensures
            ({
                let listed = listed_graves(self@, search_view(*search), block_id);
                &&& r@.len() == listed.len()
                &&& forall|k: int|
                    0 <= k < listed.len() ==> export_entry_ok(#[trigger] r@[k], listed[k], self@)
            }),
    {
        let graves = self.matching_graves_desc(search, block_id);
        let n = graves.len();
        let mut out: Vec<GraveExportData> = Vec::new();
        let mut k: usize = 0;
        while k < n
            invariant
                self.wf(),
                n == graves.len(),
                graves@ == listed_graves(self@, search_view(*search), block_id),
                k <= n,
                out@.len() == k,
                forall|t: int|
                    0 <= t < k ==> export_entry_ok(#[trigger] out@[t], graves@[t], self@),
            decreases n - k,
        {
            let g = graves[k].clone();
            let heirs = self.get_heirs_by_grave(g.id);
            let payments = self.get_payments_by_grave(g.id);
            out.push(GraveExportData { grave: g, heirs, payments });
            k = k + 1;
        }
        out
    }

    /// The export data set with the year range it covers: the given range
    /// when both ends are supplied, otherwise the observed span of payment
    /// years, or a fixed fallback range when no payments exist at all.
    pub fn export_graves(
        &self,
        search: &Option<String>,
        block_id: Option<i64>,
        start_year: Option<i32>,
        end_year: Option<i32>,
    ) -> (r: ExportGravesResult)
        requires
            self.wf(),
        ensures
            ({
                let listed = listed_graves(self@, search_view(*search), block_id);
                &&& r.graves@.len() == listed.len()
                &&& forall|k: int|
                    0 <= k < listed.len() ==> export_entry_ok(
                        #[trigger] r.graves@[k],
                        listed[k],
                        self@,
                    )
            }),
            (start_year is Some && end_year is Some) ==> r.start_year == start_year->0
                && r.end_year == end_year->0,
            !(start_year is Some && end_year is Some) && export_has_payment(r.graves@)
                ==> export_year_occurs(r.graves@, r.start_year) && export_year_occurs(
                r.graves@,
                r.end_year,
            ) && export_years_within(r.graves@, r.start_year, r.end_year),
            !(start_year is Some && end_year is Some) && !export_has_payment(r.graves@)
                ==> r.start_year == 2022 && r.end_year == 2026,
    {
        let graves = self.get_all_graves_with_heirs(search, block_id);
        if let (Option::Some(s), Option::Some(e)) = (&start_year, &end_year) {
            return ExportGravesResult { graves, start_year: *s, end_year: *e };
        }
        let n = graves.len();
        let mut found_any = false;
        let mut mn: i32 = 0;
        let mut mx: i32 = 0;
        let mut k: usize = 0;
        while k < n
            invariant
                n == graves.len(),
                k <= n,
                found_any == exists|a: int|
                    0 <= a < k && (#[trigger] graves@[a]).payments@.len() > 0,
                found_any ==> exists|a: int, b: int|
                    0 <= a < k && 0 <= b < graves@[a].payments@.len() && (#[trigger] graves@[
                        a
                    ].payments@[b]).year == mn,
                found_any ==> exists|a: int, b: int|
                    0 <= a < k && 0 <= b < graves@[a].payments@.len() && (#[trigger] graves@[
                        a
                    ].payments@[b]).year == mx,
                found_any ==> forall|a: int, b: int|
                    0 <= a < k && 0 <= b < graves@[a].payments@.len() ==> mn <= (
                    #[trigger] graves@[a].payments@[b]).year <= mx,
            decreases n - k,
        {
            let m = graves[k].payments.len();
            let mut l: usize = 0;
            while l < m
                invariant
                    n == graves.len(),
                    k < n,
                    m == graves@[k as int].payments@.len(),
                    l <= m,
                    found_any == ((exists|a: int|
                        0 <= a < k && (#[trigger] graves@[a]).payments@.len() > 0) || l > 0),
                    found_any ==> exists|a: int, b: int|
                        0 <= a < n && 0 <= b < graves@[a].payments@.len() && (a < k || (a == k && b
                            < l)) && (#[trigger] graves@[a].payments@[b]).year == mn,
                    found_any ==> exists|a: int, b: int|
                        0 <= a < n && 0 <= b < graves@[a].payments@.len() && (a < k || (a == k && b
                            < l)) && (#[trigger] graves@[a].payments@[b]).year == mx,
                    found_any ==> forall|a: int, b: int|
                        0 <= a < k && 0 <= b < graves@[a].payments@.len() ==> mn <= (
                        #[trigger] graves@[a].payments@[b]).year <= mx,
                    found_any ==> forall|b: int|
                        0 <= b < l ==> mn <= (#[trigger] graves@[k as int].payments@[b]).year
                            <= mx,
                decreases m - l,
            {
                let y = graves[k].payments[l].year;
                if !found_any {
                    found_any = true;
                    mn = y;
                    mx = y;
                } else {
                    if y < mn {
                        mn = y;
                    }
                    if y > mx {
                        mx = y;
                    }
                }
                l = l + 1;
            }
            k = k + 1;
        }
        if !found_any {
            mn = 2022;
            mx = 2026;
        }
        ExportGravesResult { graves, start_year: mn, end_year: mx }
    }

    /// Builds a store from rows read back from the backing file, after
    /// checking the integrity rules they must satisfy; rows written by
    /// this library always pass. Each table resumes identifier assignment
    /// after its highest stored identifier.
    #[verifier::rlimit(100)]
    pub fn from_rows(
        blocks: Vec<Block>,
        graves: Vec<Grave>,
        heirs: Vec<Heir>,
        payments: Vec<Payment>,
        settings: Option<Settings>,
    ) -> (r: Result<Store, StoreError>)
        ensures
            rows_valid(blocks@, graves@, heirs@, payments@, settings) ==> (r matches Ok(s)
                && s.wf()
                && s@.blocks == blocks@ && s@.graves == graves@ && s@.heirs == heirs@
                && s@.payments == payments@ && s@.settings == settings && s@.next_block_id
                == next_of(block_ids(blocks@)) && s@.next_grave_id == next_of(grave_ids(graves@))
                && s@.next_heir_id == next_of(heir_ids(heirs@)) && s@.next_payment_id == next_of(
                payment_ids(payments@),
            )),
            !rows_valid(blocks@, graves@, heirs@, payments@, settings) ==> r matches Err(
                StoreError::Schema(_),
            ),
    {
        let next_block_id = match Self::check_block_ids(&blocks) {
            Option::Some(next) => next,
            Option::None => {
                return Result::Err(Self::integrity_error());
            },
        };
        let next_grave_id = match Self::check_grave_ids(&graves) {
            Option::Some(next) => next,
            Option::None => {
                return Result::Err(Self::integrity_error());
            },
        };
        let next_heir_id = match Self::check_heir_ids(&heirs) {
            Option::Some(next) => next,
            Option::None => {
                return Result::Err(Self::integrity_error());
            },
        };
        let next_payment_id = match Self::check_payment_ids(&payments) {
            Option::Some(next) => next,
            Option::None => {
                return Result::Err(Self::integrity_error());
            },
        };
        if !Self::check_block_codes_and_caps(&blocks) {
            return Result::Err(Self::integrity_error());
        }
        let ng = graves.len();
        let mut i: usize = 0;
        while i < ng
            invariant
                ng == graves.len(),
                i <= ng,
                forall|k: int|
                    0 <= k < i ==> block_id_taken(blocks@, (#[trigger] graves@[k]).block_id),
            decreases ng - i,
        {
            if !blocks_contains_id(&blocks, graves[i].block_id) {
                return Result::Err(Self::integrity_error());
            }
            i = i + 1;
        }
        let nh = heirs.len();
        let mut i2: usize = 0;
        while i2 < nh
            invariant
                nh == heirs.len(),
                i2 <= nh,
                forall|k: int|
                    0 <= k < i2 ==> grave_id_taken(graves@, (#[trigger] heirs@[k]).grave_id),
            decreases nh - i2,
        {
            if !graves_contains_id(&graves, heirs[i2].grave_id) {
                return Result::Err(Self::integrity_error());
            }
            i2 = i2 + 1;
        }
        let np = payments.len();
        let mut i3: usize = 0;
        while i3 < np
            invariant
                np == payments.len(),
                i3 <= np,
                forall|k: int|
                    0 <= k < i3 ==> grave_id_taken(graves@, (#[trigger] payments@[k]).grave_id),
            decreases np - i3,
        {
            if !graves_contains_id(&graves, payments[i3].grave_id) {
                return Result::Err(Self::integrity_error());
            }
            i3 = i3 + 1;
        }
        if let Option::Some(t) = &settings {
            if t.id != 1 {
                return Result::Err(Self::integrity_error());
            }
        }
        proof {
            let st = State {
                blocks: blocks@,
                graves: graves@,
                heirs: heirs@,
                payments: payments@,
                settings: settings,
                next_block_id: next_block_id as int,
                next_grave_id: next_grave_id as int,
                next_heir_id: next_heir_id as int,
                next_payment_id: next_payment_id as int,
            };
            lemma_rows_valid_state_wf(st);
        }
        Result::Ok(
            Store {
                blocks,
                graves,
                heirs,
                payments,
                settings,
                next_block_id,
                next_grave_id,
                next_heir_id,
                next_payment_id,
            },
        )
    }

    fn integrity_error() -> (e: StoreError)
        ensures
            e matches StoreError::Schema(_),
    {
        StoreError::Schema(String::from_str("stored rows fail the store's integrity rules"))
    }

    /// Validates one identifier column and yields its next identifier.
    fn check_block_ids(v: &Vec<Block>) -> (r: Option<i64>)
        ensures
            r is Some <==> ids_ok(block_ids(v@)),
            r matches Some(next) ==> next as int == next_of(block_ids(v@)),
    {
        let n = v.len();
        proof {
            assert forall|t: int| 0 <= t < v@.len() implies #[trigger] block_ids(v@)[t] == v@[t].id
                by {}
        }
        if n == 0 {
            return Option::Some(1);
        }
        if v[0].id < 1 {
            return Option::None;
        }
        let mut i: usize = 1;
        while i < n
            invariant
                n == v.len(),
                1 <= i <= n,
                forall|t: int| 0 <= t < i - 1 ==> (#[trigger] v@[t]).id < v@[t + 1].id,
            decreases n - i,
        {
            if v[i - 1].id >= v[i].id {
                proof {
                    assert(block_ids(v@)[i - 1] == v@[i - 1].id);
                    assert(block_ids(v@)[i as int] == v@[i as int].id);
                    assert(!ids_ok(block_ids(v@)));
                }
                return Option::None;
            }
            i = i + 1;
        }
        proof {
            assert forall|t: int| 0 <= t < v@.len() implies #[trigger] block_ids(v@)[t] == v@[t].id
                by {}
        }
        if v[n - 1].id == i64::MAX {
            proof {
                assert(!ids_ok(block_ids(v@)));
            }
            return Option::None;
        }
        proof {
            assert(ids_ok(block_ids(v@)));
        }
        Option::Some(v[n - 1].id + 1)
    }

    fn check_grave_ids(v: &Vec<Grave>) -> (r: Option<i64>)
        ensures
            r is Some <==> ids_ok(grave_ids(v@)),
            r matches Some(next) ==> next as int == next_of(grave_ids(v@)),
    {
        let n = v.len();
        proof {
            assert forall|t: int| 0 <= t < v@.len() implies #[trigger] grave_ids(v@)[t] == v@[t].id
                by {}
        }
        if n == 0 {
            return Option::Some(1);
        }
        if v[0].id < 1 {
            return Option::None;
        }
        let mut i: usize = 1;
        while i < n
            invariant
                n == v.len(),
                1 <= i <= n,
                forall|t: int| 0 <= t < i - 1 ==> (#[trigger] v@[t]).id < v@[t + 1].id,
            decreases n - i,
        {
            if v[i - 1].id >= v[i].id {
                proof {
                    assert(grave_ids(v@)[i - 1] == v@[i - 1].id);
                    assert(grave_ids(v@)[i as int] == v@[i as int].id);
                    assert(!ids_ok(grave_ids(v@)));
                }
                return Option::None;
            }
            i = i + 1;
        }
        proof {
            assert forall|t: int| 0 <= t < v@.len() implies #[trigger] grave_ids(v@)[t] == v@[t].id
                by {}
        }
        if v[n - 1].id == i64::MAX {
            proof {
                assert(!ids_ok(grave_ids(v@)));
            }
            return Option::None;
        }
        proof {
            assert(ids_ok(grave_ids(v@)));
        }
        Option::Some(v[n - 1].id + 1)
    }

    fn check_heir_ids(v: &Vec<Heir>) -> (r: Option<i64>)
        ensures
            r is Some <==> ids_ok(heir_ids(v@)),
            r matches Some(next) ==> next as int == next_of(heir_ids(v@)),
    {
        let n = v.len();
        proof {
            assert forall|t: int| 0 <= t < v@.len() implies #[trigger] heir_ids(v@)[t] == v@[t].id
                by {}
        }
        if n == 0 {
            return Option::Some(1);
        }
        if v[0].id < 1 {
            return Option::None;
        }
        let mut i: usize = 1;
        while i < n
            invariant
                n == v.len(),
                1 <= i <= n,
                forall|t: int| 0 <= t < i - 1 ==> (#[trigger] v@[t]).id < v@[t + 1].id,
            decreases n - i,
        {
            if v[i - 1].id >= v[i].id {
                proof {
                    assert(heir_ids(v@)[i - 1] == v@[i - 1].id);
                    assert(heir_ids(v@)[i as int] == v@[i as int].id);
                    assert(!ids_ok(heir_ids(v@)));
                }
                return Option::None;
            }
            i = i + 1;
        }
        proof {
            assert forall|t: int| 0 <= t < v@.len() implies #[trigger] heir_ids(v@)[t] == v@[t].id
                by {}
        }
        if v[n - 1].id == i64::MAX {
            proof {
                assert(!ids_ok(heir_ids(v@)));
            }
            return Option::None;
        }
        proof {
            assert(ids_ok(heir_ids(v@)));
        }
        Option::Some(v[n - 1].id + 1)
    }

    fn check_payment_ids(v: &Vec<Payment>) -> (r: Option<i64>)
        ensures
            r is Some <==> ids_ok(payment_ids(v@)),
            r matches Some(next) ==> next as int == next_of(payment_ids(v@)),
    {
        let n = v.len();
        proof {
            assert forall|t: int| 0 <= t < v@.len() implies #[trigger] payment_ids(v@)[t] == v@[t].id
                by {}
        }
        if n == 0 {
            return Option::Some(1);
        }
        if v[0].id < 1 {
            return Option::None;
        }
        let mut i: usize = 1;
        while i < n
            invariant
                n == v.len(),
                1 <= i <= n,
                forall|t: int| 0 <= t < i - 1 ==> (#[trigger] v@[t]).id < v@[t + 1].id,
            decreases n - i,
        {
            if v[i - 1].id >= v[i].id {
                proof {
                    assert(payment_ids(v@)[i - 1] == v@[i - 1].id);
                    assert(payment_ids(v@)[i as int] == v@[i as int].id);
                    assert(!ids_ok(payment_ids(v@)));
                }
                return Option::None;
            }
            i = i + 1;
        }
        proof {
            assert forall|t: int| 0 <= t < v@.len() implies #[trigger] payment_ids(v@)[t] == v@[t].id
                by {}
        }
        if v[n - 1].id == i64::MAX {
            proof {
                assert(!ids_ok(payment_ids(v@)));
            }
            return Option::None;
        }
        proof {
            assert(ids_ok(payment_ids(v@)));
        }
        Option::Some(v[n - 1].id + 1)
    }

    /// Validates code distinctness and capacity signs of the block table.
    fn check_block_codes_and_caps(v: &Vec<Block>) -> (r: bool)
        ensures
            r == ((forall|i: int, j: int|
                0 <= i < j < v@.len() ==> (#[trigger] v@[i]).code@ != (#[trigger] v@[j]).code@)
                && (forall|i: int| 0 <= i < v@.len() ==> (#[trigger] v@[i]).total_capacity >= 0)),
    {
        let n = v.len();
        let mut i: usize = 0;
        while i < n
            invariant
                n == v.len(),
                i <= n,
                forall|a: int, b: int|
                    0 <= a < b < i ==> (#[trigger] v@[a]).code@ != (#[trigger] v@[b]).code@,
                forall|a: int| 0 <= a < i ==> (#[trigger] v@[a]).total_capacity >= 0,
            decreases n - i,
        {
            if v[i].total_capacity < 0 {
                return false;
            }
            let mut j: usize = 0;
            while j < i
                invariant
                    n == v.len(),
                    i < n,
                    j <= i,
                    forall|a: int| 0 <= a < j ==> (#[trigger] v@[a]).code@ != v@[i as int].code@,
                decreases i - j,
            {
                if v[j].code == v[i].code {
                    return false;
                }
                j = j + 1;
            }
            i = i + 1;
        }
        true
    }

    /// Deletes one payment; an absent identifier deletes nothing.
    pub fn delete_payment(&mut self, id: i64) -> (r: Result<(), StoreError>)
        requires
            old(self).wf(),
        ensures
            final(self).wf(),
            r is Ok,
            final(self)@ == delete_payment_next(old(self)@, id),
    {
        let out = filter_payments_excluding(&self.payments, id);
        proof {
            let s = self@;
            lemma_filter_payments_wf(s.payments, payment_id_is_not(id), s.next_payment_id);
            let fp = s.payments.filter(payment_id_is_not(id));
            assert forall|k: int|
                0 <= k < fp.len() implies grave_id_taken(s.graves, (#[trigger] fp[k]).grave_id) by {
                assert(s.payments.contains(fp[k])) by {
                    lemma_filter_pairwise(
                        s.payments,
                        payment_id_is_not(id),
                        |a: Payment, b: Payment| a.id < b.id,
                    );
                }
                let w = choose|w: int| 0 <= w < s.payments.len() && s.payments[w] == fp[k];
                assert(grave_id_taken(s.graves, s.payments[w].grave_id));
            }
        }
        self.payments = out;
        Result::Ok(())
    }
}


// ---------------------------------------------------------------------------
// Filter rebuilds: each delete realizes a `filter` of one table.
// ---------------------------------------------------------------------------

fn filter_blocks_excluding(src: &Vec<Block>, id: i64) -> (out: Vec<Block>)
    ensures
        out@ == src@.filter(block_id_is_not(id)),
{
    let n = src.len();
    let mut out: Vec<Block> = Vec::new();
    let mut k: usize = 0;
    proof {
        reveal(Seq::filter);
        assert(src@.subrange(0, 0) =~= Seq::<Block>::empty());
        assert(Seq::<Block>::empty().filter(block_id_is_not(id)) =~= Seq::<Block>::empty());
    }
    while k < n
        invariant
            n == src.len(),
            k <= n,
            out@ == src@.subrange(0, k as int).filter(block_id_is_not(id)),
        decreases n - k,
    {
        proof {
            assert(src@.subrange(0, k + 1) =~= src@.subrange(0, k as int).push(src@[k as int]));
            lemma_filter_push(src@.subrange(0, k as int), block_id_is_not(id), src@[k as int]);
        }
        if src[k].id != id {
            out.push(src[k].clone());
        }
        k = k + 1;
    }
    proof {
        assert(src@.subrange(0, n as int) =~= src@);
    }
    out
}

fn filter_graves_excluding(src: &Vec<Grave>, id: i64) -> (out: Vec<Grave>)
    ensures
        out@ == src@.filter(grave_id_is_not(id)),
{
    let n = src.len();
    let mut out: Vec<Grave> = Vec::new();
    let mut k: usize = 0;
    proof {
        reveal(Seq::filter);
        assert(src@.subrange(0, 0) =~= Seq::<Grave>::empty());
        assert(Seq::<Grave>::empty().filter(grave_id_is_not(id)) =~= Seq::<Grave>::empty());
    }
    while k < n
        invariant
            n == src.len(),
            k <= n,
            out@ == src@.subrange(0, k as int).filter(grave_id_is_not(id)),
        decreases n - k,
    {
        proof {
            assert(src@.subrange(0, k + 1) =~= src@.subrange(0, k as int).push(src@[k as int]));
            lemma_filter_push(src@.subrange(0, k as int), grave_id_is_not(id), src@[k as int]);
        }
        if src[k].id != id {
            out.push(src[k].clone());
        }
        k = k + 1;
    }
    proof {
        assert(src@.subrange(0, n as int) =~= src@);
    }
    out
}

fn filter_heirs_excluding(src: &Vec<Heir>, id: i64) -> (out: Vec<Heir>)
    ensures
        out@ == src@.filter(heir_id_is_not(id)),
{
    let n = src.len();
    let mut out: Vec<Heir> = Vec::new();
    let mut k: usize = 0;
    proof {
        reveal(Seq::filter);
        assert(src@.subrange(0, 0) =~= Seq::<Heir>::empty());
        assert(Seq::<Heir>::empty().filter(heir_id_is_not(id)) =~= Seq::<Heir>::empty());
    }
    while k < n
        invariant
            n == src.len(),
            k <= n,
            out@ == src@.subrange(0, k as int).filter(heir_id_is_not(id)),
        decreases n - k,
    {
        proof {
            assert(src@.subrange(0, k + 1) =~= src@.subrange(0, k as int).push(src@[k as int]));
            lemma_filter_push(src@.subrange(0, k as int), heir_id_is_not(id), src@[k as int]);
        }
        if src[k].id != id {
            out.push(src[k].clone());
        }
        k = k + 1;
    }
    proof {
        assert(src@.subrange(0, n as int) =~= src@);
    }
    out
}

fn filter_heirs_not_of_grave(src: &Vec<Heir>, grave_id: i64) -> (out: Vec<Heir>)
    ensures
        out@ == src@.filter(heir_not_of_grave(grave_id)),
{
    let n = src.len();
    let mut out: Vec<Heir> = Vec::new();
    let mut k: usize = 0;
    proof {
        reveal(Seq::filter);
        assert(src@.subrange(0, 0) =~= Seq::<Heir>::empty());
        assert(Seq::<Heir>::empty().filter(heir_not_of_grave(grave_id)) =~= Seq::<Heir>::empty());
    }
    while k < n
        invariant
            n == src.len(),
            k <= n,
            out@ == src@.subrange(0, k as int).filter(heir_not_of_grave(grave_id)),
        decreases n - k,
    {
        proof {
            assert(src@.subrange(0, k + 1) =~= src@.subrange(0, k as int).push(src@[k as int]));
            lemma_filter_push(src@.subrange(0, k as int), heir_not_of_grave(grave_id), src@[k as int]);
        }
        if src[k].grave_id != grave_id {
            out.push(src[k].clone());
        }
        k = k + 1;
    }
    proof {
        assert(src@.subrange(0, n as int) =~= src@);
    }
    out
}

fn filter_payments_excluding(src: &Vec<Payment>, id: i64) -> (out: Vec<Payment>)
    ensures
        out@ == src@.filter(payment_id_is_not(id)),
{
    let n = src.len();
    let mut out: Vec<Payment> = Vec::new();
    let mut k: usize = 0;
    proof {
        reveal(Seq::filter);
        assert(src@.subrange(0, 0) =~= Seq::<Payment>::empty());
        assert(Seq::<Payment>::empty().filter(payment_id_is_not(id)) =~= Seq::<Payment>::empty());
    }
    while k < n
        invariant
            n == src.len(),
            k <= n,
            out@ == src@.subrange(0, k as int).filter(payment_id_is_not(id)),
        decreases n - k,
    {
        proof {
            assert(src@.subrange(0, k + 1) =~= src@.subrange(0, k as int).push(src@[k as int]));
            lemma_filter_push(src@.subrange(0, k as int), payment_id_is_not(id), src@[k as int]);
        }
        if src[k].id != id {
            out.push(src[k].clone());
        }
        k = k + 1;
    }
    proof {
        assert(src@.subrange(0, n as int) =~= src@);
    }
    out
}

fn filter_payments_not_of_grave(src: &Vec<Payment>, grave_id: i64) -> (out: Vec<Payment>)
    ensures
        out@ == src@.filter(payment_not_of_grave(grave_id)),
{
    let n = src.len();
    let mut out: Vec<Payment> = Vec::new();
    let mut k: usize = 0;
    proof {
        reveal(Seq::filter);
        assert(src@.subrange(0, 0) =~= Seq::<Payment>::empty());
        assert(Seq::<Payment>::empty().filter(payment_not_of_grave(grave_id)) =~= Seq::<
            Payment,
        >::empty());
    }
    while k < n
        invariant
            n == src.len(),
            k <= n,
            out@ == src@.subrange(0, k as int).filter(payment_not_of_grave(grave_id)),
        decreases n - k,
    {
        proof {
            assert(src@.subrange(0, k + 1) =~= src@.subrange(0, k as int).push(src@[k as int]));
            lemma_filter_push(
                src@.subrange(0, k as int),
                payment_not_of_grave(grave_id),
                src@[k as int],
            );
        }
        if src[k].grave_id != grave_id {
            out.push(src[k].clone());
        }
        k = k + 1;
    }
    proof {
        assert(src@.subrange(0, n as int) =~= src@);
    }
    out
}

// ---------------------------------------------------------------------------
// Coalesce updates as executable functions.
// ---------------------------------------------------------------------------

fn apply_block_update(cur: Block, req: &UpdateBlockRequest) -> (r: Block)
    ensures
        r == block_coalesce(cur, *req),
{
    Block {
        id: cur.id,
        code: match &req.code {
            Option::Some(c) => c.clone(),
            Option::None => cur.code,
        },
        description: match &req.description {
            Option::Some(d) => Option::Some(d.clone()),
            Option::None => cur.description,
        },
        total_capacity: match req.total_capacity {
            Option::Some(t) => t,
            Option::None => cur.total_capacity,
        },
        annual_fee: match req.annual_fee {
            Option::Some(f) => f,
            Option::None => cur.annual_fee,
        },
        status: match &req.status {
            Option::Some(s) => s.clone(),
            Option::None => cur.status,
        },
        created_at: cur.created_at,
        updated_at: cur.updated_at,
    }
}

fn apply_grave_update(cur: Grave, req: &UpdateGraveRequest) -> (r: Grave)
    ensures
        r == grave_coalesce(cur, *req),
{
    Grave {
        id: cur.id,
        deceased_name: match &req.deceased_name {
            Option::Some(v) => v.clone(),
            Option::None => cur.deceased_name,
        },
        block_id: match req.block_id {
            Option::Some(v) => v,
            Option::None => cur.block_id,
        },
        number: match &req.number {
            Option::Some(v) => v.clone(),
            Option::None => cur.number,
        },
        date_of_death: match &req.date_of_death {
            Option::Some(v) => v.clone(),
            Option::None => cur.date_of_death,
        },
        burial_date: match &req.burial_date {
            Option::Some(v) => Option::Some(v.clone()),
            Option::None => cur.burial_date,
        },
        notes: match &req.notes {
            Option::Some(v) => Option::Some(v.clone()),
            Option::None => cur.notes,
        },
        created_at: cur.created_at,
        updated_at: cur.updated_at,
    }
}

fn apply_heir_update(cur: Heir, req: &UpdateHeirRequest) -> (r: Heir)
    ensures
        r == heir_coalesce(cur, *req),
{
    Heir {
        id: cur.id,
        grave_id: cur.grave_id,
        order_number: cur.order_number,
        full_name: match &req.full_name {
            Option::Some(v) => v.clone(),
            Option::None => cur.full_name,
        },
        phone_number: match &req.phone_number {
            Option::Some(v) => Option::Some(v.clone()),
            Option::None => cur.phone_number,
        },
        relationship: match &req.relationship {
            Option::Some(v) => Option::Some(v.clone()),
            Option::None => cur.relationship,
        },
        address: match &req.address {
            Option::Some(v) => Option::Some(v.clone()),
            Option::None => cur.address,
        },
        is_primary: match req.is_primary {
            Option::Some(v) => v,
            Option::None => cur.is_primary,
        },
        created_at: cur.created_at,
        updated_at: cur.updated_at,
    }
}

fn apply_settings_update(cur: Settings, req: &UpdateSettingsRequest) -> (r: Settings)
    ensures
        r == settings_coalesce(cur, *req),
{
    Settings {
        id: cur.id,
        foundation_name: match &req.foundation_name {
            Option::Some(v) => v.clone(),
            Option::None => cur.foundation_name,
        },
        address: match &req.address {
            Option::Some(v) => Option::Some(v.clone()),
            Option::None => cur.address,
        },
        phone: match &req.phone {
            Option::Some(v) => Option::Some(v.clone()),
            Option::None => cur.phone,
        },
        email: match &req.email {
            Option::Some(v) => Option::Some(v.clone()),
            Option::None => cur.email,
        },
        logo_path: match &req.logo_path {
            Option::Some(v) => Option::Some(v.clone()),
            Option::None => cur.logo_path,
        },
        active_year: match req.active_year {
            Option::Some(v) => v,
            Option::None => cur.active_year,
        },
        last_backup: cur.last_backup,
        auto_backup: match req.auto_backup {
            Option::Some(v) => v,
            Option::None => cur.auto_backup,
        },
        created_at: cur.created_at,
        updated_at: cur.updated_at,
    }
}

/// Filtering after appending one element: the element is kept exactly when
/// it satisfies the predicate.
proof fn lemma_filter_push<A>(s: Seq<A>, pred: spec_fn(A) -> bool, x: A)
    ensures
        s.push(x).filter(pred) == if pred(x) {
            s.filter(pred).push(x)
        } else {
            s.filter(pred)
        },
{
    assert(s.push(x).drop_last() =~= s);
    assert(s.push(x).last() == x);
    reveal(Seq::filter);
}

/// A filtered sequence keeps every pairwise property of the original, and
/// each of its elements occurs in the original.
pub(crate) proof fn lemma_filter_pairwise<A>(s: Seq<A>, pred: spec_fn(A) -> bool, rel: spec_fn(A, A) -> bool)
    requires
        forall|i: int, j: int| 0 <= i < j < s.len() ==> rel(#[trigger] s[i], #[trigger] s[j]),
    ensures
        forall|i: int, j: int|
            0 <= i < j < s.filter(pred).len() ==> rel(
                #[trigger] s.filter(pred)[i],
                #[trigger] s.filter(pred)[j],
            ),
        forall|i: int| 0 <= i < s.filter(pred).len() ==> s.contains(#[trigger] s.filter(pred)[i]),
    decreases s.len(),
{
    reveal(Seq::filter);
    if s.len() > 0 {
        let head = s.drop_last();
        lemma_filter_pairwise(head, pred, rel);
        assert(forall|i: int, j: int|
            0 <= i < j < head.len() ==> rel(#[trigger] head[i], #[trigger] head[j]));
        let f = s.filter(pred);
        let fh = head.filter(pred);
        assert forall|i: int| 0 <= i < f.len() implies s.contains(#[trigger] f[i]) by {
            if i < fh.len() {
                assert(head.contains(fh[i]));
                let w = choose|w: int| 0 <= w < head.len() && head[w] == fh[i];
                assert(s[w] == f[i]);
            } else {
                assert(f[i] == s.last());
            }
        }
        assert forall|i: int, j: int| 0 <= i < j < f.len() implies rel(
            #[trigger] f[i],
            #[trigger] f[j],
        ) by {
            if j < fh.len() {
                assert(rel(fh[i], fh[j]));
            } else {
                assert(f[j] == s.last());
                assert(head.contains(fh[i]));
                let w = choose|w: int| 0 <= w < head.len() && head[w] == fh[i];
                assert(rel(s[w], s[s.len() - 1]));
            }
        }
    }
}

/// Inserting an element anywhere in a sequence inserts it into the
/// sequence's multiset.
proof fn lemma_insert_to_multiset<A>(s: Seq<A>, i: int, x: A)
    requires
        0 <= i <= s.len(),
    ensures
        s.insert(i, x).to_multiset() == s.to_multiset().insert(x),
{
    let l = s.subrange(0, i);
    let r = s.subrange(i, s.len() as int);
    assert(s.insert(i, x) =~= l.push(x) + r);
    assert(s =~= l + r);
    vstd::seq_lib::lemma_multiset_commutative(l.push(x), r);
    vstd::seq_lib::lemma_multiset_commutative(l, r);
    assert(l.push(x).to_multiset() =~= l.to_multiset().insert(x));
    assert(l.to_multiset().insert(x).add(r.to_multiset()) =~= l.to_multiset().add(
        r.to_multiset(),
    ).insert(x));
}

// ---------------------------------------------------------------------------
// Keep-filters and insertion sorts behind the ordered listings.
// ---------------------------------------------------------------------------

fn filter_heirs_of_grave(src: &Vec<Heir>, grave_id: i64) -> (out: Vec<Heir>)
    ensures
        out@ == src@.filter(heir_of_grave(grave_id)),
{
    let n = src.len();
    let mut out: Vec<Heir> = Vec::new();
    let mut k: usize = 0;
    proof {
        reveal(Seq::filter);
        assert(src@.subrange(0, 0) =~= Seq::<Heir>::empty());
        assert(Seq::<Heir>::empty().filter(heir_of_grave(grave_id)) =~= Seq::<Heir>::empty());
    }
    while k < n
        invariant
            n == src.len(),
            k <= n,
            out@ == src@.subrange(0, k as int).filter(heir_of_grave(grave_id)),
        decreases n - k,
    {
        proof {
            assert(src@.subrange(0, k + 1) =~= src@.subrange(0, k as int).push(src@[k as int]));
            lemma_filter_push(src@.subrange(0, k as int), heir_of_grave(grave_id), src@[k as int]);
        }
        if src[k].grave_id == grave_id {
            out.push(src[k].clone());
        }
        k = k + 1;
    }
    proof {
        assert(src@.subrange(0, n as int) =~= src@);
    }
    out
}

fn filter_payments_of_grave(src: &Vec<Payment>, grave_id: i64) -> (out: Vec<Payment>)
    ensures
        out@ == src@.filter(payment_of_grave(grave_id)),
{
    let n = src.len();
    let mut out: Vec<Payment> = Vec::new();
    let mut k: usize = 0;
    proof {
        reveal(Seq::filter);
        assert(src@.subrange(0, 0) =~= Seq::<Payment>::empty());
        assert(Seq::<Payment>::empty().filter(payment_of_grave(grave_id)) =~= Seq::<
            Payment,
        >::empty());
    }
    while k < n
        invariant
            n == src.len(),
            k <= n,
            out@ == src@.subrange(0, k as int).filter(payment_of_grave(grave_id)),
        decreases n - k,
    {
        proof {
            assert(src@.subrange(0, k + 1) =~= src@.subrange(0, k as int).push(src@[k as int]));
            lemma_filter_push(
                src@.subrange(0, k as int),
                payment_of_grave(grave_id),
                src@[k as int],
            );
        }
        if src[k].grave_id == grave_id {
            out.push(src[k].clone());
        }
        k = k + 1;
    }
    proof {
        assert(src@.subrange(0, n as int) =~= src@);
    }
    out
}

/// First position whose block code is past `x`'s code.
fn find_insert_pos_block(out: &Vec<Block>, x: &Block) -> (pos: usize)
    ensures
        pos <= out.len(),
        forall|t: int| 0 <= t < pos ==> crate::text::lex_le((#[trigger] out@[t]).code@, x.code@),
        pos < out.len() ==> !crate::text::lex_le(out@[pos as int].code@, x.code@),
{
    let n = out.len();
    let mut j: usize = 0;
    while j < n
        invariant
            n == out.len(),
            j <= n,
            forall|t: int| 0 <= t < j ==> crate::text::lex_le((#[trigger] out@[t]).code@, x.code@),
        decreases n - j,
    {
        if !crate::text::str_le(out[j].code.as_str(), x.code.as_str()) {
            return j;
        }
        j = j + 1;
    }
    j
}

/// Sorts blocks by code, ascending.
fn sort_blocks(src: &Vec<Block>) -> (out: Vec<Block>)
    ensures
        vstd::relations::sorted_by(out@, block_code_leq()),
        out@.to_multiset() == src@.to_multiset(),
{
    let n = src.len();
    let mut out: Vec<Block> = Vec::new();
    let mut i: usize = 0;
    proof {
        assert(out@ =~= src@.subrange(0, 0));
    }
    while i < n
        invariant
            n == src.len(),
            i <= n,
            vstd::relations::sorted_by(out@, block_code_leq()),
            out@.to_multiset() == src@.subrange(0, i as int).to_multiset(),
        decreases n - i,
    {
        let x = src[i].clone();
        let pos = find_insert_pos_block(&out, &x);
        let ghost prev = out@;
        out.insert(pos, x);
        proof {
            lemma_insert_to_multiset(prev, pos as int, x);
            assert(src@.subrange(0, i + 1) =~= src@.subrange(0, i as int).push(src@[i as int]));
            assert(src@.subrange(0, i + 1).to_multiset() =~= src@.subrange(
                0,
                i as int,
            ).to_multiset().insert(src@[i as int]));
            let u = out@;
            assert forall|a: int, b: int| 0 <= a < b < u.len() implies #[trigger] block_code_leq()(
                u[a],
                u[b],
            ) by {
                let p = pos as int;
                if b < p {
                    assert(block_code_leq()(prev[a], prev[b]));
                } else if a > p {
                    assert(block_code_leq()(prev[a - 1], prev[b - 1]));
                } else if a < p && b == p {
                    assert(crate::text::lex_le(prev[a].code@, x.code@));
                } else if a == p && b > p {
                    crate::text::lemma_lex_total(prev[p].code@, x.code@);
                    if b - 1 > p {
                        assert(block_code_leq()(prev[p], prev[b - 1]));
                        crate::text::lemma_lex_trans(x.code@, prev[p].code@, prev[b - 1].code@);
                    }
                } else if a < p && b > p {
                    assert(crate::text::lex_le(prev[a].code@, x.code@));
                    crate::text::lemma_lex_total(prev[p].code@, x.code@);
                    if b - 1 > p {
                        assert(block_code_leq()(prev[p], prev[b - 1]));
                        crate::text::lemma_lex_trans(x.code@, prev[p].code@, prev[b - 1].code@);
                    }
                    crate::text::lemma_lex_trans(prev[a].code@, x.code@, u[b].code@);
                }
            }
        }
        i = i + 1;
    }
    proof {
        assert(src@.subrange(0, n as int) =~= src@);
    }
    out
}

/// First position whose heir order number is past `x`'s.
fn find_insert_pos_heir(out: &Vec<Heir>, x: &Heir) -> (pos: usize)
    ensures
        pos <= out.len(),
        forall|t: int| 0 <= t < pos ==> (#[trigger] out@[t]).order_number <= x.order_number,
        pos < out.len() ==> out@[pos as int].order_number > x.order_number,
{
    let n = out.len();
    let mut j: usize = 0;
    while j < n
        invariant
            n == out.len(),
            j <= n,
            forall|t: int| 0 <= t < j ==> (#[trigger] out@[t]).order_number <= x.order_number,
        decreases n - j,
    {
        if out[j].order_number > x.order_number {
            return j;
        }
        j = j + 1;
    }
    j
}

/// Sorts heirs by order number, ascending.
fn sort_heirs(src: &Vec<Heir>) -> (out: Vec<Heir>)
    ensures
        vstd::relations::sorted_by(out@, heir_leq()),
        out@.to_multiset() == src@.to_multiset(),
{
    let n = src.len();
    let mut out: Vec<Heir> = Vec::new();
    let mut i: usize = 0;
    proof {
        assert(out@ =~= src@.subrange(0, 0));
    }
    while i < n
        invariant
            n == src.len(),
            i <= n,
            vstd::relations::sorted_by(out@, heir_leq()),
            out@.to_multiset() == src@.subrange(0, i as int).to_multiset(),
        decreases n - i,
    {
        let x = src[i].clone();
        let pos = find_insert_pos_heir(&out, &x);
        let ghost prev = out@;
        out.insert(pos, x);
        proof {
            lemma_insert_to_multiset(prev, pos as int, x);
            assert(src@.subrange(0, i + 1) =~= src@.subrange(0, i as int).push(src@[i as int]));
            assert(src@.subrange(0, i + 1).to_multiset() =~= src@.subrange(
                0,
                i as int,
            ).to_multiset().insert(src@[i as int]));
            let u = out@;
            assert forall|a: int, b: int| 0 <= a < b < u.len() implies #[trigger] heir_leq()(
                u[a],
                u[b],
            ) by {
                let p = pos as int;
                if b < p {
                    assert(heir_leq()(prev[a], prev[b]));
                } else if a > p {
                    assert(heir_leq()(prev[a - 1], prev[b - 1]));
                } else if a < p && b == p {
                } else if a == p && b > p {
                    if b - 1 > p {
                        assert(heir_leq()(prev[p], prev[b - 1]));
                    }
                } else if a < p && b > p {
                    if b - 1 > p {
                        assert(heir_leq()(prev[p], prev[b - 1]));
                    }
                }
            }
        }
        i = i + 1;
    }
    proof {
        assert(src@.subrange(0, n as int) =~= src@);
    }
    out
}

/// First position whose payment year is past `x`'s in descending order.
fn find_insert_pos_payment(out: &Vec<Payment>, x: &Payment) -> (pos: usize)
    ensures
        pos <= out.len(),
        forall|t: int| 0 <= t < pos ==> (#[trigger] out@[t]).year >= x.year,
        pos < out.len() ==> out@[pos as int].year < x.year,
{
    let n = out.len();
    let mut j: usize = 0;
    while j < n
        invariant
            n == out.len(),
            j <= n,
            forall|t: int| 0 <= t < j ==> (#[trigger] out@[t]).year >= x.year,
        decreases n - j,
    {
        if out[j].year < x.year {
            return j;
        }
        j = j + 1;
    }
    j
}

/// Sorts payments by year, descending.
fn sort_payments(src: &Vec<Payment>) -> (out: Vec<Payment>)
    ensures
        vstd::relations::sorted_by(out@, payment_year_geq()),
        out@.to_multiset() == src@.to_multiset(),
{
    let n = src.len();
    let mut out: Vec<Payment> = Vec::new();
    let mut i: usize = 0;
    proof {
        assert(out@ =~= src@.subrange(0, 0));
    }
    while i < n
        invariant
            n == src.len(),
            i <= n,
            vstd::relations::sorted_by(out@, payment_year_geq()),
            out@.to_multiset() == src@.subrange(0, i as int).to_multiset(),
        decreases n - i,
    {
        let x = src[i].clone();
        let pos = find_insert_pos_payment(&out, &x);
        let ghost prev = out@;
        out.insert(pos, x);
        proof {
            lemma_insert_to_multiset(prev, pos as int, x);
            assert(src@.subrange(0, i + 1) =~= src@.subrange(0, i as int).push(src@[i as int]));
            assert(src@.subrange(0, i + 1).to_multiset() =~= src@.subrange(
                0,
                i as int,
            ).to_multiset().insert(src@[i as int]));
            let u = out@;
            assert forall|a: int, b: int|
                0 <= a < b < u.len() implies #[trigger] payment_year_geq()(u[a], u[b]) by {
                let p = pos as int;
                if b < p {
                    assert(payment_year_geq()(prev[a], prev[b]));
                } else if a > p {
                    assert(payment_year_geq()(prev[a - 1], prev[b - 1]));
                } else if a < p && b == p {
                } else if a == p && b > p {
                    if b - 1 > p {
                        assert(payment_year_geq()(prev[p], prev[b - 1]));
                    }
                } else if a < p && b > p {
                    if b - 1 > p {
                        assert(payment_year_geq()(prev[p], prev[b - 1]));
                    }
                }
            }
        }
        i = i + 1;
    }
    proof {
        assert(src@.subrange(0, n as int) =~= src@);
    }
    out
}

/// What the first matching payment satisfies, when one exists.
proof fn lemma_find_payment_props(ps: Seq<Payment>, grave_id: i64, year: i32)
    ensures
        match find_payment_for_year(ps, grave_id, year) {
            Option::Some(p) => p.grave_id == grave_id && p.year == year && ps.contains(p),
            Option::None => true,
        },
    decreases ps.len(),
{
    if ps.len() > 0 {
        if ps[0].grave_id == grave_id && ps[0].year == year {
        } else {
            lemma_find_payment_props(ps.skip(1), grave_id, year);
            match find_payment_for_year(ps.skip(1), grave_id, year) {
                Option::Some(p) => {
                    let w = choose|w: int| 0 <= w < ps.skip(1).len() && ps.skip(1)[w] == p;
                    assert(ps[w + 1] == p);
                },
                Option::None => {},
            }
        }
    }
}

/// A strictly increasing chain grows at least as fast as the index gap.
proof fn lemma_ids_chain(ids: Seq<i64>, i: int, j: int)
    requires
        forall|t: int| 0 <= t < ids.len() - 1 ==> (#[trigger] ids[t]) < ids[t + 1],
        0 <= i <= j < ids.len(),
    ensures
        ids[i] + (j - i) <= ids[j],
    decreases j - i,
{
    if i < j {
        lemma_ids_chain(ids, i, j - 1);
    }
}

/// An acceptable identifier column is pairwise increasing, bounded below
/// by the row position, and bounded above by its next identifier.
proof fn lemma_ids_ok_props(ids: Seq<i64>)
    requires
        ids_ok(ids),
    ensures
        forall|i: int, j: int| 0 <= i < j < ids.len() ==> (#[trigger] ids[i]) < (#[trigger] ids[j]),
        forall|i: int| 0 <= i < ids.len() ==> 1 <= (#[trigger] ids[i]) < next_of(ids),
        ids.len() + 1 <= next_of(ids),
        1 <= next_of(ids) <= i64::MAX as int,
{
    assert forall|i: int, j: int| 0 <= i < j < ids.len() implies (#[trigger] ids[i]) < (
    #[trigger] ids[j]) by {
        lemma_ids_chain(ids, i, j);
    }
    assert forall|i: int| 0 <= i < ids.len() implies 1 <= (#[trigger] ids[i]) < next_of(ids) by {
        lemma_ids_chain(ids, 0, i);
        lemma_ids_chain(ids, i, ids.len() - 1);
    }
    if ids.len() > 0 {
        lemma_ids_chain(ids, 0, ids.len() - 1);
    }
}

/// Acceptable rows with the derived next identifiers form a well-formed
/// state.
#[verifier::rlimit(50)]
proof fn lemma_rows_valid_state_wf(s: State)
    requires
        rows_valid(s.blocks, s.graves, s.heirs, s.payments, s.settings),
        s.next_block_id == next_of(block_ids(s.blocks)),
        s.next_grave_id == next_of(grave_ids(s.graves)),
        s.next_heir_id == next_of(heir_ids(s.heirs)),
        s.next_payment_id == next_of(payment_ids(s.payments)),
    ensures
        state_wf(s),
{
    lemma_ids_ok_props(block_ids(s.blocks));
    lemma_ids_ok_props(grave_ids(s.graves));
    lemma_ids_ok_props(heir_ids(s.heirs));
    lemma_ids_ok_props(payment_ids(s.payments));
    assert forall|i: int|
        0 <= i < s.blocks.len() implies 1 <= (#[trigger] s.blocks[i]).id < s.next_block_id by {
        assert(block_ids(s.blocks)[i] == s.blocks[i].id);
    }
    assert forall|i: int|
        0 <= i < s.graves.len() implies 1 <= (#[trigger] s.graves[i]).id < s.next_grave_id by {
        assert(grave_ids(s.graves)[i] == s.graves[i].id);
    }
    assert forall|i: int|
        0 <= i < s.heirs.len() implies 1 <= (#[trigger] s.heirs[i]).id < s.next_heir_id by {
        assert(heir_ids(s.heirs)[i] == s.heirs[i].id);
    }
    assert forall|i: int|
        0 <= i < s.payments.len() implies 1 <= (#[trigger] s.payments[i]).id
        < s.next_payment_id by {
        assert(payment_ids(s.payments)[i] == s.payments[i].id);
    }
    assert forall|i: int, j: int|
        0 <= i < j < s.blocks.len() implies (#[trigger] s.blocks[i]).id < (
    #[trigger] s.blocks[j]).id by {
        assert(block_ids(s.blocks)[i] == s.blocks[i].id);
        assert(block_ids(s.blocks)[j] == s.blocks[j].id);
    }
    assert forall|i: int, j: int|
        0 <= i < j < s.graves.len() implies (#[trigger] s.graves[i]).id < (
    #[trigger] s.graves[j]).id by {
        assert(grave_ids(s.graves)[i] == s.graves[i].id);
        assert(grave_ids(s.graves)[j] == s.graves[j].id);
    }
    assert forall|i: int, j: int|
        0 <= i < j < s.heirs.len() implies (#[trigger] s.heirs[i]).id < (#[trigger] s.heirs[j]).id
        by {
        assert(heir_ids(s.heirs)[i] == s.heirs[i].id);
        assert(heir_ids(s.heirs)[j] == s.heirs[j].id);
    }
    assert forall|i: int, j: int|
        0 <= i < j < s.payments.len() implies (#[trigger] s.payments[i]).id < (
    #[trigger] s.payments[j]).id by {
        assert(payment_ids(s.payments)[i] == s.payments[i].id);
        assert(payment_ids(s.payments)[j] == s.payments[j].id);
    }
    assert(block_ids(s.blocks).len() == s.blocks.len());
    assert(grave_ids(s.graves).len() == s.graves.len());
    assert(heir_ids(s.heirs).len() == s.heirs.len());
    assert(payment_ids(s.payments).len() == s.payments.len());
}

fn blocks_contains_id(v: &Vec<Block>, id: i64) -> (r: bool)
    ensures
        r == block_id_taken(v@, id),
{
    let n = v.len();
    let mut i: usize = 0;
    while i < n
        invariant
            n == v.len(),
            i <= n,
            forall|k: int| 0 <= k < i ==> (#[trigger] v@[k]).id != id,
        decreases n - i,
    {
        if v[i].id == id {
            return true;
        }
        i = i + 1;
    }
    false
}

fn graves_contains_id(v: &Vec<Grave>, id: i64) -> (r: bool)
    ensures
        r == grave_id_taken(v@, id),
{
    let n = v.len();
    let mut i: usize = 0;
    while i < n
        invariant
            n == v.len(),
            i <= n,
            forall|k: int| 0 <= k < i ==> (#[trigger] v@[k]).id != id,
        decreases n - i,
    {
        if v[i].id == id {
            return true;
        }
        i = i + 1;
    }
    false
}

/// Filtering a block table preserves its integrity properties.
proof fn lemma_filter_blocks_wf(s: Seq<Block>, pred: spec_fn(Block) -> bool, hi: int)
    requires
        forall|i: int| 0 <= i < s.len() ==> 1 <= (#[trigger] s[i]).id < hi,
        forall|i: int, j: int| 0 <= i < j < s.len() ==> (#[trigger] s[i]).id < (#[trigger] s[j]).id,
        forall|i: int, j: int|
            0 <= i < j < s.len() ==> (#[trigger] s[i]).code@ != (#[trigger] s[j]).code@,
        forall|i: int| 0 <= i < s.len() ==> (#[trigger] s[i]).total_capacity >= 0,
    ensures
        s.filter(pred).len() <= s.len(),
        forall|i: int| 0 <= i < s.filter(pred).len() ==> 1 <= (#[trigger] s.filter(pred)[i]).id
            < hi,
        forall|i: int, j: int|
            0 <= i < j < s.filter(pred).len() ==> (#[trigger] s.filter(pred)[i]).id
                < (#[trigger] s.filter(pred)[j]).id,
        forall|i: int, j: int|
            0 <= i < j < s.filter(pred).len() ==> (#[trigger] s.filter(pred)[i]).code@
                != (#[trigger] s.filter(pred)[j]).code@,
        forall|i: int| 0 <= i < s.filter(pred).len() ==> (#[trigger] s.filter(
            pred,
        )[i]).total_capacity >= 0,
{
    lemma_filter_pairwise(s, pred, |a: Block, b: Block| a.id < b.id);
    lemma_filter_pairwise(s, pred, |a: Block, b: Block| a.code@ != b.code@);
    let f = s.filter(pred);
    assert forall|i: int| 0 <= i < f.len() implies 1 <= (#[trigger] f[i]).id < hi && f[
        i
    ].total_capacity >= 0 by {
        assert(s.contains(f[i]));
        let w = choose|w: int| 0 <= w < s.len() && s[w] == f[i];
        assert(1 <= s[w].id < hi);
    }
}

/// Filtering a grave table preserves its integrity properties.
proof fn lemma_filter_graves_wf(s: Seq<Grave>, pred: spec_fn(Grave) -> bool, hi: int)
    requires
        forall|i: int| 0 <= i < s.len() ==> 1 <= (#[trigger] s[i]).id < hi,
        forall|i: int, j: int| 0 <= i < j < s.len() ==> (#[trigger] s[i]).id < (#[trigger] s[j]).id,
    ensures
        s.filter(pred).len() <= s.len(),
        forall|i: int| 0 <= i < s.filter(pred).len() ==> 1 <= (#[trigger] s.filter(pred)[i]).id
            < hi,
        forall|i: int, j: int|
            0 <= i < j < s.filter(pred).len() ==> (#[trigger] s.filter(pred)[i]).id
                < (#[trigger] s.filter(pred)[j]).id,
{
    lemma_filter_pairwise(s, pred, |a: Grave, b: Grave| a.id < b.id);
    let f = s.filter(pred);
    assert forall|i: int| 0 <= i < f.len() implies 1 <= (#[trigger] f[i]).id < hi by {
        assert(s.contains(f[i]));
        let w = choose|w: int| 0 <= w < s.len() && s[w] == f[i];
        assert(1 <= s[w].id < hi);
    }
}

/// Filtering an heir table preserves its integrity properties.
proof fn lemma_filter_heirs_wf(s: Seq<Heir>, pred: spec_fn(Heir) -> bool, hi: int)
    requires
        forall|i: int| 0 <= i < s.len() ==> 1 <= (#[trigger] s[i]).id < hi,
        forall|i: int, j: int| 0 <= i < j < s.len() ==> (#[trigger] s[i]).id < (#[trigger] s[j]).id,
    ensures
        s.filter(pred).len() <= s.len(),
        forall|i: int| 0 <= i < s.filter(pred).len() ==> 1 <= (#[trigger] s.filter(pred)[i]).id
            < hi,
        forall|i: int, j: int|
            0 <= i < j < s.filter(pred).len() ==> (#[trigger] s.filter(pred)[i]).id
                < (#[trigger] s.filter(pred)[j]).id,
{
    lemma_filter_pairwise(s, pred, |a: Heir, b: Heir| a.id < b.id);
    let f = s.filter(pred);
    assert forall|i: int| 0 <= i < f.len() implies 1 <= (#[trigger] f[i]).id < hi by {
        assert(s.contains(f[i]));
        let w = choose|w: int| 0 <= w < s.len() && s[w] == f[i];
        assert(1 <= s[w].id < hi);
    }
}

/// Filtering a payment table preserves its integrity properties.
proof fn lemma_filter_payments_wf(s: Seq<Payment>, pred: spec_fn(Payment) -> bool, hi: int)
    requires
        forall|i: int| 0 <= i < s.len() ==> 1 <= (#[trigger] s[i]).id < hi,
        forall|i: int, j: int| 0 <= i < j < s.len() ==> (#[trigger] s[i]).id < (#[trigger] s[j]).id,
    ensures
        s.filter(pred).len() <= s.len(),
        forall|i: int| 0 <= i < s.filter(pred).len() ==> 1 <= (#[trigger] s.filter(pred)[i]).id
            < hi,
        forall|i: int, j: int|
            0 <= i < j < s.filter(pred).len() ==> (#[trigger] s.filter(pred)[i]).id
                < (#[trigger] s.filter(pred)[j]).id,
{
    lemma_filter_pairwise(s, pred, |a: Payment, b: Payment| a.id < b.id);
    let f = s.filter(pred);
    assert forall|i: int| 0 <= i < f.len() implies 1 <= (#[trigger] f[i]).id < hi by {
        assert(s.contains(f[i]));
        let w = choose|w: int| 0 <= w < s.len() && s[w] == f[i];
        assert(1 <= s[w].id < hi);
    }
}

} // verus!

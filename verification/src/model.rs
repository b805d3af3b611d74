//! The mathematical model of the store: a ghost state holding the five
//! tables as sequences, its integrity rules, and the meaning of every
//! operation as a relation or function over that state.
//!
//! Rows appear in each table sequence in creation order, and identifiers
//! are assigned from a per-table counter, so a row's position reflects its
//! age: "newest first" is the reverse of the sequence.

use vstd::prelude::*;
use vstd::relations::sorted_by;

use crate::text::{is_substring, lex_le};
use crate::types::{
    Block, CreateBlockRequest, CreateGraveRequest, CreateHeirRequest, CreatePaymentRequest, Grave,
    GraveExportData, GravePaymentSummary, GraveWithBlock, Heir, Payment, Settings,
    UpdateBlockRequest, UpdateGraveRequest, UpdateHeirRequest, UpdateSettingsRequest,
    YearPaymentStatus,
};

verus! {

/// The abstract content of the store.
pub ghost struct State {
    pub blocks: Seq<Block>,
    pub graves: Seq<Grave>,
    pub heirs: Seq<Heir>,
    pub payments: Seq<Payment>,
    pub settings: Option<Settings>,
    pub next_block_id: int,
    pub next_grave_id: int,
    pub next_heir_id: int,
    pub next_payment_id: int,
}

pub open spec fn block_id_taken(blocks: Seq<Block>, id: i64) -> bool {
    exists|i: int| 0 <= i < blocks.len() && (#[trigger] blocks[i]).id == id
}

pub open spec fn grave_id_taken(graves: Seq<Grave>, id: i64) -> bool {
    exists|i: int| 0 <= i < graves.len() && (#[trigger] graves[i]).id == id
}

pub open spec fn heir_id_taken(heirs: Seq<Heir>, id: i64) -> bool {
    exists|i: int| 0 <= i < heirs.len() && (#[trigger] heirs[i]).id == id
}

pub open spec fn block_code_taken(blocks: Seq<Block>, code: Seq<char>) -> bool {
    exists|i: int| 0 <= i < blocks.len() && (#[trigger] blocks[i]).code@ == code
}

/// Some other block than the one with identifier `id` already uses `code`.
pub open spec fn block_code_taken_by_other(blocks: Seq<Block>, code: Seq<char>, id: i64) -> bool {
    exists|i: int|
        0 <= i < blocks.len() && (#[trigger] blocks[i]).id != id && blocks[i].code@ == code
}

/// The integrity rules every reachable store state satisfies.
pub open spec fn state_wf(s: State) -> bool {
    &&& 1 <= s.next_block_id <= i64::MAX as int
    &&& 1 <= s.next_grave_id <= i64::MAX as int
    &&& 1 <= s.next_heir_id <= i64::MAX as int
    &&& 1 <= s.next_payment_id <= i64::MAX as int
    &&& s.blocks.len() + 1 <= s.next_block_id
    &&& s.graves.len() + 1 <= s.next_grave_id
    &&& s.heirs.len() + 1 <= s.next_heir_id
    &&& s.payments.len() + 1 <= s.next_payment_id
    &&& forall|i: int| 0 <= i < s.blocks.len() ==> 1 <= (#[trigger] s.blocks[i]).id
        < s.next_block_id
    &&& forall|i: int| 0 <= i < s.graves.len() ==> 1 <= (#[trigger] s.graves[i]).id
        < s.next_grave_id
    &&& forall|i: int| 0 <= i < s.heirs.len() ==> 1 <= (#[trigger] s.heirs[i]).id < s.next_heir_id
    &&& forall|i: int| 0 <= i < s.payments.len() ==> 1 <= (#[trigger] s.payments[i]).id
        < s.next_payment_id
    &&& forall|i: int, j: int|
        0 <= i < j < s.blocks.len() ==> (#[trigger] s.blocks[i]).id < (#[trigger] s.blocks[j]).id
    &&& forall|i: int, j: int|
        0 <= i < j < s.graves.len() ==> (#[trigger] s.graves[i]).id < (#[trigger] s.graves[j]).id
    &&& forall|i: int, j: int|
        0 <= i < j < s.heirs.len() ==> (#[trigger] s.heirs[i]).id < (#[trigger] s.heirs[j]).id
    &&& forall|i: int, j: int|
        0 <= i < j < s.payments.len() ==> (#[trigger] s.payments[i]).id
            < (#[trigger] s.payments[j]).id
    &&& forall|i: int, j: int|
        0 <= i < j < s.blocks.len() ==> (#[trigger] s.blocks[i]).code@
            != (#[trigger] s.blocks[j]).code@
    &&& forall|i: int| 0 <= i < s.blocks.len() ==> (#[trigger] s.blocks[i]).total_capacity >= 0
    &&& forall|i: int|
        0 <= i < s.graves.len() ==> block_id_taken(s.blocks, (#[trigger] s.graves[i]).block_id)
    &&& forall|i: int|
        0 <= i < s.heirs.len() ==> grave_id_taken(s.graves, (#[trigger] s.heirs[i]).grave_id)
    &&& forall|i: int|
        0 <= i < s.payments.len() ==> grave_id_taken(s.graves, (#[trigger] s.payments[i]).grave_id)
    &&& (match s.settings {
        Option::Some(t) => t.id == 1,
        Option::None => true,
    })
}

/// First block with the given identifier, scanning in storage order.
pub open spec fn find_block(blocks: Seq<Block>, id: i64) -> Option<Block>
    decreases blocks.len(),
{
    if blocks.len() == 0 {
        Option::None
    } else if blocks[0].id == id {
        Option::Some(blocks[0])
    } else {
        find_block(blocks.skip(1), id)
    }
}

/// First grave with the given identifier, scanning in storage order.
pub open spec fn find_grave(graves: Seq<Grave>, id: i64) -> Option<Grave>
    decreases graves.len(),
{
    if graves.len() == 0 {
        Option::None
    } else if graves[0].id == id {
        Option::Some(graves[0])
    } else {
        find_grave(graves.skip(1), id)
    }
}

/// First heir with the given identifier, scanning in storage order.
pub open spec fn find_heir(heirs: Seq<Heir>, id: i64) -> Option<Heir>
    decreases heirs.len(),
{
    if heirs.len() == 0 {
        Option::None
    } else if heirs[0].id == id {
        Option::Some(heirs[0])
    } else {
        find_heir(heirs.skip(1), id)
    }
}

/// First payment for the grave and year, scanning in storage order.
pub open spec fn find_payment_for_year(ps: Seq<Payment>, grave_id: i64, year: i32) -> Option<
    Payment,
>
    decreases ps.len(),
{
    if ps.len() == 0 {
        Option::None
    } else if ps[0].grave_id == grave_id && ps[0].year == year {
        Option::Some(ps[0])
    } else {
        find_payment_for_year(ps.skip(1), grave_id, year)
    }
}

/// The ghost form of an optional search text.
pub open spec fn search_view(o: Option<String>) -> Option<Seq<char>> {
    match o {
        Option::Some(s) => Option::Some(s@),
        Option::None => Option::None,
    }
}

/// Whether a grave satisfies the search-text and block filters.
pub open spec fn grave_matches(g: Grave, search: Option<Seq<char>>, block_id: Option<i64>) -> bool {
    (match search {
        Option::None => true,
        Option::Some(q) => is_substring(q, g.deceased_name@) || is_substring(q, g.number@),
    }) && (match block_id {
        Option::None => true,
        Option::Some(b) => g.block_id == b,
    })
}

/// The filtered grave listing, newest first.
pub open spec fn filtered_graves(s: State, search: Option<Seq<char>>, block_id: Option<i64>) -> Seq<
    Grave,
> {
    s.graves.reverse().filter(grave_filter_pred(search, block_id))
}

/// A grave joined with the code and fee of its block. Well-formed states
/// guarantee the block exists; the fallback arm is never reached there.
pub open spec fn join_grave(s: State, g: Grave) -> GraveWithBlock {
    let b = match find_block(s.blocks, g.block_id) {
        Option::Some(b) => b,
        Option::None => Block {
            id: 0,
            code: g.deceased_name,
            description: Option::None,
            total_capacity: 0,
            annual_fee: 0,
            status: g.deceased_name,
            created_at: g.created_at,
            updated_at: g.updated_at,
        },
    };
    GraveWithBlock {
        id: g.id,
        deceased_name: g.deceased_name,
        block_id: g.block_id,
        number: g.number,
        date_of_death: g.date_of_death,
        burial_date: g.burial_date,
        notes: g.notes,
        created_at: g.created_at,
        updated_at: g.updated_at,
        code: b.code,
        annual_fee: b.annual_fee,
    }
}

/// The joined, filtered listing, newest first.
pub open spec fn listed_graves(s: State, search: Option<Seq<char>>, block_id: Option<i64>) -> Seq<
    GraveWithBlock,
> {
    filtered_graves(s, search, block_id).map_values(|g: Grave| join_grave(s, g))
}

/// One page of a listing: a negative offset counts as zero, and a negative
/// limit means "no limit", as the underlying store treats them.
pub open spec fn page<T>(q: Seq<T>, limit: i64, offset: i64) -> Seq<T> {
    let off: int = if offset < 0 {
        0
    } else {
        offset as int
    };
    if off >= q.len() {
        Seq::empty()
    } else {
        let end: int = if limit < 0 || off + limit > q.len() {
            q.len() as int
        } else {
            off + limit
        };
        q.subrange(off, end)
    }
}

/// Number of graves referencing a block.
pub open spec fn grave_count(s: State, block_id: i64) -> int {
    s.graves.filter(grave_in_block(block_id)).len() as int
}

/// Heirs of one grave, in storage order.
pub open spec fn heirs_of(s: State, grave_id: i64) -> Seq<Heir> {
    s.heirs.filter(heir_of_grave(grave_id))
}

/// Payments of one grave, in storage order.
pub open spec fn payments_of(s: State, grave_id: i64) -> Seq<Payment> {
    s.payments.filter(payment_of_grave(grave_id))
}

/// Order used when listing heirs: ascending `order_number`.
pub open spec fn heir_leq() -> spec_fn(Heir, Heir) -> bool {
    |a: Heir, b: Heir| a.order_number <= b.order_number
}

/// Order used when listing payments: descending `year`.
pub open spec fn payment_year_geq() -> spec_fn(Payment, Payment) -> bool {
    |a: Payment, b: Payment| a.year >= b.year
}

/// Order used when listing blocks: ascending `code`.
pub open spec fn block_code_leq() -> spec_fn(Block, Block) -> bool {
    |a: Block, b: Block| lex_le(a.code@, b.code@)
}

// ---------------------------------------------------------------------------
// Named filter predicates, shared by the transitions and the proofs about
// the loops that realize them.
// ---------------------------------------------------------------------------

pub open spec fn block_id_is_not(id: i64) -> spec_fn(Block) -> bool {
    |b: Block| b.id != id
}

pub open spec fn grave_id_is_not(id: i64) -> spec_fn(Grave) -> bool {
    |g: Grave| g.id != id
}

pub open spec fn heir_id_is_not(id: i64) -> spec_fn(Heir) -> bool {
    |h: Heir| h.id != id
}

pub open spec fn payment_id_is_not(id: i64) -> spec_fn(Payment) -> bool {
    |p: Payment| p.id != id
}

pub open spec fn heir_not_of_grave(grave_id: i64) -> spec_fn(Heir) -> bool {
    |h: Heir| h.grave_id != grave_id
}

pub open spec fn payment_not_of_grave(grave_id: i64) -> spec_fn(Payment) -> bool {
    |p: Payment| p.grave_id != grave_id
}

pub open spec fn heir_of_grave(grave_id: i64) -> spec_fn(Heir) -> bool {
    |h: Heir| h.grave_id == grave_id
}

pub open spec fn payment_of_grave(grave_id: i64) -> spec_fn(Payment) -> bool {
    |p: Payment| p.grave_id == grave_id
}

pub open spec fn grave_in_block(block_id: i64) -> spec_fn(Grave) -> bool {
    |g: Grave| g.block_id == block_id
}

pub open spec fn grave_filter_pred(search: Option<Seq<char>>, block_id: Option<i64>) -> spec_fn(
    Grave,
) -> bool {
    |g: Grave| grave_matches(g, search, block_id)
}

// ---------------------------------------------------------------------------
// Coalesce updates: an unset request field keeps the stored value.
// ---------------------------------------------------------------------------

pub open spec fn opt_coalesce<T>(stored: T, requested: Option<T>) -> T {
    match requested {
        Option::Some(v) => v,
        Option::None => stored,
    }
}

pub open spec fn opt_text_coalesce(stored: Option<String>, requested: Option<String>) -> Option<
    String,
> {
    match requested {
        Option::Some(v) => Option::Some(v),
        Option::None => stored,
    }
}

pub open spec fn block_coalesce(b: Block, r: UpdateBlockRequest) -> Block {
    Block {
        id: b.id,
        code: opt_coalesce(b.code, r.code),
        description: opt_text_coalesce(b.description, r.description),
        total_capacity: opt_coalesce(b.total_capacity, r.total_capacity),
        annual_fee: opt_coalesce(b.annual_fee, r.annual_fee),
        status: opt_coalesce(b.status, r.status),
        created_at: b.created_at,
        updated_at: b.updated_at,
    }
}

pub open spec fn grave_coalesce(g: Grave, r: UpdateGraveRequest) -> Grave {
    Grave {
        id: g.id,
        deceased_name: opt_coalesce(g.deceased_name, r.deceased_name),
        block_id: opt_coalesce(g.block_id, r.block_id),
        number: opt_coalesce(g.number, r.number),
        date_of_death: opt_coalesce(g.date_of_death, r.date_of_death),
        burial_date: opt_text_coalesce(g.burial_date, r.burial_date),
        notes: opt_text_coalesce(g.notes, r.notes),
        created_at: g.created_at,
        updated_at: g.updated_at,
    }
}

pub open spec fn heir_coalesce(h: Heir, r: UpdateHeirRequest) -> Heir {
    Heir {
        id: h.id,
        grave_id: h.grave_id,
        order_number: h.order_number,
        full_name: opt_coalesce(h.full_name, r.full_name),
        phone_number: opt_text_coalesce(h.phone_number, r.phone_number),
        relationship: opt_text_coalesce(h.relationship, r.relationship),
        address: opt_text_coalesce(h.address, r.address),
        is_primary: opt_coalesce(h.is_primary, r.is_primary),
        created_at: h.created_at,
        updated_at: h.updated_at,
    }
}

pub open spec fn settings_coalesce(t: Settings, r: UpdateSettingsRequest) -> Settings {
    Settings {
        id: t.id,
        foundation_name: opt_coalesce(t.foundation_name, r.foundation_name),
        address: opt_text_coalesce(t.address, r.address),
        phone: opt_text_coalesce(t.phone, r.phone),
        email: opt_text_coalesce(t.email, r.email),
        logo_path: opt_text_coalesce(t.logo_path, r.logo_path),
        active_year: opt_coalesce(t.active_year, r.active_year),
        last_backup: t.last_backup,
        auto_backup: opt_coalesce(t.auto_backup, r.auto_backup),
        created_at: t.created_at,
        updated_at: t.updated_at,
    }
}

// ---------------------------------------------------------------------------
// Created rows: how a stored row relates to its create request. Optional
// text fields default to the empty string; a payment's method defaults to
// the cash designation.
// ---------------------------------------------------------------------------

/// The stored form of an optional text field: the requested value, or the
/// empty string when the request left it unset.
pub open spec fn stored_text(stored: Option<String>, requested: Option<String>) -> bool {
    match requested {
        Option::Some(v) => stored == Option::Some(v),
        Option::None => match stored {
            Option::Some(e) => e@ == Seq::<char>::empty(),
            Option::None => false,
        },
    }
}

/// The stored form of a payment method: the requested value, or `"cash"`.
pub open spec fn stored_method(stored: Option<String>, requested: Option<String>) -> bool {
    match requested {
        Option::Some(v) => stored == Option::Some(v),
        Option::None => match stored {
            Option::Some(e) => e@ == "cash"@,
            Option::None => false,
        },
    }
}

pub open spec fn block_created_from(
    b: Block,
    req: CreateBlockRequest,
    id: int,
    now: Seq<char>,
) -> bool {
    &&& b.id as int == id
    &&& b.code == req.code
    &&& stored_text(b.description, req.description)
    &&& b.total_capacity == req.total_capacity
    &&& b.annual_fee == req.annual_fee
    &&& b.status == req.status
    &&& b.created_at@ == now
    &&& b.updated_at@ == now
}

pub open spec fn grave_created_from(
    g: Grave,
    req: CreateGraveRequest,
    id: int,
    now: Seq<char>,
) -> bool {
    &&& g.id as int == id
    &&& g.deceased_name == req.deceased_name
    &&& g.block_id == req.block_id
    &&& g.number == req.number
    &&& g.date_of_death == req.date_of_death
    &&& stored_text(g.burial_date, req.burial_date)
    &&& stored_text(g.notes, req.notes)
    &&& g.created_at@ == now
    &&& g.updated_at@ == now
}

/// `grave_id` is passed separately: composite creation overrides it with
/// the identifier of the grave created in the same operation.
pub open spec fn heir_created_from(
    h: Heir,
    req: CreateHeirRequest,
    grave_id: i64,
    id: int,
    now: Seq<char>,
) -> bool {
    &&& h.id as int == id
    &&& h.grave_id == grave_id
    &&& h.order_number == req.order_number
    &&& h.full_name == req.full_name
    &&& stored_text(h.phone_number, req.phone_number)
    &&& stored_text(h.relationship, req.relationship)
    &&& stored_text(h.address, req.address)
    &&& h.is_primary == req.is_primary
    &&& h.created_at@ == now
    &&& h.updated_at@ == now
}

pub open spec fn payment_created_from(
    p: Payment,
    req: CreatePaymentRequest,
    id: int,
    now: Seq<char>,
) -> bool {
    &&& p.id as int == id
    &&& p.grave_id == req.grave_id
    &&& p.year == req.year
    &&& p.payment_date == req.payment_date
    &&& p.amount == req.amount
    &&& stored_method(p.payment_method, req.payment_method)
    &&& stored_text(p.payment_proof, req.payment_proof)
    &&& stored_text(p.paid_by, req.paid_by)
    &&& stored_text(p.notes, req.notes)
    &&& p.created_at@ == now
    &&& p.updated_at@ == now
}

/// A run of heirs created in list order from the given requests, with a
/// forced grave identifier and consecutive row identifiers from `first_id`.
pub open spec fn heirs_created_from(
    tail: Seq<Heir>,
    reqs: Seq<CreateHeirRequest>,
    grave_id: i64,
    first_id: int,
    now: Seq<char>,
) -> bool {
    &&& tail.len() == reqs.len()
    &&& forall|k: int|
        0 <= k < reqs.len() ==> heir_created_from(
            #[trigger] tail[k],
            reqs[k],
            grave_id,
            first_id + k,
            now,
        )
}

// ---------------------------------------------------------------------------
// Success conditions of the mutating operations.
// ---------------------------------------------------------------------------

pub open spec fn can_create_block(s: State, req: CreateBlockRequest) -> bool {
    &&& s.next_block_id < i64::MAX as int
    &&& req.total_capacity >= 0
    &&& !block_code_taken(s.blocks, req.code@)
}

pub open spec fn can_update_block(s: State, id: i64, req: UpdateBlockRequest) -> bool {
    &&& (match req.code {
        Option::Some(c) => !block_code_taken_by_other(s.blocks, c@, id),
        Option::None => true,
    })
    &&& (match req.total_capacity {
        Option::Some(t) => t >= 0,
        Option::None => true,
    })
}

pub open spec fn can_create_grave(s: State, req: CreateGraveRequest) -> bool {
    &&& s.next_grave_id < i64::MAX as int
    &&& block_id_taken(s.blocks, req.block_id)
}

pub open spec fn can_update_grave(s: State, req: UpdateGraveRequest) -> bool {
    match req.block_id {
        Option::Some(b) => block_id_taken(s.blocks, b),
        Option::None => true,
    }
}

pub open spec fn can_create_heir(s: State, grave_id: i64) -> bool {
    &&& s.next_heir_id < i64::MAX as int
    &&& grave_id_taken(s.graves, grave_id)
}

/// A grave and its initial heirs can be created together when the grave
/// can be created and the heir identifier space has room for the list.
pub open spec fn can_create_grave_with_heirs(
    s: State,
    grave_req: CreateGraveRequest,
    n_heirs: int,
) -> bool {
    &&& can_create_grave(s, grave_req)
    &&& s.next_heir_id + n_heirs <= i64::MAX as int
}

/// The heir identifier space has room for a replacement list.
pub open spec fn can_replace_heirs(s: State, n_heirs: int) -> bool {
    s.next_heir_id + n_heirs <= i64::MAX as int
}

pub open spec fn can_create_payment(s: State, req: CreatePaymentRequest) -> bool {
    &&& s.next_payment_id < i64::MAX as int
    &&& grave_id_taken(s.graves, req.grave_id)
}

// ---------------------------------------------------------------------------
// State transitions.
// ---------------------------------------------------------------------------

/// After a block create: the new row appended, the counter advanced,
/// everything else untouched.
pub open spec fn block_create_rel(
    s0: State,
    s1: State,
    req: CreateBlockRequest,
    now: Seq<char>,
) -> bool {
    &&& s1.blocks.len() == s0.blocks.len() + 1
    &&& s1.blocks.drop_last() == s0.blocks
    &&& block_created_from(s1.blocks.last(), req, s0.next_block_id, now)
    &&& s1.next_block_id == s0.next_block_id + 1
    &&& same_graves(s0, s1)
    &&& same_heirs(s0, s1)
    &&& same_payments(s0, s1)
    &&& s1.settings == s0.settings
}

pub open spec fn grave_create_rel(
    s0: State,
    s1: State,
    req: CreateGraveRequest,
    now: Seq<char>,
) -> bool {
    &&& s1.graves.len() == s0.graves.len() + 1
    &&& s1.graves.drop_last() == s0.graves
    &&& grave_created_from(s1.graves.last(), req, s0.next_grave_id, now)
    &&& s1.next_grave_id == s0.next_grave_id + 1
    &&& same_blocks(s0, s1)
    &&& same_heirs(s0, s1)
    &&& same_payments(s0, s1)
    &&& s1.settings == s0.settings
}

pub open spec fn heir_create_rel(
    s0: State,
    s1: State,
    req: CreateHeirRequest,
    grave_id: i64,
    now: Seq<char>,
) -> bool {
    &&& s1.heirs.len() == s0.heirs.len() + 1
    &&& s1.heirs.drop_last() == s0.heirs
    &&& heir_created_from(s1.heirs.last(), req, grave_id, s0.next_heir_id, now)
    &&& s1.next_heir_id == s0.next_heir_id + 1
    &&& same_blocks(s0, s1)
    &&& same_graves(s0, s1)
    &&& same_payments(s0, s1)
    &&& s1.settings == s0.settings
}

pub open spec fn payment_create_rel(
    s0: State,
    s1: State,
    req: CreatePaymentRequest,
    now: Seq<char>,
) -> bool {
    &&& s1.payments.len() == s0.payments.len() + 1
    &&& s1.payments.drop_last() == s0.payments
    &&& payment_created_from(s1.payments.last(), req, s0.next_payment_id, now)
    &&& s1.next_payment_id == s0.next_payment_id + 1
    &&& same_blocks(s0, s1)
    &&& same_graves(s0, s1)
    &&& same_heirs(s0, s1)
    &&& s1.settings == s0.settings
}

/// After a composite create: the grave appended, then its heirs appended
/// in list order with the grave identifier forced to the new grave's.
pub open spec fn grave_with_heirs_rel(
    s0: State,
    s1: State,
    grave_req: CreateGraveRequest,
    heir_reqs: Seq<CreateHeirRequest>,
    now: Seq<char>,
) -> bool {
    &&& s1.graves.len() == s0.graves.len() + 1
    &&& s1.graves.drop_last() == s0.graves
    &&& grave_created_from(s1.graves.last(), grave_req, s0.next_grave_id, now)
    &&& s1.next_grave_id == s0.next_grave_id + 1
    &&& s1.heirs.len() == s0.heirs.len() + heir_reqs.len()
    &&& s1.heirs.subrange(0, s0.heirs.len() as int) == s0.heirs
    &&& heirs_created_from(
        s1.heirs.skip(s0.heirs.len() as int),
        heir_reqs,
        s1.graves.last().id,
        s0.next_heir_id,
        now,
    )
    &&& s1.next_heir_id == s0.next_heir_id + heir_reqs.len()
    &&& same_blocks(s0, s1)
    &&& same_payments(s0, s1)
    &&& s1.settings == s0.settings
}

/// After a bulk replacement: every heir of the grave removed, then the new
/// list appended in order.
pub open spec fn heirs_replaced_rel(
    s0: State,
    s1: State,
    grave_id: i64,
    reqs: Seq<CreateHeirRequest>,
    now: Seq<char>,
) -> bool {
    let kept = s0.heirs.filter(heir_not_of_grave(grave_id));
    &&& s1.heirs.len() == kept.len() + reqs.len()
    &&& s1.heirs.subrange(0, kept.len() as int) == kept
    &&& heirs_created_from(s1.heirs.skip(kept.len() as int), reqs, grave_id, s0.next_heir_id, now)
    &&& s1.next_heir_id == s0.next_heir_id + reqs.len()
    &&& same_blocks(s0, s1)
    &&& same_graves(s0, s1)
    &&& same_payments(s0, s1)
    &&& s1.settings == s0.settings
}

pub open spec fn same_blocks(s0: State, s1: State) -> bool {
    s1.blocks == s0.blocks && s1.next_block_id == s0.next_block_id
}

pub open spec fn same_graves(s0: State, s1: State) -> bool {
    s1.graves == s0.graves && s1.next_grave_id == s0.next_grave_id
}

pub open spec fn same_heirs(s0: State, s1: State) -> bool {
    s1.heirs == s0.heirs && s1.next_heir_id == s0.next_heir_id
}

pub open spec fn same_payments(s0: State, s1: State) -> bool {
    s1.payments == s0.payments && s1.next_payment_id == s0.next_payment_id
}

/// Index of the block with the given identifier; meaningful only when the
/// identifier is taken, and unique in a well-formed state.
pub open spec fn block_index(blocks: Seq<Block>, id: i64) -> int {
    choose|i: int| 0 <= i < blocks.len() && (#[trigger] blocks[i]).id == id
}

pub open spec fn grave_index(graves: Seq<Grave>, id: i64) -> int {
    choose|i: int| 0 <= i < graves.len() && (#[trigger] graves[i]).id == id
}

pub open spec fn heir_index(heirs: Seq<Heir>, id: i64) -> int {
    choose|i: int| 0 <= i < heirs.len() && (#[trigger] heirs[i]).id == id
}

pub open spec fn update_block_next(s: State, id: i64, req: UpdateBlockRequest) -> State {
    if block_id_taken(s.blocks, id) {
        let i = block_index(s.blocks, id);
        State { blocks: s.blocks.update(i, block_coalesce(s.blocks[i], req)), ..s }
    } else {
        s
    }
}

pub open spec fn update_grave_next(s: State, id: i64, req: UpdateGraveRequest) -> State {
    if grave_id_taken(s.graves, id) {
        let i = grave_index(s.graves, id);
        State { graves: s.graves.update(i, grave_coalesce(s.graves[i], req)), ..s }
    } else {
        s
    }
}

pub open spec fn update_heir_next(s: State, id: i64, req: UpdateHeirRequest) -> State {
    if heir_id_taken(s.heirs, id) {
        let i = heir_index(s.heirs, id);
        State { heirs: s.heirs.update(i, heir_coalesce(s.heirs[i], req)), ..s }
    } else {
        s
    }
}

pub open spec fn delete_block_next(s: State, id: i64) -> State {
    State { blocks: s.blocks.filter(block_id_is_not(id)), ..s }
}

/// Deleting a grave cascades to its heirs and payments.
pub open spec fn delete_grave_next(s: State, id: i64) -> State {
    State {
        graves: s.graves.filter(grave_id_is_not(id)),
        heirs: s.heirs.filter(heir_not_of_grave(id)),
        payments: s.payments.filter(payment_not_of_grave(id)),
        ..s
    }
}

pub open spec fn delete_heir_next(s: State, id: i64) -> State {
    State { heirs: s.heirs.filter(heir_id_is_not(id)), ..s }
}

pub open spec fn delete_heirs_of_grave_next(s: State, grave_id: i64) -> State {
    State { heirs: s.heirs.filter(heir_not_of_grave(grave_id)), ..s }
}

pub open spec fn delete_payment_next(s: State, id: i64) -> State {
    State { payments: s.payments.filter(payment_id_is_not(id)), ..s }
}

pub open spec fn update_settings_next(s: State, req: UpdateSettingsRequest) -> State {
    match s.settings {
        Option::Some(t) => State { settings: Option::Some(settings_coalesce(t, req)), ..s },
        Option::None => s,
    }
}

/// After marking a backup: only the settings row's `last_backup` changed.
pub open spec fn marked_backed_up(s0: State, s1: State, now: Seq<char>) -> bool {
    &&& same_blocks(s0, s1)
    &&& same_graves(s0, s1)
    &&& same_heirs(s0, s1)
    &&& same_payments(s0, s1)
    &&& (match (s0.settings, s1.settings) {
        (Option::None, Option::None) => true,
        (Option::Some(t0), Option::Some(t1)) => {
            &&& t1 == Settings { last_backup: t1.last_backup, ..t0 }
            &&& (match t1.last_backup {
                Option::Some(n) => n@ == now,
                Option::None => false,
            })
        },
        _ => false,
    })
}

/// One summary row describes one listed grave: its identifying fields, the
/// payment covering the target year if any, and the five-year window.
pub open spec fn summary_matches(
    sm: GravePaymentSummary,
    g: GraveWithBlock,
    ps: Seq<Payment>,
    year: i32,
) -> bool {
    &&& sm.grave_id == g.id
    &&& sm.deceased_name == g.deceased_name
    &&& sm.block_code == g.code
    &&& sm.number == g.number
    &&& sm.annual_fee == g.annual_fee
    &&& (sm.current_year_payment is Some <==> exists|j: int|
        0 <= j < ps.len() && (#[trigger] ps[j]).grave_id == g.id && ps[j].year == year)
    &&& (match sm.current_year_payment {
        Option::Some(p) => p.grave_id == g.id && p.year == year && ps.contains(p),
        Option::None => true,
    })
    &&& year_window_ok(sm.recent_payments@, ps, g.id, year)
}

/// One export row describes one listed grave: the joined grave, its heirs
/// in display order, and its full payment history, newest year first.
pub open spec fn export_entry_ok(e: GraveExportData, g: GraveWithBlock, s: State) -> bool {
    &&& e.grave == g
    &&& sorted_by(e.heirs@, heir_leq())
    &&& e.heirs@.to_multiset() == heirs_of(s, g.id).to_multiset()
    &&& sorted_by(e.payments@, payment_year_geq())
    &&& e.payments@.to_multiset() == payments_of(s, g.id).to_multiset()
}

/// Some payment occurs anywhere in an export data set.
pub open spec fn export_has_payment(gs: Seq<GraveExportData>) -> bool {
    exists|k: int| 0 <= k < gs.len() && (#[trigger] gs[k]).payments@.len() > 0
}

/// The year `y` occurs among the payments of an export data set.
pub open spec fn export_year_occurs(gs: Seq<GraveExportData>, y: i32) -> bool {
    exists|k: int, l: int|
        0 <= k < gs.len() && 0 <= l < gs[k].payments@.len() && (#[trigger] gs[k].payments@[l]).year
            == y
}

/// Every payment year of an export data set lies within `[lo, hi]`.
pub open spec fn export_years_within(gs: Seq<GraveExportData>, lo: i32, hi: i32) -> bool {
    forall|k: int, l: int|
        0 <= k < gs.len() && 0 <= l < gs[k].payments@.len() ==> lo
            <= (#[trigger] gs[k].payments@[l]).year <= hi
}

/// The identifier column of each table.
pub open spec fn block_ids(s: Seq<Block>) -> Seq<i64> {
    s.map_values(|b: Block| b.id)
}

pub open spec fn grave_ids(s: Seq<Grave>) -> Seq<i64> {
    s.map_values(|g: Grave| g.id)
}

pub open spec fn heir_ids(s: Seq<Heir>) -> Seq<i64> {
    s.map_values(|h: Heir| h.id)
}

pub open spec fn payment_ids(s: Seq<Payment>) -> Seq<i64> {
    s.map_values(|p: Payment| p.id)
}

/// An identifier column is acceptable when it starts at one or above,
/// strictly increases, and leaves room for a next identifier.
pub open spec fn ids_ok(ids: Seq<i64>) -> bool {
    &&& (ids.len() > 0 ==> ids[0] >= 1 && ids[ids.len() - 1] < i64::MAX)
    &&& forall|i: int| 0 <= i < ids.len() - 1 ==> (#[trigger] ids[i]) < ids[i + 1]
}

/// The next identifier a table resumes counting from.
pub open spec fn next_of(ids: Seq<i64>) -> int {
    if ids.len() == 0 {
        1
    } else {
        ids[ids.len() - 1] + 1
    }
}

/// Stored rows are acceptable when every identifier column is acceptable,
/// block codes are distinct, capacities are non-negative, every reference
/// points at an existing row, and the settings row, if present, is the
/// singleton with identifier 1.
pub open spec fn rows_valid(
    blocks: Seq<Block>,
    graves: Seq<Grave>,
    heirs: Seq<Heir>,
    payments: Seq<Payment>,
    settings: Option<Settings>,
) -> bool {
    &&& ids_ok(block_ids(blocks))
    &&& ids_ok(grave_ids(graves))
    &&& ids_ok(heir_ids(heirs))
    &&& ids_ok(payment_ids(payments))
    &&& forall|i: int, j: int|
        0 <= i < j < blocks.len() ==> (#[trigger] blocks[i]).code@ != (#[trigger] blocks[j]).code@
    &&& forall|i: int| 0 <= i < blocks.len() ==> (#[trigger] blocks[i]).total_capacity >= 0
    &&& forall|i: int|
        0 <= i < graves.len() ==> block_id_taken(blocks, (#[trigger] graves[i]).block_id)
    &&& forall|i: int| 0 <= i < heirs.len() ==> grave_id_taken(graves, (#[trigger] heirs[i]).grave_id)
    &&& forall|i: int|
        0 <= i < payments.len() ==> grave_id_taken(graves, (#[trigger] payments[i]).grave_id)
    &&& (match settings {
        Option::Some(t) => t.id == 1,
        Option::None => true,
    })
}

/// The five-entry window of year settlement states around a target year.
pub open spec fn year_window_ok(
    entries: Seq<YearPaymentStatus>,
    ps: Seq<Payment>,
    grave_id: i64,
    year: i32,
) -> bool {
    &&& entries.len() == 5
    &&& forall|k: int|
        0 <= k < 5 ==> {
            let e = #[trigger] entries[k];
            let y = year - 4 + k;
            &&& e.year as int == y
            &&& e.is_paid == exists|j: int|
                0 <= j < ps.len() && (#[trigger] ps[j]).grave_id == grave_id && ps[j].year as int
                    == y
            &&& (e.is_paid ==> exists|j: int|
                0 <= j < ps.len() && (#[trigger] ps[j]).grave_id == grave_id && ps[j].year as int
                    == y && e.amount == Option::Some(ps[j].amount))
            &&& (!e.is_paid ==> e.amount is None)
        }
}

} // verus!

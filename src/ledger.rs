//! The order ledger: every order ever admitted, its terms and its status.
use vstd::prelude::*;
use crate::error::{CaseError, Rejection};

verus! {

/// The ceiling on open unpaid orders under which new orders are admitted.
pub const MAX_UNPAID_ORDERS: u32 = 100;

/// An order as handed to the ledger, before it has an internal id.
#[derive(Debug, Clone)]
pub struct NewCase {
    pub public_id: String,
    pub quantity: u64,
    pub buyer_user_id: i32,
    pub seller_user_id: i32,
    pub listing_id: i32,
    pub case_details: String,
    pub amount_owed: u64,
    pub seller_credit: u64,
    pub invoice_hash: String,
    pub invoice_payment_request: String,
    pub created_time_ms: u64,
}

/// An order held by the ledger.
#[derive(Debug, Clone)]
pub struct Case {
    pub id: u64,
    pub public_id: String,
    pub quantity: u64,
    pub buyer_user_id: i32,
    pub seller_user_id: i32,
    pub listing_id: i32,
    pub case_details: String,
    pub amount_owed: u64,
    pub seller_credit: u64,
    pub invoice_hash: String,
    pub invoice_payment_request: String,
    pub created_time_ms: u64,
    pub payment_time_ms: u64,
    pub paid: bool,
    pub awarded: bool,
    pub canceled_by_seller: bool,
    pub canceled_by_buyer: bool,
}

/// The record that an admitted order becomes under internal id `id`.
pub open spec fn admitted(c: NewCase, id: u64) -> Case {
    Case {
        id,
        public_id: c.public_id,
        quantity: c.quantity,
        buyer_user_id: c.buyer_user_id,
        seller_user_id: c.seller_user_id,
        listing_id: c.listing_id,
        case_details: c.case_details,
        amount_owed: c.amount_owed,
        seller_credit: c.seller_credit,
        invoice_hash: c.invoice_hash,
        invoice_payment_request: c.invoice_payment_request,
        created_time_ms: c.created_time_ms,
        payment_time_ms: 0,
        paid: false,
        awarded: false,
        canceled_by_seller: false,
        canceled_by_buyer: false,
    }
}

/// Whether an order is canceled, by either side.
pub open spec fn is_canceled(c: Case) -> bool {
    c.canceled_by_buyer || c.canceled_by_seller
}

/// Whether an order still holds a live, unpaid invoice.
pub open spec fn is_open_unpaid(c: Case) -> bool {
    !c.paid && !is_canceled(c)
}

/// How many orders of `s` are open and unpaid.
pub open spec fn unpaid_count(s: Seq<Case>) -> nat
    decreases s.len(),
{
    if s.len() == 0 {
        0
    } else {
        unpaid_count(s.drop_last()) + if is_open_unpaid(s.last()) {
            1nat
        } else {
            0nat
        }
    }
}

/// Whether some order of `s` was issued the invoice `hash`.
pub open spec fn hash_taken(s: Seq<Case>, hash: Seq<char>) -> bool {
    exists|i: int| 0 <= i < s.len() && #[trigger] s[i].invoice_hash@ == hash
}

/// Whether some order of `s` has the public id `pid`.
pub open spec fn public_id_taken(s: Seq<Case>, pid: Seq<char>) -> bool {
    exists|i: int| 0 <= i < s.len() && #[trigger] s[i].public_id@ == pid
}

/// The invariants of the ledger's records: ids run from one in order, no
/// order is between a party and itself, only paid orders are awarded, and
/// invoice hashes and public ids are each unique.
pub open spec fn ledger_wf(s: Seq<Case>) -> bool {
    &&& forall|i: int| 0 <= i < s.len() ==> #[trigger] s[i].id == i + 1
    &&& forall|i: int| 0 <= i < s.len() ==> #[trigger] s[i].buyer_user_id != s[i].seller_user_id
    &&& forall|i: int| 0 <= i < s.len() ==> (#[trigger] s[i].awarded ==> s[i].paid)
    &&& forall|i: int, j: int|
        0 <= i < s.len() && 0 <= j < s.len() && i != j ==> #[trigger] s[i].invoice_hash@
            != #[trigger] s[j].invoice_hash@
    &&& forall|i: int, j: int|
        0 <= i < s.len() && 0 <= j < s.len() && i != j ==> #[trigger] s[i].public_id@
            != #[trigger] s[j].public_id@
}

/// Whether `id` names an order of `s`.
pub open spec fn has_id(s: Seq<Case>, id: u64) -> bool {
    1 <= id <= s.len()
}

/// The outcome of admitting `c` to `s` under the unpaid-order `ceiling`.
pub open spec fn insert_error(s: Seq<Case>, c: NewCase, ceiling: u32) -> Option<CaseError> {
    if c.buyer_user_id == c.seller_user_id {
        Some(CaseError::ValidationError(Rejection::SelfDealing))
    } else if unpaid_count(s) >= ceiling {
        Some(CaseError::AdmissionDenied)
    } else if hash_taken(s, c.invoice_hash@) || public_id_taken(s, c.public_id@) || s.len()
        >= u64::MAX {
        Some(CaseError::PersistenceError)
    } else {
        None
    }
}

/// The error, if any, of recording payment of order `id` of `s`: a canceled
/// order that is not paid stays unpaid.
pub open spec fn payment_error(s: Seq<Case>, id: u64) -> Option<CaseError> {
    if !has_id(s, id) {
        Some(CaseError::NotFound)
    } else if !s[id - 1].paid && is_canceled(s[id - 1]) {
        Some(CaseError::AlreadyCanceled)
    } else {
        None
    }
}

/// `s` after payment of order `id` at `t`: a paid order keeps its first
/// payment, and a canceled one is left as it is.
pub open spec fn after_payment(s: Seq<Case>, id: u64, t: u64) -> Seq<Case> {
    if has_id(s, id) && !s[id - 1].paid && !is_canceled(s[id - 1]) {
        s.update(id - 1, Case { paid: true, payment_time_ms: t, ..s[id - 1] })
    } else {
        s
    }
}

/// The error, if any, of awarding order `id` of `s`.
pub open spec fn award_error(s: Seq<Case>, id: u64) -> Option<CaseError> {
    if !has_id(s, id) {
        Some(CaseError::NotFound)
    } else if !s[id - 1].paid {
        Some(CaseError::NotPaid)
    } else if is_canceled(s[id - 1]) {
        Some(CaseError::AlreadyCanceled)
    } else {
        None
    }
}

/// `s` after order `id` is awarded.
pub open spec fn after_award(s: Seq<Case>, id: u64) -> Seq<Case> {
    if award_error(s, id) is None {
        s.update(id - 1, Case { awarded: true, ..s[id - 1] })
    } else {
        s
    }
}

/// The error, if any, of canceling order `id` of `s`.
pub open spec fn cancel_error(s: Seq<Case>, id: u64) -> Option<CaseError> {
    if !has_id(s, id) {
        Some(CaseError::NotFound)
    } else if s[id - 1].awarded {
        Some(CaseError::AlreadyAwarded)
    } else {
        None
    }
}

/// `s` after order `id` is canceled by the buyer (`by_buyer`) or by the seller.
pub open spec fn after_cancel(s: Seq<Case>, id: u64, by_buyer: bool) -> Seq<Case> {
    if cancel_error(s, id) is None {
        if by_buyer {
            s.update(id - 1, Case { canceled_by_buyer: true, ..s[id - 1] })
        } else {
            s.update(id - 1, Case { canceled_by_seller: true, ..s[id - 1] })
        }
    } else {
        s
    }
}

/// All orders, in the order of their internal ids.
pub struct Ledger {
    cases: Vec<Case>,
}

impl View for Ledger {
    type V = Seq<Case>;

    closed spec fn view(&self) -> Seq<Case> {
        self.cases@
    }
}

proof fn lemma_unpaid_count_step(s: Seq<Case>, i: int)
    requires
        0 <= i < s.len(),
    ensures
        unpaid_count(s.subrange(0, i + 1)) == unpaid_count(s.subrange(0, i)) + if is_open_unpaid(
            s[i],
        ) {
            1nat
        } else {
            0nat
        },
{
    assert(s.subrange(0, i + 1).drop_last() =~= s.subrange(0, i));
}

proof fn lemma_unpaid_count_update(s: Seq<Case>, i: int, x: Case)
    requires
        0 <= i < s.len(),
    ensures
        unpaid_count(s.update(i, x)) + (if is_open_unpaid(s[i]) {
            1nat
        } else {
            0nat
        }) == unpaid_count(s) + (if is_open_unpaid(x) {
            1nat
        } else {
            0nat
        }),
    decreases s.len(),
{
    let u = s.update(i, x);
    if i < s.len() - 1 {
        assert(u.drop_last() =~= s.drop_last().update(i, x));
        lemma_unpaid_count_update(s.drop_last(), i, x);
    } else {
        assert(u.drop_last() =~= s.drop_last());
    }
}

/// Once the unpaid-order ceiling is reached a new order is refused as
/// inadmissible, and after any one open unpaid order is paid the same order
/// is admitted.
pub proof fn lemma_payment_frees_admission(
    s: Seq<Case>,
    id: u64,
    t: u64,
    c: NewCase,
    ceiling: u32,
)
    requires
        ledger_wf(s),
        unpaid_count(s) == ceiling,
        has_id(s, id),
        is_open_unpaid(s[id - 1]),
        c.buyer_user_id != c.seller_user_id,
        !hash_taken(s, c.invoice_hash@),
        !public_id_taken(s, c.public_id@),
        s.len() < u64::MAX,
    ensures
        insert_error(s, c, ceiling) == Some(CaseError::AdmissionDenied),
        insert_error(after_payment(s, id, t), c, ceiling) is None,
{
    let p = after_payment(s, id, t);
    lemma_unpaid_count_update(s, id - 1, Case { paid: true, payment_time_ms: t, ..s[id - 1] });
    assert forall|i: int| 0 <= i < p.len() implies p[i].invoice_hash@ == s[i].invoice_hash@
        && p[i].public_id@ == s[i].public_id@ by {}
    if hash_taken(p, c.invoice_hash@) {
        let i = choose|i: int| 0 <= i < p.len() && #[trigger] p[i].invoice_hash@ == c.invoice_hash@;
        assert(s[i].invoice_hash@ == c.invoice_hash@);
    }
    if public_id_taken(p, c.public_id@) {
        let i = choose|i: int| 0 <= i < p.len() && #[trigger] p[i].public_id@ == c.public_id@;
        assert(s[i].public_id@ == c.public_id@);
    }
}

/// Reporting the payment of an order a second time, at any time, changes
/// nothing, and fails exactly when the first report failed, with the same
/// error.
pub proof fn lemma_payment_idempotent(s: Seq<Case>, id: u64, t1: u64, t2: u64)
    ensures
        after_payment(after_payment(s, id, t1), id, t2) == after_payment(s, id, t1),
        payment_error(after_payment(s, id, t1), id) == payment_error(s, id),
{
}

/// An order that is not paid cannot be awarded.
pub proof fn lemma_award_needs_payment(s: Seq<Case>, id: u64)
    requires
        has_id(s, id),
        !s[id - 1].paid,
    ensures
        award_error(s, id) == Some(CaseError::NotPaid),
        after_award(s, id) == s,
{
}

/// Once awarded, an order can be canceled by neither side.
pub proof fn lemma_award_blocks_cancel(s: Seq<Case>, id: u64, by_buyer: bool)
    requires
        award_error(s, id) is None,
    ensures
        cancel_error(after_award(s, id), id) == Some(CaseError::AlreadyAwarded),
        after_cancel(after_award(s, id), id, by_buyer) == after_award(s, id),
{
}

/// Buyer and seller can both cancel the same order that is not awarded, and
/// both marks then stand.
pub proof fn lemma_both_sides_cancel(s: Seq<Case>, id: u64)
    requires
        has_id(s, id),
        !s[id - 1].awarded,
    ensures
        cancel_error(s, id) is None,
        cancel_error(after_cancel(s, id, true), id) is None,
        after_cancel(after_cancel(s, id, true), id, false)[id - 1].canceled_by_buyer,
        after_cancel(after_cancel(s, id, true), id, false)[id - 1].canceled_by_seller,
{
}

/// An admitted order's invoice hash differs from that of every order before
/// it, so no two orders of a ledger ever share an invoice hash.
pub proof fn lemma_invoice_hashes_unique(s: Seq<Case>, c: NewCase, ceiling: u32)
    requires
        ledger_wf(s),
        insert_error(s, c, ceiling) is None,
    ensures
        forall|i: int| 0 <= i < s.len() ==> #[trigger] s[i].invoice_hash@ != c.invoice_hash@,
        ledger_wf(s.push(admitted(c, (s.len() + 1) as u64))),
{
    let t = s.push(admitted(c, (s.len() + 1) as u64));
    assert forall|i: int| 0 <= i < s.len() implies #[trigger] s[i].invoice_hash@
        != c.invoice_hash@ by {
        if s[i].invoice_hash@ == c.invoice_hash@ {
            assert(hash_taken(s, c.invoice_hash@));
        }
    }
    assert forall|i: int| 0 <= i < s.len() implies #[trigger] s[i].public_id@
        != c.public_id@ by {
        if s[i].public_id@ == c.public_id@ {
            assert(public_id_taken(s, c.public_id@));
        }
    }
    assert forall|i: int, j: int|
        0 <= i < t.len() && 0 <= j < t.len() && i != j implies #[trigger] t[i].invoice_hash@
        != #[trigger] t[j].invoice_hash@ && t[i].public_id@ != t[j].public_id@ by {
        if i < s.len() && j < s.len() {
            assert(s[i].invoice_hash@ != s[j].invoice_hash@);
            assert(s[i].public_id@ != s[j].public_id@);
        }
    }
}

/// The internal id of the order of `s` bound to invoice `hash`, where one is.
pub open spec fn case_of_hash(s: Seq<Case>, hash: Seq<char>) -> u64 {
    let i = choose|i: int| 0 <= i < s.len() && #[trigger] s[i].invoice_hash@ == hash;
    (i + 1) as u64
}

/// The error, if any, of settling invoice `hash` of `s` with `paid_msat`
/// millisatoshis: no order is bound to it, the amount is not exactly what the
/// order owes, or the order is canceled.
pub open spec fn settle_error(s: Seq<Case>, hash: Seq<char>, paid_msat: u64) -> Option<CaseError> {
    if !hash_taken(s, hash) {
        Some(CaseError::NotFound)
    } else if paid_msat != s[case_of_hash(s, hash) - 1].amount_owed * 1000 {
        Some(CaseError::NotPaid)
    } else {
        payment_error(s, case_of_hash(s, hash))
    }
}

proof fn lemma_case_of_hash(s: Seq<Case>, hash: Seq<char>, id: u64)
    requires
        ledger_wf(s),
        has_id(s, id),
        s[id - 1].invoice_hash@ == hash,
    ensures
        hash_taken(s, hash),
        case_of_hash(s, hash) == id,
{
    assert(hash_taken(s, hash));
    let i = choose|i: int| 0 <= i < s.len() && #[trigger] s[i].invoice_hash@ == hash;
    if i != id - 1 {
        assert(s[i].invoice_hash@ != s[id - 1].invoice_hash@);
    }
}

impl Ledger {
    /// The ledger's invariants hold.
    pub open spec fn wf(&self) -> bool {
        ledger_wf(self@)
    }

    /// An empty ledger.
    pub fn new() -> (r: Ledger)
        ensures
            r@ == Seq::<Case>::empty(),
            r.wf(),
    {
        Ledger { cases: Vec::new() }
    }

    /// The number of orders held.
    pub fn len(&self) -> (r: usize)
        ensures
            r == self@.len(),
    {
        self.cases.len()
    }

    /// The order with internal id `id`, if there is one.
    pub fn get(&self, id: u64) -> (r: Option<&Case>)
        ensures
            r is Some <==> has_id(self@, id),
            r matches Some(c) ==> *c == self@[id - 1],
    {
        if id >= 1 && id <= self.cases.len() as u64 {
            Some(&self.cases[(id - 1) as usize])
        } else {
            None
        }
    }

    /// The number of orders that are open and unpaid.
    pub fn unpaid_orders(&self) -> (r: usize)
        ensures
            r == unpaid_count(self@),
    {
        let mut count: usize = 0;
        let mut i: usize = 0;
        while i < self.cases.len()
            invariant
                i <= self.cases@.len(),
                count <= i,
                count == unpaid_count(self.cases@.subrange(0, i as int)),
            decreases self.cases@.len() - i,
        {
            proof {
                lemma_unpaid_count_step(self.cases@, i as int);
            }
            let c = &self.cases[i];
            if !c.paid && !c.canceled_by_buyer && !c.canceled_by_seller {
                count = count + 1;
            }
            i = i + 1;
        }
        assert(self.cases@.subrange(0, self.cases@.len() as int) =~= self.cases@);
        count
    }

    /// The internal id of the order with public id `public_id`, if there is one.
    pub fn find_by_public_id(&self, public_id: &String) -> (r: Option<u64>)
        ensures
            r is Some <==> public_id_taken(self@, public_id@),
            r matches Some(id) ==> has_id(self@, id) && self@[id - 1].public_id@ == public_id@,
    {
        let mut i: usize = 0;
        while i < self.cases.len()
            invariant
                i <= self.cases@.len(),
                forall|k: int| 0 <= k < i ==> self.cases@[k].public_id@ != public_id@,
            decreases self.cases@.len() - i,
        {
            if self.cases[i].public_id == *public_id {
                return Some(i as u64 + 1);
            }
            i = i + 1;
        }
        None
    }

    /// The internal id of the order bound to invoice `hash`, if there is one.
    pub fn find_by_invoice_hash(&self, hash: &String) -> (r: Option<u64>)
        ensures
            r is Some <==> hash_taken(self@, hash@),
            r matches Some(id) ==> has_id(self@, id) && self@[id - 1].invoice_hash@ == hash@,
    {
        let mut i: usize = 0;
        while i < self.cases.len()
            invariant
                i <= self.cases@.len(),
                forall|k: int| 0 <= k < i ==> self.cases@[k].invoice_hash@ != hash@,
            decreases self.cases@.len() - i,
        {
            if self.cases[i].invoice_hash == *hash {
                return Some(i as u64 + 1);
            }
            i = i + 1;
        }
        None
    }

    /// Whether an order already holds invoice `hash` or public id `pid`.
    fn key_taken(&self, hash: &String, pid: &String) -> (r: bool)
        ensures
            r == (hash_taken(self@, hash@) || public_id_taken(self@, pid@)),
    {
        let mut i: usize = 0;
        while i < self.cases.len()
            invariant
                i <= self.cases@.len(),
                forall|k: int|
                    0 <= k < i ==> self.cases@[k].invoice_hash@ != hash@
                        && self.cases@[k].public_id@ != pid@,
            decreases self.cases@.len() - i,
        {
            if self.cases[i].invoice_hash == *hash || self.cases[i].public_id == *pid {
                return true;
            }
            i = i + 1;
        }
        false
    }

    /// Admits a new order, unless its buyer is its seller, `ceiling` or more
    /// orders are open and unpaid, or its invoice hash or public id is taken.
    /// On success the order is appended, unpaid, and its internal id returned.
    pub fn insert(&mut self, case: NewCase, ceiling: u32) -> (r: Result<u64, CaseError>)
        requires
            old(self).wf(),
        ensures
            final(self).wf(),
            match insert_error(old(self)@, case, ceiling) {
                Some(e) => r == Err::<u64, CaseError>(e) && final(self)@ == old(self)@,
                None => r == Ok::<u64, CaseError>((old(self)@.len() + 1) as u64) && final(self)@
                    == old(self)@.push(admitted(case, (old(self)@.len() + 1) as u64)),
            },
            r is Ok ==> unpaid_count(final(self)@) == unpaid_count(old(self)@) + 1
                && unpaid_count(final(self)@) <= ceiling,
    {
        if case.buyer_user_id == case.seller_user_id {
            return Err(CaseError::ValidationError(Rejection::SelfDealing));
        }
        let unpaid = self.unpaid_orders();
        if unpaid as u64 >= ceiling as u64 {
            return Err(CaseError::AdmissionDenied);
        }
        if self.key_taken(&case.invoice_hash, &case.public_id) {
            return Err(CaseError::PersistenceError);
        }
        if self.cases.len() as u64 >= u64::MAX {
            return Err(CaseError::PersistenceError);
        }
        let id = self.cases.len() as u64 + 1;
        let record = Case {
            id,
            public_id: case.public_id,
            quantity: case.quantity,
            buyer_user_id: case.buyer_user_id,
            seller_user_id: case.seller_user_id,
            listing_id: case.listing_id,
            case_details: case.case_details,
            amount_owed: case.amount_owed,
            seller_credit: case.seller_credit,
            invoice_hash: case.invoice_hash,
            invoice_payment_request: case.invoice_payment_request,
            created_time_ms: case.created_time_ms,
            payment_time_ms: 0,
            paid: false,
            awarded: false,
            canceled_by_seller: false,
            canceled_by_buyer: false,
        };
        self.cases.push(record);
        assert(self@.drop_last() =~= old(self)@);
        Ok(id)
    }

    /// Records that order `id` was paid at `payment_time_ms`. Payment may be
    /// reported more than once: an order already paid is left as it is. A
    /// canceled order is not marked paid.
    pub fn mark_paid(&mut self, id: u64, payment_time_ms: u64) -> (r: Result<(), CaseError>)
        requires
            old(self).wf(),
        ensures
            final(self).wf(),
            match payment_error(old(self)@, id) {
                Some(e) => r == Err::<(), CaseError>(e),
                None => r is Ok,
            },
            final(self)@ == after_payment(old(self)@, id, payment_time_ms),
    {
        if id == 0 || id > self.cases.len() as u64 {
            return Err(CaseError::NotFound);
        }
        let idx = (id - 1) as usize;
        if !self.cases[idx].paid {
            if self.cases[idx].canceled_by_buyer || self.cases[idx].canceled_by_seller {
                return Err(CaseError::AlreadyCanceled);
            }
            self.cases[idx].paid = true;
            self.cases[idx].payment_time_ms = payment_time_ms;
        }
        Ok(())
    }

    /// Awards order `id` to its seller: only a paid order that is not
    /// canceled can be awarded, and awarding twice changes nothing.
    pub fn mark_awarded(&mut self, id: u64) -> (r: Result<(), CaseError>)
        requires
            old(self).wf(),
        ensures
            final(self).wf(),
            match award_error(old(self)@, id) {
                Some(e) => r == Err::<(), CaseError>(e),
                None => r is Ok,
            },
            final(self)@ == after_award(old(self)@, id),
    {
        if id == 0 || id > self.cases.len() as u64 {
            return Err(CaseError::NotFound);
        }
        let idx = (id - 1) as usize;
        if !self.cases[idx].paid {
            return Err(CaseError::NotPaid);
        }
        if self.cases[idx].canceled_by_buyer || self.cases[idx].canceled_by_seller {
            return Err(CaseError::AlreadyCanceled);
        }
        self.cases[idx].awarded = true;
        Ok(())
    }

    /// Marks order `id` canceled by its buyer, unless it is awarded.
    pub fn cancel_by_buyer(&mut self, id: u64) -> (r: Result<(), CaseError>)
        requires
            old(self).wf(),
        ensures
            final(self).wf(),
            match cancel_error(old(self)@, id) {
                Some(e) => r == Err::<(), CaseError>(e),
                None => r is Ok,
            },
            final(self)@ == after_cancel(old(self)@, id, true),
    {
        if id == 0 || id > self.cases.len() as u64 {
            return Err(CaseError::NotFound);
        }
        let idx = (id - 1) as usize;
        if self.cases[idx].awarded {
            return Err(CaseError::AlreadyAwarded);
        }
        self.cases[idx].canceled_by_buyer = true;
        Ok(())
    }

    /// Marks order `id` canceled by its seller, unless it is awarded.
    pub fn cancel_by_seller(&mut self, id: u64) -> (r: Result<(), CaseError>)
        requires
            old(self).wf(),
        ensures
            final(self).wf(),
            match cancel_error(old(self)@, id) {
                Some(e) => r == Err::<(), CaseError>(e),
                None => r is Ok,
            },
            final(self)@ == after_cancel(old(self)@, id, false),
    {
        if id == 0 || id > self.cases.len() as u64 {
            return Err(CaseError::NotFound);
        }
        let idx = (id - 1) as usize;
        if self.cases[idx].awarded {
            return Err(CaseError::AlreadyAwarded);
        }
        self.cases[idx].canceled_by_seller = true;
        Ok(())
    }

    /// Records that the invoice `hash` was settled for `amount_paid_msat`
    /// millisatoshis at `payment_time_ms`, and returns the order it pays. The
    /// payment must be exactly what the order owes, and a canceled order is
    /// not marked paid; a settlement reported again changes nothing.
    pub fn settle_invoice(&mut self, hash: &String, amount_paid_msat: u64, payment_time_ms: u64) -> (r:
        Result<u64, CaseError>)
        requires
            old(self).wf(),
        ensures
            final(self).wf(),
            match settle_error(old(self)@, hash@, amount_paid_msat) {
                Some(e) => r == Err::<u64, CaseError>(e) && final(self)@ == old(self)@,
                None => r == Ok::<u64, CaseError>(case_of_hash(old(self)@, hash@))
                    && final(self)@ == after_payment(
                    old(self)@,
                    case_of_hash(old(self)@, hash@),
                    payment_time_ms,
                ),
            },
    {
        let found = self.find_by_invoice_hash(hash);
        let id = match found {
            Some(id) => id,
            None => {
                return Err(CaseError::NotFound);
            },
        };
        let n: usize = self.cases.len();
        proof {
            lemma_case_of_hash(self@, hash@, id);
            assert(id <= n);
        }
        let owed = self.cases[(id - 1) as usize].amount_owed;
        if amount_paid_msat as u128 != (owed as u128) * 1000 {
            return Err(CaseError::NotPaid);
        }
        match self.mark_paid(id, payment_time_ms) {
            Ok(()) => Ok(id),
            Err(e) => Err(e),
        }
    }
}

} // verus!
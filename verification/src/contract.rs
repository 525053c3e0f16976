//! The agreement ledger: lifecycle state machine, storage model and the
//! read-only query layer.

use vstd::prelude::*;

use crate::search::{
    find_first, lemma_find_first_characterizes, lemma_find_first_found, lemma_find_first_none,
    lemma_find_first_push, lemma_find_first_update_miss,
};
use crate::types::{AgreementStatus, Error, PaymentRecord, Principal, RentAgreement};

verus! {

/// Predicate picking out the agreement stored under `id`.
pub open spec fn agreement_with(id: Seq<char>) -> spec_fn(RentAgreement) -> bool {
    |a: RentAgreement| a.agreement_id@ == id
}

/// The agreement stored under `id`, if any.
pub open spec fn find_agreement(s: Seq<RentAgreement>, id: Seq<char>) -> Option<RentAgreement> {
    find_first(s, agreement_with(id))
}

/// Predicate picking out the audit payment entry stored under `id`.
pub open spec fn payment_with(id: Seq<char>) -> spec_fn((String, PaymentRecord)) -> bool {
    |e: (String, PaymentRecord)| e.0@ == id
}

/// The audit payment entry stored under `id`, if any.
pub open spec fn find_payment(s: Seq<(String, PaymentRecord)>, id: Seq<char>) -> Option<
    (String, PaymentRecord),
> {
    find_first(s, payment_with(id))
}

/// Predicate picking out the settlement record of payment `n` under
/// agreement `id`.
pub open spec fn record_with(id: Seq<char>, n: u32) -> spec_fn(PaymentRecord) -> bool {
    |r: PaymentRecord| r.agreement_id@ == id && r.payment_number == n
}

/// The settlement record of payment `n` under agreement `id`, if any.
pub open spec fn find_record(s: Seq<PaymentRecord>, id: Seq<char>, n: u32) -> Option<
    PaymentRecord,
> {
    find_first(s, record_with(id, n))
}

/// A settlement record is well linked to the ledger when its sequence
/// number lies between 1 and the payment count of the agreement it belongs
/// to.
pub open spec fn record_linked(agreements: Seq<RentAgreement>, r: PaymentRecord) -> bool {
    &&& r.payment_number >= 1
    &&& find_agreement(agreements, r.agreement_id@) matches Some(a) && r.payment_number
        <= a.payment_count
}

/// Validation of agreement creation parameters: the rent must be positive
/// and the deposit non-negative, the start date must precede the end date,
/// and the commission rate is checked against the 0-100 percentage scale.
pub open spec fn validate_spec(
    monthly_rent: i128,
    security_deposit: i128,
    start_date: u64,
    end_date: u64,
    agent_commission_rate: u32,
) -> Result<(), Error> {
    if monthly_rent <= 0 || security_deposit < 0 {
        Err(Error::InvalidAmount)
    } else if start_date >= end_date {
        Err(Error::InvalidDate)
    } else if agent_commission_rate > 100 {
        Err(Error::InvalidCommissionRate)
    } else {
        Ok(())
    }
}

/// The agreement that creation persists: the given parties and terms, born
/// in `Draft` with empty payment aggregates.
pub open spec fn new_agreement(
    agreement_id: String,
    landlord: Principal,
    tenant: Principal,
    agent: Option<Principal>,
    monthly_rent: i128,
    security_deposit: i128,
    start_date: u64,
    end_date: u64,
    agent_commission_rate: u32,
) -> RentAgreement {
    RentAgreement {
        agreement_id,
        landlord,
        tenant,
        agent,
        monthly_rent,
        security_deposit,
        start_date,
        end_date,
        agent_commission_rate,
        status: AgreementStatus::Draft,
        total_rent_paid: 0,
        payment_count: 0,
    }
}

/// The outcome of an agreement creation attempt on ledger `pre`: a
/// validation error, `AgreementAlreadyExists` for a duplicate identifier,
/// and success otherwise.
pub open spec fn create_result(
    pre: Contract,
    id: Seq<char>,
    monthly_rent: i128,
    security_deposit: i128,
    start_date: u64,
    end_date: u64,
    agent_commission_rate: u32,
) -> Result<(), Error> {
    match validate_spec(monthly_rent, security_deposit, start_date, end_date,
        agent_commission_rate) {
        Err(e) => Err(e),
        Ok(_) => if find_agreement(pre.agreements@, id) is Some {
            Err(Error::AgreementAlreadyExists)
        } else {
            Ok(())
        },
    }
}

/// The state transition of a successful agreement creation: the agreement
/// is appended, the agreement counter is incremented, and nothing else
/// changes.
pub open spec fn create_post(pre: Contract, post: Contract, a: RentAgreement) -> bool {
    &&& post.agreements@ == pre.agreements@.push(a)
    &&& post.agreement_count == pre.agreement_count + 1
    &&& post.payments@ == pre.payments@
    &&& post.payment_records@ == pre.payment_records@
    &&& post.payment_count == pre.payment_count
}

/// The digit character of one decimal digit value.
pub open spec fn decimal_digit(d: int) -> char {
    if d == 0 {
        '0'
    } else if d == 1 {
        '1'
    } else if d == 2 {
        '2'
    } else if d == 3 {
        '3'
    } else if d == 4 {
        '4'
    } else if d == 5 {
        '5'
    } else if d == 6 {
        '6'
    } else if d == 7 {
        '7'
    } else if d == 8 {
        '8'
    } else {
        '9'
    }
}

/// The decimal rendering of a non-negative integer: most significant digit
/// first, with no leading zeros except for zero itself.
pub open spec fn decimal_of(n: int) -> Seq<char>
    decreases n,
{
    if n < 10 {
        seq![decimal_digit(n)]
    } else {
        decimal_of(n / 10).push(decimal_digit(n % 10))
    }
}

/// The payment identifier string the audit scan derives from a counter
/// value: its decimal rendering.
pub open spec fn payment_id_of(n: u32) -> Seq<char> {
    decimal_of(n as int)
}

/// The string literal for one decimal digit value.
fn digit_str(d: u32) -> (r: &'static str)
    requires
        d < 10,
    ensures
        r@ == seq![decimal_digit(d as int)],
{
    proof {
        reveal_strlit("0");
        reveal_strlit("1");
        reveal_strlit("2");
        reveal_strlit("3");
        reveal_strlit("4");
        reveal_strlit("5");
        reveal_strlit("6");
        reveal_strlit("7");
        reveal_strlit("8");
        reveal_strlit("9");
    }
    let r = match d {
        0 => "0",
        1 => "1",
        2 => "2",
        3 => "3",
        4 => "4",
        5 => "5",
        6 => "6",
        7 => "7",
        8 => "8",
        _ => "9",
    };
    proof {
        assert(r@ =~= seq![decimal_digit(d as int)]);
    }
    r
}

/// The contribution of audit scan position `i` to the total paid under
/// agreement `id`: the gross amount of the record stored under the derived
/// payment identifier, when there is one and it belongs to `id`.
pub open spec fn paid_at(c: Contract, id: Seq<char>, i: u32) -> int {
    match find_payment(c.payments@, payment_id_of(i)) {
        Some(e) => if e.1.agreement_id@ == id {
            e.1.amount as int
        } else {
            0
        },
        None => 0,
    }
}

/// The total paid under agreement `id` over the first `n` audit scan
/// positions.
pub open spec fn paid_upto(c: Contract, id: Seq<char>, n: nat) -> int
    decreases n,
{
    if n == 0 {
        0
    } else {
        paid_upto(c, id, (n - 1) as nat) + paid_at(c, id, ((n - 1) as nat) as u32)
    }
}

/// On a well-formed ledger every audit contribution is non-negative, so
/// the running total never decreases as the scan advances.
pub proof fn lemma_paid_upto_monotonic(c: Contract, id: Seq<char>, m: nat, n: nat)
    requires
        c.wf(),
        m <= n,
    ensures
        0 <= paid_upto(c, id, m) <= paid_upto(c, id, n),
    decreases n,
{
    if n > 0 {
        let i = ((n - 1) as nat) as u32;
        lemma_find_first_characterizes(c.payments@, payment_with(payment_id_of(i)));
        assert(paid_at(c, id, i) >= 0);
        if m == n {
            lemma_paid_upto_monotonic(c, id, (n - 1) as nat, (n - 1) as nat);
        } else {
            lemma_paid_upto_monotonic(c, id, m, (n - 1) as nat);
        }
    }
}

/// The rental-agreement ledger.
///
/// The fields model the persisted key spaces of the storage addressing
/// scheme ([`crate::types::DataKey`]): one vector per keyed entity plus the
/// two global counters. The execution substrate serializes invocations, so
/// each method is one atomic state transition.
pub struct Contract {
    /// The `Agreement(id)` key space; identifiers are unique.
    pub agreements: Vec<RentAgreement>,
    /// The global count of agreements ever created.
    pub agreement_count: u32,
    /// The `Payment(id)` audit key space: records stored under a
    /// caller-chosen payment identifier.
    pub payments: Vec<(String, PaymentRecord)>,
    /// The `PaymentRecord(id, n)` key space: settlement records written by
    /// the payment processor.
    pub payment_records: Vec<PaymentRecord>,
    /// The global count of payments ever settled.
    pub payment_count: u32,
}

impl Contract {
    /// Well-formedness: unique keys in every key space, well-formed
    /// agreements, non-negative audit amounts, and settlement records that
    /// stay consistent with their agreement's payment count.
    pub open spec fn wf(self) -> bool {
        &&& forall|i: int, j: int|
            0 <= i < j < self.agreements@.len() ==> (#[trigger] self.agreements@[i]).agreement_id@
                != (#[trigger] self.agreements@[j]).agreement_id@
        &&& forall|i: int|
            0 <= i < self.agreements@.len() ==> (#[trigger] self.agreements@[i]).wf()
        &&& forall|i: int, j: int|
            0 <= i < j < self.payments@.len() ==> (#[trigger] self.payments@[i]).0@
                != (#[trigger] self.payments@[j]).0@
        &&& forall|i: int|
            0 <= i < self.payments@.len() ==> (#[trigger] self.payments@[i]).1.amount >= 0
        &&& forall|i: int, j: int|
            0 <= i < j < self.payment_records@.len() ==> !((
            #[trigger] self.payment_records@[i]).agreement_id@
                == (#[trigger] self.payment_records@[j]).agreement_id@
                && self.payment_records@[i].payment_number
                == self.payment_records@[j].payment_number)
        &&& forall|i: int|
            0 <= i < self.payment_records@.len() ==> record_linked(
                self.agreements@,
                #[trigger] self.payment_records@[i],
            )
    }

    /// An empty ledger.
    pub fn new() -> (r: Contract)
        ensures
            r.wf(),
            r.agreements@ == Seq::<RentAgreement>::empty(),
            r.agreement_count == 0,
            r.payments@ == Seq::<(String, PaymentRecord)>::empty(),
            r.payment_records@ == Seq::<PaymentRecord>::empty(),
            r.payment_count == 0,
    {
        Contract {
            agreements: Vec::new(),
            agreement_count: 0,
            payments: Vec::new(),
            payment_records: Vec::new(),
            payment_count: 0,
        }
    }

    /// Validates agreement creation parameters, with no side effects.
    pub fn validate_agreement_params(
        monthly_rent: &i128,
        security_deposit: &i128,
        start_date: &u64,
        end_date: &u64,
        agent_commission_rate: &u32,
    ) -> (r: Result<(), Error>)
        ensures
            r == validate_spec(
                *monthly_rent,
                *security_deposit,
                *start_date,
                *end_date,
                *agent_commission_rate,
            ),
    {
        if *monthly_rent <= 0 || *security_deposit < 0 {
            return Err(Error::InvalidAmount);
        }
        if *start_date >= *end_date {
            return Err(Error::InvalidDate);
        }
        if *agent_commission_rate > 100 {
            return Err(Error::InvalidCommissionRate);
        }
        Ok(())
    }

    /// Creates a new rent agreement and stores it in the ledger.
    ///
    /// The caller must have been authenticated as `tenant` by the
    /// substrate: tenant consent prevents a landlord or third party from
    /// fabricating an agreement that obligates a tenant.
    ///
    /// Fails with the first applicable validation error or with
    /// `AgreementAlreadyExists` for a duplicate identifier, in which case
    /// the ledger is unchanged. On success the agreement is persisted in
    /// `Draft` state with empty aggregates and the agreement counter is
    /// incremented, as one atomic unit.
    pub fn create_agreement(
        &mut self,
        agreement_id: String,
        landlord: Principal,
        tenant: Principal,
        agent: Option<Principal>,
        monthly_rent: i128,
        security_deposit: i128,
        start_date: u64,
        end_date: u64,
        agent_commission_rate: u32,
    ) -> (r: Result<(), Error>)
        requires
            old(self).wf(),
            create_result(
                *old(self),
                agreement_id@,
                monthly_rent,
                security_deposit,
                start_date,
                end_date,
                agent_commission_rate,
            ) is Ok ==> old(self).agreement_count < u32::MAX,
        ensures
            final(self).wf(),
            r == create_result(
                *old(self),
                agreement_id@,
                monthly_rent,
                security_deposit,
                start_date,
                end_date,
                agent_commission_rate,
            ),
            r is Ok ==> create_post(
                *old(self),
                *final(self),
                new_agreement(
                    agreement_id,
                    landlord,
                    tenant,
                    agent,
                    monthly_rent,
                    security_deposit,
                    start_date,
                    end_date,
                    agent_commission_rate,
                ),
            ),
            r is Ok ==> find_agreement(final(self).agreements@, agreement_id@) == Some(
                new_agreement(
                    agreement_id,
                    landlord,
                    tenant,
                    agent,
                    monthly_rent,
                    security_deposit,
                    start_date,
                    end_date,
                    agent_commission_rate,
                ),
            ),
            r is Err ==> *final(self) == *old(self),
    {
        if let Err(e) = Self::validate_agreement_params(
            &monthly_rent,
            &security_deposit,
            &start_date,
            &end_date,
            &agent_commission_rate,
        ) {
            return Err(e);
        }
        if self.has_agreement(&agreement_id) {
            return Err(Error::AgreementAlreadyExists);
        }
        let ghost pre = *self;
        let ghost id_view = agreement_id@;
        let agreement = RentAgreement {
            agreement_id,
            landlord,
            tenant,
            agent,
            monthly_rent,
            security_deposit,
            start_date,
            end_date,
            agent_commission_rate,
            status: AgreementStatus::Draft,
            total_rent_paid: 0,
            payment_count: 0,
        };
        proof {
            lemma_find_first_characterizes(pre.agreements@, agreement_with(id_view));
            lemma_find_first_push(pre.agreements@, agreement_with(id_view), agreement);
        }
        self.agreements.push(agreement);
        self.agreement_count = self.agreement_count + 1;
        proof {
            assert forall|i: int| 0 <= i < self.payment_records@.len() implies record_linked(
                self.agreements@,
                #[trigger] self.payment_records@[i],
            ) by {
                let rec = self.payment_records@[i];
                lemma_find_first_push(pre.agreements@, agreement_with(rec.agreement_id@), agreement);
            }
            assert(forall|i: int|
                0 <= i < pre.agreements@.len() ==> (#[trigger] pre.agreements@[i]).agreement_id@
                    != id_view);
        }
        Ok(())
    }

    /// Position of the agreement stored under the given identifier, if
    /// any.
    pub(crate) fn agreement_index(&self, agreement_id: &String) -> (r: Option<usize>)
        ensures
            r matches Some(i) ==> i < self.agreements@.len() && find_agreement(
                self.agreements@,
                agreement_id@,
            ) == Some(self.agreements@[i as int]) && self.agreements@[i as int].agreement_id@
                == agreement_id@ && forall|j: int|
                0 <= j < i ==> (#[trigger] self.agreements@[j]).agreement_id@ != agreement_id@,
            r is None ==> find_agreement(self.agreements@, agreement_id@) is None,
    {
        let n = self.agreements.len();
        let mut i: usize = 0;
        while i < n
            invariant
                n == self.agreements@.len(),
                i <= n,
                forall|j: int|
                    0 <= j < i ==> (#[trigger] self.agreements@[j]).agreement_id@ != agreement_id@,
            decreases n - i,
        {
            if self.agreements[i].agreement_id == *agreement_id {
                proof {
                    lemma_find_first_found(self.agreements@, agreement_with(agreement_id@), i as int);
                }
                return Some(i);
            }
            i += 1;
        }
        proof {
            lemma_find_first_none(self.agreements@, agreement_with(agreement_id@));
        }
        None
    }

    /// Checks whether a rent agreement exists for the given identifier.
    pub fn has_agreement(&self, agreement_id: &String) -> (r: bool)
        ensures
            r == (find_agreement(self.agreements@, agreement_id@) is Some),
    {
        self.agreement_index(agreement_id).is_some()
    }

    /// Retrieves a rent agreement by its unique identifier.
    pub fn get_agreement(&self, agreement_id: &String) -> (r: Option<RentAgreement>)
        ensures
            r == find_agreement(self.agreements@, agreement_id@),
    {
        match self.agreement_index(agreement_id) {
            Some(i) => Some(self.agreements[i].clone()),
            None => None,
        }
    }

    /// Returns the total number of rent agreements created.
    pub fn get_agreement_count(&self) -> (r: u32)
        ensures
            r == self.agreement_count,
    {
        self.agreement_count
    }

    /// Looks up a payment record in the audit key space.
    pub fn get_payment(&self, payment_id: &String) -> (r: Result<PaymentRecord, Error>)
        ensures
            r == (match find_payment(self.payments@, payment_id@) {
                Some(e) => Ok::<PaymentRecord, Error>(e.1),
                None => Err::<PaymentRecord, Error>(Error::PaymentNotFound),
            }),
    {
        let n = self.payments.len();
        let mut i: usize = 0;
        while i < n
            invariant
                n == self.payments@.len(),
                i <= n,
                forall|j: int| 0 <= j < i ==> (#[trigger] self.payments@[j]).0@ != payment_id@,
            decreases n - i,
        {
            if self.payments[i].0 == *payment_id {
                proof {
                    lemma_find_first_found(self.payments@, payment_with(payment_id@), i as int);
                }
                return Ok(self.payments[i].1.clone());
            }
            i += 1;
        }
        proof {
            lemma_find_first_none(self.payments@, payment_with(payment_id@));
        }
        Err(Error::PaymentNotFound)
    }

    /// Looks up the settlement record of payment `payment_number` under
    /// the given agreement.
    pub fn get_payment_record(&self, agreement_id: &String, payment_number: u32) -> (r: Option<
        PaymentRecord,
    >)
        ensures
            r == find_record(self.payment_records@, agreement_id@, payment_number),
    {
        let n = self.payment_records.len();
        let mut i: usize = 0;
        while i < n
            invariant
                n == self.payment_records@.len(),
                i <= n,
                forall|j: int|
                    0 <= j < i ==> !((#[trigger] self.payment_records@[j]).agreement_id@
                        == agreement_id@ && self.payment_records@[j].payment_number
                        == payment_number),
            decreases n - i,
        {
            if self.payment_records[i].payment_number == payment_number
                && self.payment_records[i].agreement_id == *agreement_id {
                proof {
                    lemma_find_first_found(
                        self.payment_records@,
                        record_with(agreement_id@, payment_number),
                        i as int,
                    );
                }
                return Some(self.payment_records[i].clone());
            }
            i += 1;
        }
        proof {
            lemma_find_first_none(self.payment_records@, record_with(agreement_id@, payment_number));
        }
        None
    }

    /// Returns the total number of payments ever settled or registered.
    pub fn get_payment_count(&self) -> (r: u32)
        ensures
            r == self.payment_count,
    {
        self.payment_count
    }

    /// Totals the gross amounts of the audit payment records that belong
    /// to the given agreement, scanning the numeric-string payment
    /// identifier range up to the current payment counter; an unknown
    /// identifier totals 0. An O(payment count) audit-style cross-check:
    /// the agreement's own `total_rent_paid` aggregate is the
    /// authoritative source.
    pub fn get_total_paid(&self, agreement_id: &String) -> (r: Result<i128, Error>)
        requires
            self.wf(),
            paid_upto(*self, agreement_id@, self.payment_count as nat) <= i128::MAX,
        ensures
            r matches Ok(total) && total == paid_upto(
                *self,
                agreement_id@,
                self.payment_count as nat,
            ),
    {
        let payment_count = self.payment_count;
        let mut total: i128 = 0;
        let mut i: u32 = 0;
        #[verifier::loop_isolation(false)]
        while i < payment_count
            invariant
                i <= payment_count,
                total == paid_upto(*self, agreement_id@, i as nat),
            decreases payment_count - i,
        {
            let payment_id = Self::u32_to_string(i);
            proof {
                lemma_paid_upto_monotonic(*self, agreement_id@, (i + 1) as nat, payment_count as nat);
                lemma_paid_upto_monotonic(*self, agreement_id@, i as nat, i as nat);
                lemma_find_first_characterizes(self.payments@, payment_with(payment_id_of(i)));
            }
            match self.get_payment(&payment_id) {
                Ok(payment) => {
                    total = Self::tally_audit_record(
                        total,
                        agreement_id,
                        &payment.agreement_id,
                        payment.amount,
                    );
                },
                Err(_) => {},
            }
            i += 1;
        }
        Ok(total)
    }

    /// One step of the audit total: adds the record's gross amount to the
    /// running total exactly when the record belongs to the queried
    /// agreement.
    pub fn tally_audit_record(
        total: i128,
        agreement_id: &String,
        record_agreement_id: &String,
        amount: i128,
    ) -> (r: i128)
        requires
            record_agreement_id@ == agreement_id@ ==> i128::MIN <= total + amount <= i128::MAX,
        ensures
            r == (if record_agreement_id@ == agreement_id@ {
                total + amount
            } else {
                total as int
            }),
    {
        if *record_agreement_id == *agreement_id {
            total + amount
        } else {
            total
        }
    }

    /// Renders a payment counter value as the audit payment identifier
    /// string: its decimal rendering.
    pub fn u32_to_string(num: u32) -> (r: String)
        ensures
            r@ == payment_id_of(num),
        decreases num,
    {
        if num < 10 {
            let r = String::from_str(digit_str(num));
            proof {
                assert(r@ =~= decimal_of(num as int));
            }
            r
        } else {
            let mut s = Self::u32_to_string(num / 10);
            s.append(digit_str(num % 10));
            proof {
                assert(decimal_of((num / 10) as int).push(decimal_digit((num % 10) as int)) =~=
                    decimal_of((num / 10) as int) + seq![decimal_digit((num % 10) as int)]);
                assert(s@ =~= decimal_of(num as int));
            }
            s
        }
    }

    /// A friendly greeting: the fixed salutation followed by the caller's
    /// word.
    pub fn hello(to: String) -> (r: Vec<String>)
        ensures
            r@.len() == 2,
            r@[0]@ == "Hello"@,
            r@[1] == to,
    {
        let mut words: Vec<String> = Vec::new();
        words.push(String::from_str("Hello"));
        words.push(to);
        words
    }

    /// Raw storage write into the `Agreement(id)` key space: stores the
    /// agreement under its identifier, replacing any previous entry.
    ///
    /// The agreement must be well formed and may not claim a payment count
    /// below an already recorded settlement of the same identifier.
    pub fn set_agreement(&mut self, agreement: RentAgreement)
        requires
            old(self).wf(),
            agreement.wf(),
            forall|i: int|
                (0 <= i < old(self).payment_records@.len()
                    && (#[trigger] old(self).payment_records@[i]).agreement_id@
                    == agreement.agreement_id@) ==> old(self).payment_records@[i].payment_number
                    <= agreement.payment_count,
        ensures
            final(self).wf(),
            find_agreement(final(self).agreements@, agreement.agreement_id@) == Some(agreement),
            forall|other: Seq<char>|
                other != agreement.agreement_id@ ==> #[trigger] find_agreement(
                    final(self).agreements@,
                    other,
                ) == find_agreement(old(self).agreements@, other),
            find_agreement(old(self).agreements@, agreement.agreement_id@) is None
                ==> final(self).agreements@ == old(self).agreements@.push(agreement),
            final(self).agreement_count == old(self).agreement_count,
            final(self).payments@ == old(self).payments@,
            final(self).payment_records@ == old(self).payment_records@,
            final(self).payment_count == old(self).payment_count,
    {
        let ghost pre = *self;
        let ghost id_view = agreement.agreement_id@;
        let n = self.agreements.len();
        let mut i: usize = 0;
        #[verifier::loop_isolation(false)]
        while i < n
            invariant
                *self == pre,
                n == self.agreements@.len(),
                i <= n,
                forall|j: int|
                    0 <= j < i ==> (#[trigger] self.agreements@[j]).agreement_id@ != id_view,
            decreases n - i,
        {
            if self.agreements[i].agreement_id == agreement.agreement_id {
                self.agreements[i] = agreement;
                proof {
                    let post_seq = self.agreements@;
                    assert(post_seq == pre.agreements@.update(i as int, post_seq[i as int]));
                    let a = post_seq[i as int];
                    lemma_find_first_found(post_seq, agreement_with(id_view), i as int);
                    assert forall|other: Seq<char>| other != id_view implies #[trigger] find_agreement(
                        post_seq,
                        other,
                    ) == find_agreement(pre.agreements@, other) by {
                        lemma_find_first_update_miss(
                            pre.agreements@,
                            agreement_with(other),
                            i as int,
                            a,
                        );
                    }
                    lemma_find_first_found(pre.agreements@, agreement_with(id_view), i as int);
                    assert forall|k: int| 0 <= k < self.payment_records@.len() implies record_linked(
                        post_seq,
                        #[trigger] self.payment_records@[k],
                    ) by {
                        let rec = self.payment_records@[k];
                        if rec.agreement_id@ != id_view {
                            lemma_find_first_update_miss(
                                pre.agreements@,
                                agreement_with(rec.agreement_id@),
                                i as int,
                                a,
                            );
                        }
                    }
                }
                return ;
            }
            i += 1;
        }
        proof {
            lemma_find_first_none(self.agreements@, agreement_with(id_view));
            lemma_find_first_characterizes(pre.agreements@, agreement_with(id_view));
            lemma_find_first_push(pre.agreements@, agreement_with(id_view), agreement);
        }
        self.agreements.push(agreement);
        proof {
            assert forall|other: Seq<char>| other != id_view implies #[trigger] find_agreement(
                self.agreements@,
                other,
            ) == find_agreement(pre.agreements@, other) by {
                lemma_find_first_push(pre.agreements@, agreement_with(other), agreement);
                lemma_find_first_characterizes(pre.agreements@, agreement_with(other));
                if find_agreement(pre.agreements@, other) is None {
                    lemma_find_first_none(self.agreements@, agreement_with(other));
                }
            }
            assert forall|k: int| 0 <= k < self.payment_records@.len() implies record_linked(
                self.agreements@,
                #[trigger] self.payment_records@[k],
            ) by {
                let rec = self.payment_records@[k];
                lemma_find_first_push(pre.agreements@, agreement_with(rec.agreement_id@), agreement);
            }
        }
    }

    /// Raw storage write into the `Payment(id)` audit key space: stores the
    /// record under the caller-chosen payment identifier, replacing any
    /// previous entry. Audit records carry a non-negative gross amount.
    pub fn set_payment(&mut self, payment_id: String, record: PaymentRecord)
        requires
            old(self).wf(),
            record.amount >= 0,
        ensures
            final(self).wf(),
            find_payment(final(self).payments@, payment_id@) == Some((payment_id, record)),
            forall|other: Seq<char>|
                other != payment_id@ ==> #[trigger] find_payment(final(self).payments@, other)
                    == find_payment(old(self).payments@, other),
            final(self).agreements@ == old(self).agreements@,
            final(self).agreement_count == old(self).agreement_count,
            final(self).payment_records@ == old(self).payment_records@,
            final(self).payment_count == old(self).payment_count,
    {
        let ghost pre = *self;
        let ghost id_view = payment_id@;
        let n = self.payments.len();
        let mut i: usize = 0;
        #[verifier::loop_isolation(false)]
        while i < n
            invariant
                *self == pre,
                n == self.payments@.len(),
                i <= n,
                forall|j: int| 0 <= j < i ==> (#[trigger] self.payments@[j]).0@ != id_view,
            decreases n - i,
        {
            if self.payments[i].0 == payment_id {
                self.payments[i] = (payment_id, record);
                proof {
                    let post_seq = self.payments@;
                    assert(post_seq == pre.payments@.update(i as int, post_seq[i as int]));
                    let e = post_seq[i as int];
                    lemma_find_first_found(post_seq, payment_with(id_view), i as int);
                    assert forall|other: Seq<char>| other != id_view implies #[trigger] find_payment(
                        post_seq,
                        other,
                    ) == find_payment(pre.payments@, other) by {
                        lemma_find_first_update_miss(
                            pre.payments@,
                            payment_with(other),
                            i as int,
                            e,
                        );
                    }
                }
                return ;
            }
            i += 1;
        }
        proof {
            lemma_find_first_none(self.payments@, payment_with(id_view));
            lemma_find_first_characterizes(pre.payments@, payment_with(id_view));
            lemma_find_first_push(pre.payments@, payment_with(id_view), (payment_id, record));
        }
        self.payments.push((payment_id, record));
        proof {
            assert forall|other: Seq<char>| other != id_view implies #[trigger] find_payment(
                self.payments@,
                other,
            ) == find_payment(pre.payments@, other) by {
                lemma_find_first_push(pre.payments@, payment_with(other), self.payments@.last());
                lemma_find_first_characterizes(pre.payments@, payment_with(other));
                if find_payment(pre.payments@, other) is None {
                    lemma_find_first_none(self.payments@, payment_with(other));
                }
            }
        }
    }

    /// Raw storage write of the global payment counter.
    pub fn set_payment_count(&mut self, count: u32)
        requires
            old(self).wf(),
        ensures
            final(self).wf(),
            final(self).payment_count == count,
            final(self).agreements@ == old(self).agreements@,
            final(self).agreement_count == old(self).agreement_count,
            final(self).payments@ == old(self).payments@,
            final(self).payment_records@ == old(self).payment_records@,
    {
        self.payment_count = count;
    }
}

/// An agreement identifier is taken for good: after a creation under some
/// identifier succeeds, every further creation attempt under that
/// identifier fails — with `AgreementAlreadyExists` whenever its
/// parameters pass validation — and by [`Contract::create_agreement`]'s
/// contract a failed attempt leaves the ledger, including the first
/// agreement, unchanged.
pub proof fn lemma_duplicate_creation_rejected(
    pre: Contract,
    post: Contract,
    a: RentAgreement,
    monthly_rent: i128,
    security_deposit: i128,
    start_date: u64,
    end_date: u64,
    agent_commission_rate: u32,
)
    requires
        create_post(pre, post, a),
    ensures
        create_result(
            post,
            a.agreement_id@,
            monthly_rent,
            security_deposit,
            start_date,
            end_date,
            agent_commission_rate,
        ) is Err,
        validate_spec(monthly_rent, security_deposit, start_date, end_date, agent_commission_rate)
            is Ok ==> create_result(
            post,
            a.agreement_id@,
            monthly_rent,
            security_deposit,
            start_date,
            end_date,
            agent_commission_rate,
        ) == Err::<(), Error>(Error::AgreementAlreadyExists),
{
    lemma_find_first_push(pre.agreements@, agreement_with(a.agreement_id@), a);
}

} // verus!

//! The payment processor: commission splitting and settlement of a single
//! rent payment against the ledger.

use vstd::prelude::*;

use crate::contract::{
    agreement_with, find_agreement, find_record, record_with, Contract,
};
use crate::search::{
    lemma_find_first_found, lemma_find_first_none, lemma_find_first_push,
    lemma_find_first_update_miss,
};
use crate::types::{AgreementStatus, Error, PaymentRecord, Principal, RentAgreement};

verus! {

/// The mathematical commission split: the agent receives the floor of
/// `amount * rate / 10000` (rate in basis points), the landlord the rest.
pub open spec fn split_spec(amount: int, rate: int) -> (int, int) {
    let agent = (amount * rate) / 10000;
    (amount - agent, agent)
}

/// Calculate the payment split for a gross amount and a commission rate in
/// basis points. Returns `(landlord_amount, agent_amount)`; the two shares
/// always reconstruct the gross amount exactly, with no remainder loss.
pub fn calculate_payment_split(amount: &i128, commission_rate: &u32) -> (r: (i128, i128))
    requires
        *amount >= 0,
        *commission_rate <= 10000,
        *amount * *commission_rate <= i128::MAX,
    ensures
        r.0 == split_spec(*amount as int, *commission_rate as int).0,
        r.1 == split_spec(*amount as int, *commission_rate as int).1,
        r.0 + r.1 == *amount,
        0 <= r.1 <= *amount,
        0 <= r.0 <= *amount,
{
    let a: u128 = *amount as u128;
    let rate: u128 = *commission_rate as u128;
    proof {
        assert(a * rate == *amount * *commission_rate) by (nonlinear_arith)
            requires
                a == *amount,
                rate == *commission_rate,
        ;
    }
    let product: u128 = a * rate;
    let agent_u: u128 = product / 10000;
    proof {
        assert(agent_u == (*amount * *commission_rate) / 10000);
        assert(0 <= agent_u <= *amount) by (nonlinear_arith)
            requires
                agent_u == (*amount * *commission_rate) / 10000,
                *amount >= 0,
                *commission_rate <= 10000,
        ;
    }
    let agent_amount: i128 = agent_u as i128;
    let landlord_amount: i128 = *amount - agent_amount;
    (landlord_amount, agent_amount)
}

/// For every non-negative gross amount and commission rate within the
/// basis-point scale, the split loses nothing: the two shares reconstruct
/// the gross amount exactly, the agent share is the floor of
/// `g * rate / 10000`, and both shares stay within `[0, g]`.
pub proof fn lemma_split_reconstructs_gross(g: int, rate: int)
    requires
        0 <= g,
        0 <= rate <= 10000,
    ensures
        split_spec(g, rate).0 + split_spec(g, rate).1 == g,
        split_spec(g, rate).1 == (g * rate) / 10000,
        0 <= split_spec(g, rate).1 <= g,
        0 <= split_spec(g, rate).0 <= g,
{
    assert(0 <= (g * rate) / 10000 <= g) by (nonlinear_arith)
        requires
            0 <= g,
            0 <= rate <= 10000,
    ;
}

/// Validation of a payment attempt of `amount` against agreement `id` on
/// ledger `pre`: the agreement must exist, be `Active`, and the amount must
/// match the monthly rent exactly — no partial or over-payments.
pub open spec fn pay_check(pre: Contract, id: Seq<char>, amount: i128) -> Result<(), Error> {
    match find_agreement(pre.agreements@, id) {
        None => Err(Error::PaymentNotFound),
        Some(a) => if !(a.status is Active) {
            Err(Error::AgreementNotActive)
        } else if amount != a.monthly_rent {
            Err(Error::InvalidAmount)
        } else {
            Ok(())
        },
    }
}

/// The agreement as updated by one successful payment of `amount`: the
/// gross amount is added to the running total and the payment counter is
/// incremented; every other field is untouched.
pub open spec fn paid_agreement(a: RentAgreement, amount: i128) -> RentAgreement {
    RentAgreement {
        total_rent_paid: (a.total_rent_paid + amount) as i128,
        payment_count: (a.payment_count + 1) as u32,
        ..a
    }
}

/// Field values of one settlement record.
pub open spec fn record_fields(
    r: PaymentRecord,
    id: Seq<char>,
    payment_number: u32,
    amount: i128,
    landlord_amount: i128,
    agent_amount: i128,
    timestamp: u64,
    tenant: Principal,
) -> bool {
    &&& r.agreement_id@ == id
    &&& r.payment_number == payment_number
    &&& r.amount == amount
    &&& r.landlord_amount == landlord_amount
    &&& r.agent_amount == agent_amount
    &&& r.timestamp == timestamp
    &&& r.tenant == tenant
}

/// The state transition of one successful payment settlement on agreement
/// `id`: the agreement's aggregates grow by exactly this payment, a fresh
/// settlement record is appended under the next sequence number, the global
/// payment counter is incremented, and nothing else changes.
pub open spec fn pay_post(
    pre: Contract,
    post: Contract,
    id: Seq<char>,
    amount: i128,
    timestamp: u64,
) -> bool {
    let a = find_agreement(pre.agreements@, id)->0;
    let split = split_spec(amount as int, a.agent_commission_rate as int);
    &&& find_agreement(post.agreements@, id) == Some(paid_agreement(a, amount))
    &&& forall|other: Seq<char>|
        other != id ==> #[trigger] find_agreement(post.agreements@, other) == find_agreement(
            pre.agreements@,
            other,
        )
    &&& post.agreements@.len() == pre.agreements@.len()
    &&& post.payment_records@.len() == pre.payment_records@.len() + 1
    &&& post.payment_records@ == pre.payment_records@.push(post.payment_records@.last())
    &&& record_fields(
        post.payment_records@.last(),
        id,
        (a.payment_count + 1) as u32,
        amount,
        split.0 as i128,
        split.1 as i128,
        timestamp,
        a.tenant,
    )
    &&& find_record(post.payment_records@, id, (a.payment_count + 1) as u32) == Some(
        post.payment_records@.last(),
    )
    &&& post.payments@ == pre.payments@
    &&& post.agreement_count == pre.agreement_count
    &&& post.payment_count == pre.payment_count + 1
}

/// The fund movements that one settled payment requires of the token
/// substrate: the tenant owes the landlord share, and the agent share
/// exactly when a second transfer is due — an agent is present and the
/// agent share is positive.
#[derive(Clone, Copy, Debug, PartialEq, Eq, Structural)]
pub struct Settlement {
    /// The paying tenant, source of both transfers.
    pub tenant: Principal,
    /// Recipient of the landlord share.
    pub landlord: Principal,
    /// Recipient of the second transfer, present iff one is due.
    pub agent: Option<Principal>,
    /// The landlord share of the gross amount.
    pub landlord_amount: i128,
    /// The agent share of the gross amount.
    pub agent_amount: i128,
}

/// Build an immutable settlement record.
fn create_payment_record(
    agreement_id: &String,
    amount: i128,
    landlord_amount: i128,
    agent_amount: i128,
    tenant: Principal,
    payment_number: u32,
    timestamp: u64,
) -> (r: PaymentRecord)
    ensures
        record_fields(
            r,
            agreement_id@,
            payment_number,
            amount,
            landlord_amount,
            agent_amount,
            timestamp,
            tenant,
        ),
{
    PaymentRecord {
        agreement_id: agreement_id.clone(),
        payment_number,
        amount,
        landlord_amount,
        agent_amount,
        timestamp,
        tenant,
    }
}

/// The terms an agreement imposes on a payment attempt: only an `Active`
/// agreement accepts payments, and only of exactly the monthly rent.
pub fn check_payment_terms(status: &AgreementStatus, monthly_rent: i128, amount: i128) -> (r:
    Result<(), Error>)
    ensures
        r == (if !(*status is Active) {
            Err::<(), Error>(Error::AgreementNotActive)
        } else if amount != monthly_rent {
            Err::<(), Error>(Error::InvalidAmount)
        } else {
            Ok::<(), Error>(())
        }),
{
    if *status != AgreementStatus::Active {
        return Err(Error::AgreementNotActive);
    }
    if amount != monthly_rent {
        return Err(Error::InvalidAmount);
    }
    Ok(())
}

/// Settle one rent payment against a single agreement value: validates
/// the terms, computes the split, and returns the updated agreement, the
/// new settlement record and the owed fund transfers. The ledger-level
/// [`RentalContract::pay_rent`] persists exactly these values; a host
/// shell holding the agreement elsewhere may do the same.
pub fn settle(agreement: RentAgreement, amount: i128, timestamp: u64) -> (r: Result<
    (RentAgreement, PaymentRecord, Settlement),
    Error,
>)
    requires
        agreement.wf(),
        (agreement.status is Active && amount == agreement.monthly_rent) ==> {
            &&& agreement.monthly_rent * agreement.agent_commission_rate <= i128::MAX
            &&& agreement.total_rent_paid + amount <= i128::MAX
            &&& agreement.payment_count < u32::MAX
        },
    ensures
        r is Ok <==> (agreement.status is Active && amount == agreement.monthly_rent),
        !(agreement.status is Active) ==> r == Err::<(RentAgreement, PaymentRecord, Settlement),
            Error,
        >(Error::AgreementNotActive),
        agreement.status is Active && amount != agreement.monthly_rent ==> r == Err::<
            (RentAgreement, PaymentRecord, Settlement),
            Error,
        >(Error::InvalidAmount),
        r matches Ok(t) ==> {
            let split = split_spec(amount as int, agreement.agent_commission_rate as int);
            &&& t.0 == paid_agreement(agreement, amount)
            &&& record_fields(
                t.1,
                agreement.agreement_id@,
                (agreement.payment_count + 1) as u32,
                amount,
                split.0 as i128,
                split.1 as i128,
                timestamp,
                agreement.tenant,
            )
            &&& t.2.tenant == agreement.tenant
            &&& t.2.landlord == agreement.landlord
            &&& t.2.landlord_amount == split.0
            &&& t.2.agent_amount == split.1
            &&& t.2.agent == (if agreement.agent is Some && split.1 > 0 {
                agreement.agent
            } else {
                None::<Principal>
            })
        },
{
    if let Err(e) = check_payment_terms(&agreement.status, agreement.monthly_rent, amount) {
        return Err(e);
    }

    // Calculate the payment split.
    let rate = agreement.agent_commission_rate;
    let (landlord_amount, agent_amount) = calculate_payment_split(&amount, &rate);

    // Build the settlement record under the next sequence number.
    let payment_number = agreement.payment_count + 1;
    let record = create_payment_record(
        &agreement.agreement_id,
        amount,
        landlord_amount,
        agent_amount,
        agreement.tenant,
        payment_number,
        timestamp,
    );

    // The transfers owed by this settlement; the agent share moves only
    // when an agent is present and the share is positive.
    let settlement = Settlement {
        tenant: agreement.tenant,
        landlord: agreement.landlord,
        agent: if agent_amount > 0 {
            agreement.agent
        } else {
            None
        },
        landlord_amount,
        agent_amount,
    };

    // Update the agreement aggregates.
    let total_rent_paid = agreement.total_rent_paid + amount;
    let updated = RentAgreement { total_rent_paid, payment_count: payment_number, ..agreement };

    Ok((updated, record, settlement))
}

/// The payment processor: settlement of rent payments against the ledger.
/// Agreement creation and the query layer live on [`Contract`].
pub struct RentalContract;

impl RentalContract {
    /// Process one rent payment with automatic commission splitting.
    ///
    /// The caller must have been authenticated as the agreement's tenant by
    /// the substrate. On success the agreement's aggregates, the new
    /// settlement record and the global payment counter are persisted as
    /// one atomic unit, and the returned [`Settlement`] names the fund
    /// transfers the token substrate must perform within the same unit;
    /// if either transfer is impossible the substrate aborts the whole
    /// invocation, discarding the state change. On any error the ledger is
    /// unchanged.
    pub fn pay_rent(
        contract: &mut Contract,
        agreement_id: &String,
        amount: i128,
        timestamp: u64,
    ) -> (r: Result<Settlement, Error>)
        requires
            old(contract).wf(),
            pay_check(*old(contract), agreement_id@, amount) is Ok ==> {
                let a = find_agreement(old(contract).agreements@, agreement_id@)->0;
                &&& a.monthly_rent * a.agent_commission_rate <= i128::MAX
                &&& a.total_rent_paid + amount <= i128::MAX
                &&& a.payment_count < u32::MAX
                &&& old(contract).payment_count < u32::MAX
            },
        ensures
            final(contract).wf(),
            r is Ok <==> pay_check(*old(contract), agreement_id@, amount) is Ok,
            pay_check(*old(contract), agreement_id@, amount) matches Err(e) ==> r == Err::<
                Settlement,
                Error,
            >(e) && *final(contract) == *old(contract),
            r is Ok ==> pay_post(*old(contract), *final(contract), agreement_id@, amount, timestamp),
            r matches Ok(st) ==> {
                let a = find_agreement(old(contract).agreements@, agreement_id@)->0;
                let split = split_spec(amount as int, a.agent_commission_rate as int);
                &&& st.tenant == a.tenant
                &&& st.landlord == a.landlord
                &&& st.landlord_amount == split.0
                &&& st.agent_amount == split.1
                &&& st.agent == (if a.agent is Some && split.1 > 0 {
                    a.agent
                } else {
                    None::<Principal>
                })
                &&& st.landlord_amount + st.agent_amount == amount
                &&& st.landlord_amount >= 0 && st.agent_amount >= 0
            },
    {
        let ghost pre = *contract;
        let ghost id_view = agreement_id@;

        // Load the agreement.
        let idx = match contract.agreement_index(agreement_id) {
            None => {
                return Err(Error::PaymentNotFound);
            },
            Some(i) => i,
        };
        let ghost a = pre.agreements@[idx as int];
        assert(a.wf());

        // Settle against the loaded agreement: terms, split, updated
        // aggregates, record and owed transfers all come from `settle`.
        let current = contract.agreements[idx].clone();
        let (updated, record, settlement) = match settle(current, amount, timestamp) {
            Err(e) => {
                return Err(e);
            },
            Ok(t) => t,
        };
        assert(pay_check(pre, id_view, amount) is Ok);
        proof {
            lemma_split_reconstructs_gross(amount as int, a.agent_commission_rate as int);
        }
        let ghost record_g = record;
        let ghost payment_number = (a.payment_count + 1) as u32;

        // Persist the updated agreement, the settlement record, and the
        // bumped global counter.
        contract.agreements[idx] = updated;
        contract.payment_records.push(record);
        contract.payment_count = contract.payment_count + 1;

        proof {
            let post = *contract;
            assert(post.agreements@ == pre.agreements@.update(
                idx as int,
                post.agreements@[idx as int],
            ));
            let upd = post.agreements@[idx as int];
            assert(upd == paid_agreement(a, amount));
            lemma_find_first_found(post.agreements@, agreement_with(id_view), idx as int);
            assert forall|other: Seq<char>| other != id_view implies #[trigger] find_agreement(
                post.agreements@,
                other,
            ) == find_agreement(pre.agreements@, other) by {
                lemma_find_first_update_miss(pre.agreements@, agreement_with(other), idx as int, upd);
            }
            // The new record's key is fresh: recorded settlements of this
            // agreement stop at its payment count.
            assert forall|k: int| 0 <= k < pre.payment_records@.len() implies !(record_with(
                id_view,
                payment_number,
            )(#[trigger] pre.payment_records@[k])) by {
                let rec = pre.payment_records@[k];
                if rec.agreement_id@ == id_view {
                    assert(rec.payment_number <= a.payment_count);
                }
            }
            lemma_find_first_none(pre.payment_records@, record_with(id_view, payment_number));
            lemma_find_first_push(
                pre.payment_records@,
                record_with(id_view, payment_number),
                record_g,
            );
            // Well-formedness of the new ledger.
            assert forall|k: int| 0 <= k < post.payment_records@.len() implies
                crate::contract::record_linked(post.agreements@, #[trigger] post.payment_records@[k])
            by {
                let rec = post.payment_records@[k];
                if k < pre.payment_records@.len() {
                    assert(crate::contract::record_linked(pre.agreements@, rec));
                    if rec.agreement_id@ != id_view {
                        lemma_find_first_update_miss(
                            pre.agreements@,
                            agreement_with(rec.agreement_id@),
                            idx as int,
                            upd,
                        );
                    }
                }
            }
        }
        Ok(settlement)
    }
}

/// Two successive settled payments of 1000 on a fresh, commission-free
/// active agreement leave the agreement accounting a total of 2000 over
/// two payments, with two distinct settlement records stored at sequence
/// numbers 1 and 2.
pub proof fn lemma_two_payments(
    s0: Contract,
    s1: Contract,
    s2: Contract,
    id: Seq<char>,
    t1: u64,
    t2: u64,
)
    requires
        s0.wf(),
        find_agreement(s0.agreements@, id) matches Some(a) && (a.status is Active
            && a.agent_commission_rate == 0 && a.total_rent_paid == 0 && a.payment_count == 0
            && a.monthly_rent == 1000),
        pay_post(s0, s1, id, 1000, t1),
        pay_post(s1, s2, id, 1000, t2),
    ensures
        find_agreement(s2.agreements@, id) matches Some(b) && b.total_rent_paid == 2000
            && b.payment_count == 2,
        find_record(s2.payment_records@, id, 1) is Some,
        find_record(s2.payment_records@, id, 2) is Some,
        find_record(s2.payment_records@, id, 1) != find_record(s2.payment_records@, id, 2),
{
    let a = find_agreement(s0.agreements@, id)->0;
    let a1 = paid_agreement(a, 1000);
    assert(find_agreement(s1.agreements@, id) == Some(a1));
    let a2 = paid_agreement(a1, 1000);
    assert(find_agreement(s2.agreements@, id) == Some(a2));
    assert(a2.total_rent_paid == 2000 && a2.payment_count == 2);

    let r1 = s1.payment_records@.last();
    let r2 = s2.payment_records@.last();
    assert(r1.payment_number == 1 && r2.payment_number == 2);
    assert(find_record(s1.payment_records@, id, 1) == Some(r1));
    assert(find_record(s2.payment_records@, id, 2) == Some(r2));
    lemma_find_first_push(s1.payment_records@, record_with(id, 1), r2);
    assert(find_record(s2.payment_records@, id, 1) == Some(r1));
}

} // verus!

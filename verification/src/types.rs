//! Data model of the ledger: principals, agreements, payment records,
//! the error taxonomy and the storage-key addressing scheme.

use vstd::prelude::*;

verus! {

/// An externally verifiable identity (tenant, landlord, agent, admin).
///
/// The execution substrate authenticates principals; the ledger core only
/// stores and compares their identifiers, so a principal is modelled as a
/// plain numeric identifier.
#[derive(Clone, Copy, Debug, PartialEq, Eq, Structural)]
pub struct Principal(pub u64);

/// Lifecycle states of a rent agreement.
///
/// Creation always produces `Draft`; only `Active` permits payment
/// processing. Transitions between the remaining states are performed by an
/// external administrative collaborator and are not part of this core.
#[derive(Clone, Copy, Debug, PartialEq, Eq, Structural)]
pub enum AgreementStatus {
    Draft,
    Pending,
    Active,
    Completed,
    Cancelled,
    Terminated,
    Disputed,
}

/// Errors of the agreement and payment operations.
///
/// Every error is surfaced synchronously to the caller and means that the
/// operation had no effect on the ledger.
#[derive(Clone, Copy, Debug, PartialEq, Eq, Structural)]
pub enum Error {
    /// An agreement with the requested identifier already exists.
    AgreementAlreadyExists,
    /// Non-positive rent, negative deposit, or a payment amount that does
    /// not match the agreement's monthly rent.
    InvalidAmount,
    /// The start date of an agreement does not precede its end date.
    InvalidDate,
    /// The agent commission rate is out of bounds.
    InvalidCommissionRate,
    /// Payment was attempted on an agreement that is not `Active`.
    AgreementNotActive,
    /// Lookup miss: no payment record under the requested key, or no
    /// agreement under the identifier given to payment processing.
    PaymentNotFound,
    /// An external fund transfer could not be completed.
    PaymentFailed,
}

/// A rent contract between a tenant and a landlord, optionally with a
/// commissioned agent.
///
/// `start_date < end_date` is checked only at creation and is not an
/// invariant of stored agreements. The commission rate is validated against
/// a 0-100 percentage scale at creation, while payment splitting interprets
/// the stored rate in basis points (0-10000); stored agreements therefore
/// only promise the basis-point bound, which is what the splitter needs.
#[derive(Debug)]
pub struct RentAgreement {
    pub agreement_id: String,
    pub landlord: Principal,
    pub tenant: Principal,
    pub agent: Option<Principal>,
    pub monthly_rent: i128,
    pub security_deposit: i128,
    pub start_date: u64,
    pub end_date: u64,
    pub agent_commission_rate: u32,
    pub status: AgreementStatus,
    pub total_rent_paid: i128,
    pub payment_count: u32,
}

impl RentAgreement {
    /// Well-formedness of a stored agreement.
    pub open spec fn wf(self) -> bool {
        &&& self.monthly_rent > 0
        &&& self.security_deposit >= 0
        &&& self.agent_commission_rate <= 10000
        &&& self.total_rent_paid >= 0
    }
}

impl Clone for RentAgreement {
    fn clone(&self) -> (r: Self)
        ensures
            r == *self,
    {
        RentAgreement {
            agreement_id: self.agreement_id.clone(),
            landlord: self.landlord,
            tenant: self.tenant,
            agent: self.agent,
            monthly_rent: self.monthly_rent,
            security_deposit: self.security_deposit,
            start_date: self.start_date,
            end_date: self.end_date,
            agent_commission_rate: self.agent_commission_rate,
            status: self.status,
            total_rent_paid: self.total_rent_paid,
            payment_count: self.payment_count,
        }
    }
}

/// An immutable record of one settled rent payment.
///
/// Records created by the payment processor satisfy
/// `landlord_amount + agent_amount == amount`; records written directly to
/// the store (for audit reconstruction) only promise a non-negative gross
/// amount.
#[derive(Debug)]
pub struct PaymentRecord {
    pub agreement_id: String,
    pub payment_number: u32,
    pub amount: i128,
    pub landlord_amount: i128,
    pub agent_amount: i128,
    pub timestamp: u64,
    pub tenant: Principal,
}

impl Clone for PaymentRecord {
    fn clone(&self) -> (r: Self)
        ensures
            r == *self,
    {
        PaymentRecord {
            agreement_id: self.agreement_id.clone(),
            payment_number: self.payment_number,
            amount: self.amount,
            landlord_amount: self.landlord_amount,
            agent_amount: self.agent_amount,
            timestamp: self.timestamp,
            tenant: self.tenant,
        }
    }
}

/// Storage keys: the closed set of logical entities the ledger persists.
///
/// Each variant carries exactly the fields that make the addressed entity
/// unique, so two keys address the same slot iff they agree on the variant
/// tag and on every field ([`key_eq`], proved in
/// [`lemma_no_key_collision`]).
#[derive(Debug)]
pub enum DataKey {
    /// An agreement, addressed by its caller-chosen identifier.
    Agreement(String),
    /// The global count of agreements ever created.
    AgreementCount,
    /// A payment record in the audit key range, addressed by a payment
    /// identifier string.
    Payment(String),
    /// A payment record addressed by agreement identifier and sequence
    /// number.
    PaymentRecord(String, u32),
    /// The global count of payments ever settled.
    PaymentCount,
}

/// Two storage keys are equal iff their variant tags and all fields are
/// equal; string fields compare by contents.
pub open spec fn key_eq(k1: DataKey, k2: DataKey) -> bool {
    match (k1, k2) {
        (DataKey::Agreement(a), DataKey::Agreement(b)) => a@ == b@,
        (DataKey::AgreementCount, DataKey::AgreementCount) => true,
        (DataKey::Payment(a), DataKey::Payment(b)) => a@ == b@,
        (DataKey::PaymentRecord(a, m), DataKey::PaymentRecord(b, n)) => a@ == b@ && m == n,
        (DataKey::PaymentCount, DataKey::PaymentCount) => true,
        _ => false,
    }
}

impl PartialEq for DataKey {
    fn eq(&self, other: &DataKey) -> (r: bool) {
        match (self, other) {
            (DataKey::Agreement(a), DataKey::Agreement(b)) => *a == *b,
            (DataKey::AgreementCount, DataKey::AgreementCount) => true,
            (DataKey::Payment(a), DataKey::Payment(b)) => *a == *b,
            (DataKey::PaymentRecord(a, m), DataKey::PaymentRecord(b, n)) => *a == *b && *m == *n,
            (DataKey::PaymentCount, DataKey::PaymentCount) => true,
            _ => false,
        }
    }
}

impl vstd::std_specs::cmp::PartialEqSpecImpl for DataKey {
    open spec fn obeys_eq_spec() -> bool {
        true
    }

    open spec fn eq_spec(&self, other: &DataKey) -> bool {
        key_eq(*self, *other)
    }
}

/// Storage addressing discipline: keys of distinct variants never collide,
/// and keys of the same variant collide only when every field agrees. No
/// two distinct logical entities can therefore share a storage slot.
pub proof fn lemma_no_key_collision(k1: DataKey, k2: DataKey)
    ensures
        key_eq(k1, k2) ==> (k1 is Agreement <==> k2 is Agreement),
        key_eq(k1, k2) ==> (k1 is AgreementCount <==> k2 is AgreementCount),
        key_eq(k1, k2) ==> (k1 is Payment <==> k2 is Payment),
        key_eq(k1, k2) ==> (k1 is PaymentRecord <==> k2 is PaymentRecord),
        key_eq(k1, k2) ==> (k1 is PaymentCount <==> k2 is PaymentCount),
        k1 matches DataKey::Agreement(a) ==> (k2 matches DataKey::Agreement(b) ==> (key_eq(k1, k2)
            <==> a@ == b@)),
        k1 matches DataKey::Payment(a) ==> (k2 matches DataKey::Payment(b) ==> (key_eq(k1, k2)
            <==> a@ == b@)),
        k1 matches DataKey::PaymentRecord(a, m) ==> (k2 matches DataKey::PaymentRecord(b, n) ==> (
        key_eq(k1, k2) <==> a@ == b@ && m == n)),
{
    match (k1, k2) {
        (DataKey::Agreement(a), DataKey::Agreement(b)) => {
            assert(key_eq(k1, k2) <==> a@ == b@);
        },
        (DataKey::Payment(a), DataKey::Payment(b)) => {
            assert(key_eq(k1, k2) <==> a@ == b@);
        },
        (DataKey::PaymentRecord(a, m), DataKey::PaymentRecord(b, n)) => {
            assert(key_eq(k1, k2) <==> a@ == b@ && m == n);
        },
        _ => {},
    }
}

} // verus!

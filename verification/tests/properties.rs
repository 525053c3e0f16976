use chioma::contract::Contract;
use chioma::payment::{calculate_payment_split, RentalContract};
use chioma::registry::{ContractState, PropertyError, PropertyRegistryContract};
use chioma::types::{AgreementStatus, DataKey, Error, PaymentRecord, Principal, RentAgreement};

fn active_agreement(
    id: &str,
    agent: Option<Principal>,
    monthly_rent: i128,
    commission_rate: u32,
    status: AgreementStatus,
) -> RentAgreement {
    RentAgreement {
        agreement_id: String::from(id),
        landlord: Principal(2),
        tenant: Principal(1),
        agent,
        monthly_rent,
        security_deposit: 0,
        start_date: 0,
        end_date: 0,
        agent_commission_rate: commission_rate,
        status,
        total_rent_paid: 0,
        payment_count: 0,
    }
}

#[test]
fn test_validate_agreement_params_cases() {
    assert_eq!(
        Contract::validate_agreement_params(&-100, &0, &100, &200, &0),
        Err(Error::InvalidAmount)
    );
    assert_eq!(
        Contract::validate_agreement_params(&0, &0, &100, &200, &0),
        Err(Error::InvalidAmount)
    );
    assert_eq!(
        Contract::validate_agreement_params(&1000, &-1, &100, &200, &0),
        Err(Error::InvalidAmount)
    );
    assert_eq!(
        Contract::validate_agreement_params(&1000, &0, &200, &100, &0),
        Err(Error::InvalidDate)
    );
    assert_eq!(
        Contract::validate_agreement_params(&1000, &0, &100, &100, &0),
        Err(Error::InvalidDate)
    );
    assert_eq!(
        Contract::validate_agreement_params(&1000, &0, &100, &200, &101),
        Err(Error::InvalidCommissionRate)
    );
    assert_eq!(Contract::validate_agreement_params(&1000, &0, &100, &200, &100), Ok(()));
    assert_eq!(Contract::validate_agreement_params(&1, &0, &0, &1, &0), Ok(()));
}

#[test]
fn test_split_edge_cases() {
    // Zero gross amount
    assert_eq!(calculate_payment_split(&0, &0), (0, 0));
    assert_eq!(calculate_payment_split(&0, &10000), (0, 0));
    // Full commission: everything goes to the agent share
    assert_eq!(calculate_payment_split(&1000, &10000), (0, 1000));
    // Floor division: 1 * 9999 / 10000 rounds down to zero
    assert_eq!(calculate_payment_split(&1, &9999), (1, 0));
    // Exact formula: 999 * 250 / 10000 = 24 (floored)
    assert_eq!(calculate_payment_split(&999, &250), (975, 24));
}

#[test]
fn test_commission_rate_scale() {
    // Creation validates the rate on a 0-100 percentage scale, while the
    // splitter interprets the stored rate in basis points: a stored rate
    // of 10 splits off 0.1%, not 10%.
    let mut contract = Contract::new();
    contract
        .create_agreement(
            String::from("SCALE"),
            Principal(2),
            Principal(1),
            Some(Principal(3)),
            1000,
            0,
            100,
            200,
            10,
        )
        .unwrap();
    let stored = contract.get_agreement(&String::from("SCALE")).unwrap();
    assert_eq!(stored.agent_commission_rate, 10);
    assert_eq!(calculate_payment_split(&1000, &10), (999, 1));
}

#[test]
fn test_pay_rent_unknown_agreement() {
    let mut contract = Contract::new();
    let result = RentalContract::pay_rent(&mut contract, &String::from("MISSING"), 1000, 0);
    assert_eq!(result, Err(Error::PaymentNotFound));
}

#[test]
fn test_pay_rent_not_active_preserves_state() {
    let mut contract = Contract::new();
    contract.set_agreement(active_agreement("AGR_D", None, 1000, 0, AgreementStatus::Draft));

    let result = RentalContract::pay_rent(&mut contract, &String::from("AGR_D"), 1000, 7);
    assert_eq!(result, Err(Error::AgreementNotActive));

    let stored = contract.get_agreement(&String::from("AGR_D")).unwrap();
    assert_eq!(stored.total_rent_paid, 0);
    assert_eq!(stored.payment_count, 0);
    assert_eq!(contract.get_payment_count(), 0);
    assert!(contract.get_payment_record(&String::from("AGR_D"), 1).is_none());
}

#[test]
fn test_pay_rent_wrong_amount_preserves_state() {
    let mut contract = Contract::new();
    contract.set_agreement(active_agreement("AGR_W", None, 1000, 0, AgreementStatus::Active));

    let result = RentalContract::pay_rent(&mut contract, &String::from("AGR_W"), 1001, 7);
    assert_eq!(result, Err(Error::InvalidAmount));

    let stored = contract.get_agreement(&String::from("AGR_W")).unwrap();
    assert_eq!(stored.total_rent_paid, 0);
    assert_eq!(stored.payment_count, 0);
    assert_eq!(contract.get_payment_count(), 0);
}

#[test]
fn test_settlement_with_agent_share() {
    let mut contract = Contract::new();
    contract.set_agreement(active_agreement(
        "AGR_A",
        Some(Principal(3)),
        1000,
        500,
        AgreementStatus::Active,
    ));

    let settlement =
        RentalContract::pay_rent(&mut contract, &String::from("AGR_A"), 1000, 7).unwrap();
    assert_eq!(settlement.tenant, Principal(1));
    assert_eq!(settlement.landlord, Principal(2));
    assert_eq!(settlement.landlord_amount, 950);
    assert_eq!(settlement.agent_amount, 50);
    // A positive agent share with an agent present owes a second transfer
    assert_eq!(settlement.agent, Some(Principal(3)));
}

#[test]
fn test_settlement_zero_agent_share() {
    let mut contract = Contract::new();
    contract.set_agreement(active_agreement(
        "AGR_Z",
        Some(Principal(3)),
        1000,
        0,
        AgreementStatus::Active,
    ));

    let settlement =
        RentalContract::pay_rent(&mut contract, &String::from("AGR_Z"), 1000, 7).unwrap();
    assert_eq!(settlement.landlord_amount, 1000);
    assert_eq!(settlement.agent_amount, 0);
    // A zero agent share owes no second transfer even with an agent present
    assert_eq!(settlement.agent, None);
}

#[test]
fn test_settlement_no_agent() {
    let mut contract = Contract::new();
    contract.set_agreement(active_agreement("AGR_N", None, 1000, 500, AgreementStatus::Active));

    let settlement =
        RentalContract::pay_rent(&mut contract, &String::from("AGR_N"), 1000, 7).unwrap();
    // The agent share is split off but has no recipient: no second
    // transfer happens and only the landlord share moves.
    assert_eq!(settlement.landlord_amount, 950);
    assert_eq!(settlement.agent_amount, 50);
    assert_eq!(settlement.agent, None);
}

#[test]
fn test_payment_record_fields() {
    let mut contract = Contract::new();
    contract.set_agreement(active_agreement(
        "AGR_F",
        Some(Principal(3)),
        2000,
        250,
        AgreementStatus::Active,
    ));

    RentalContract::pay_rent(&mut contract, &String::from("AGR_F"), 2000, 99).unwrap();

    let record = contract.get_payment_record(&String::from("AGR_F"), 1).unwrap();
    assert_eq!(record.agreement_id, String::from("AGR_F"));
    assert_eq!(record.payment_number, 1);
    assert_eq!(record.amount, 2000);
    assert_eq!(record.landlord_amount, 1950);
    assert_eq!(record.agent_amount, 50);
    assert_eq!(record.timestamp, 99);
    assert_eq!(record.tenant, Principal(1));
    assert_eq!(contract.get_payment_count(), 1);
}

#[test]
fn test_storage_key_equality() {
    assert_eq!(DataKey::Agreement(String::from("a")), DataKey::Agreement(String::from("a")));
    assert_ne!(DataKey::Agreement(String::from("a")), DataKey::Agreement(String::from("b")));
    assert_ne!(DataKey::Agreement(String::from("a")), DataKey::Payment(String::from("a")));
    assert_ne!(DataKey::Agreement(String::from("a")), DataKey::AgreementCount);
    assert_eq!(DataKey::Payment(String::from("p")), DataKey::Payment(String::from("p")));
    assert_eq!(
        DataKey::PaymentRecord(String::from("a"), 1),
        DataKey::PaymentRecord(String::from("a"), 1)
    );
    assert_ne!(
        DataKey::PaymentRecord(String::from("a"), 1),
        DataKey::PaymentRecord(String::from("a"), 2)
    );
    assert_ne!(
        DataKey::PaymentRecord(String::from("a"), 1),
        DataKey::PaymentRecord(String::from("b"), 1)
    );
    assert_ne!(DataKey::AgreementCount, DataKey::PaymentCount);
}

#[test]
fn test_get_total_paid_two_digit_positions() {
    // Every scan position derives its decimal identifier, so a record
    // stored under a two-digit identifier within the scanned range is
    // counted exactly once, and a record under a non-numeric identifier
    // is never probed.
    let mut contract = Contract::new();
    let payment = PaymentRecord {
        agreement_id: String::from("AGR_X"),
        payment_number: 11,
        amount: 7,
        landlord_amount: 0,
        agent_amount: 0,
        timestamp: 0,
        tenant: Principal(9),
    };
    contract.set_payment(String::from("11"), payment);
    let stray = PaymentRecord {
        agreement_id: String::from("AGR_X"),
        payment_number: 0,
        amount: 5,
        landlord_amount: 0,
        agent_amount: 0,
        timestamp: 0,
        tenant: Principal(9),
    };
    contract.set_payment(String::from("not_a_number"), stray);
    contract.set_payment_count(13);

    let total = contract.get_total_paid(&String::from("AGR_X")).unwrap();
    assert_eq!(total, 7);
}

#[test]
fn test_registry_initialize_once() {
    let mut registry = PropertyRegistryContract::new();
    assert!(registry.get_state().is_none());

    registry.initialize(Principal(7)).unwrap();
    assert_eq!(
        registry.get_state(),
        Some(ContractState { admin: Principal(7), initialized: true })
    );

    let result = registry.initialize(Principal(8));
    assert_eq!(result, Err(PropertyError::AlreadyInitialized));
    // The first admin is preserved
    assert_eq!(
        registry.get_state(),
        Some(ContractState { admin: Principal(7), initialized: true })
    );
}

#[test]
fn test_agreement_count_increments() {
    let mut contract = Contract::new();
    contract
        .create_agreement(String::from("A1"), Principal(2), Principal(1), None, 1, 0, 0, 1, 0)
        .unwrap();
    contract
        .create_agreement(String::from("A2"), Principal(2), Principal(1), None, 1, 0, 0, 1, 0)
        .unwrap();
    assert_eq!(contract.get_agreement_count(), 2);
    assert!(contract.has_agreement(&String::from("A1")));
    assert!(contract.has_agreement(&String::from("A2")));
    assert!(!contract.has_agreement(&String::from("A3")));
}

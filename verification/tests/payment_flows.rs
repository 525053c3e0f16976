use chioma::contract::Contract;
use chioma::payment::{calculate_payment_split, RentalContract};
use chioma::types::{AgreementStatus, Principal, RentAgreement};

// Helper function to create a test agreement
fn create_test_agreement(
    id: &str,
    tenant: Principal,
    landlord: Principal,
    agent: Option<Principal>,
    monthly_rent: i128,
    commission_rate: u32,
    status: AgreementStatus,
) -> RentAgreement {
    RentAgreement {
        agreement_id: String::from(id),
        tenant,
        landlord,
        agent,
        monthly_rent,
        agent_commission_rate: commission_rate,
        status,
        total_rent_paid: 0,
        payment_count: 0,
        security_deposit: 0,
        start_date: 0,
        end_date: 0,
    }
}

#[test]
fn payment_tests_test_pay_rent_without_agent() {
    let mut contract = Contract::new();
    let tenant = Principal(1);
    let landlord = Principal(2);

    let agreement = create_test_agreement(
        "agreement_1",
        tenant,
        landlord,
        None,
        1000,
        0,
        AgreementStatus::Active,
    );
    contract.set_agreement(agreement);

    let result = RentalContract::pay_rent(&mut contract, &String::from("agreement_1"), 1000, 0);

    assert!(result.is_ok());
}

#[test]
fn payment_tests_test_pay_rent_with_agent_commission() {
    let mut contract = Contract::new();
    let tenant = Principal(1);
    let landlord = Principal(2);
    let agent = Principal(3);

    let agreement = create_test_agreement(
        "agreement_2",
        tenant,
        landlord,
        Some(agent),
        1000,
        500, // 5% commission
        AgreementStatus::Active,
    );
    contract.set_agreement(agreement);

    let result = RentalContract::pay_rent(&mut contract, &String::from("agreement_2"), 1000, 0);

    assert!(result.is_ok());

    // Verify split: 950 to landlord, 50 to agent
    let (landlord_amt, agent_amt) = calculate_payment_split(&1000, &500);
    assert_eq!(landlord_amt, 950);
    assert_eq!(agent_amt, 50);
}

#[test]
fn payment_tests_test_payment_record_created() {
    let mut contract = Contract::new();
    let tenant = Principal(1);
    let landlord = Principal(2);

    let agreement = create_test_agreement(
        "agreement_3",
        tenant,
        landlord,
        None,
        1000,
        0,
        AgreementStatus::Active,
    );
    contract.set_agreement(agreement);

    RentalContract::pay_rent(&mut contract, &String::from("agreement_3"), 1000, 0).unwrap();

    // Verify payment record exists
    let record = contract.get_payment_record(&String::from("agreement_3"), 1);

    assert!(record.is_some());
    let record = record.unwrap();
    assert_eq!(record.amount, 1000);
    assert_eq!(record.payment_number, 1);
}

#[test]
#[should_panic(expected = "InvalidAmount")]
fn payment_tests_test_wrong_rent_amount() {
    let mut contract = Contract::new();
    let tenant = Principal(1);
    let landlord = Principal(2);

    let agreement = create_test_agreement(
        "agreement_4",
        tenant,
        landlord,
        None,
        1000,
        0,
        AgreementStatus::Active,
    );
    contract.set_agreement(agreement);

    // Try to pay wrong amount
    RentalContract::pay_rent(&mut contract, &String::from("agreement_4"), 900, 0).unwrap();
}

#[test]
#[should_panic(expected = "AgreementNotActive")]
fn payment_tests_test_pay_rent_before_deposit() {
    let mut contract = Contract::new();
    let tenant = Principal(1);
    let landlord = Principal(2);

    let agreement = create_test_agreement(
        "agreement_5",
        tenant,
        landlord,
        None,
        1000,
        0,
        AgreementStatus::Pending, // Not active
    );
    contract.set_agreement(agreement);

    RentalContract::pay_rent(&mut contract, &String::from("agreement_5"), 1000, 0).unwrap();
}

#[test]
fn payment_tests_test_multiple_rent_payments() {
    let mut contract = Contract::new();
    let tenant = Principal(1);
    let landlord = Principal(2);

    let agreement = create_test_agreement(
        "agreement_6",
        tenant,
        landlord,
        None,
        1000,
        0,
        AgreementStatus::Active,
    );
    contract.set_agreement(agreement);

    // First payment
    RentalContract::pay_rent(&mut contract, &String::from("agreement_6"), 1000, 0).unwrap();

    // Second payment
    RentalContract::pay_rent(&mut contract, &String::from("agreement_6"), 1000, 0).unwrap();

    // Verify agreement totals
    let updated_agreement = contract.get_agreement(&String::from("agreement_6")).unwrap();

    assert_eq!(updated_agreement.total_rent_paid, 2000);
    assert_eq!(updated_agreement.payment_count, 2);

    // Verify both payment records exist
    let record1 = contract.get_payment_record(&String::from("agreement_6"), 1);
    let record2 = contract.get_payment_record(&String::from("agreement_6"), 2);

    assert!(record1.is_some());
    assert!(record2.is_some());
}

#[test]
fn payment_tests_test_calculate_payment_split() {
    // Test with no commission
    let (landlord, agent) = calculate_payment_split(&1000, &0);
    assert_eq!(landlord, 1000);
    assert_eq!(agent, 0);

    // Test with 5% commission (500 basis points)
    let (landlord, agent) = calculate_payment_split(&1000, &500);
    assert_eq!(landlord, 950);
    assert_eq!(agent, 50);

    // Test with 10% commission (1000 basis points)
    let (landlord, agent) = calculate_payment_split(&2000, &1000);
    assert_eq!(landlord, 1800);
    assert_eq!(agent, 200);

    // Test with 2.5% commission (250 basis points)
    let (landlord, agent) = calculate_payment_split(&10000, &250);
    assert_eq!(landlord, 9750);
    assert_eq!(agent, 250);
}

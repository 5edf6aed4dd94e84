use zk_average_salary::contract::Address;
use zk_average_salary::records::{holds_id, owns_record, position_of, SecretInputRecord};
use zk_average_salary::zk_compute::{Category, ZKInput};

fn owner(n: u128) -> Address {
    Address { address_type: 2, identifier_high: 9, identifier_low: n }
}

fn listed() -> Vec<SecretInputRecord> {
    let ids_and_owners: [(u32, u128); 4] = [(4, 70), (0, 71), (9, 72), (2, 73)];
    let mut records = Vec::new();
    for (variable_id, who) in ids_and_owners {
        records.push(SecretInputRecord {
            variable_id,
            owner: owner(who),
            input: ZKInput::new(1000, Category::Female),
        });
    }
    records
}

#[test]
fn owner_is_found_among_records() {
    let records = listed();
    assert!(owns_record(&records, owner(70)));
    assert!(owns_record(&records, owner(73)));
    assert!(!owns_record(&records, owner(74)));
    assert!(!owns_record(&Vec::new(), owner(70)));
    let other_kind = Address { address_type: 3, ..owner(70) };
    assert!(!owns_record(&records, other_kind));
}

#[test]
fn identifier_is_found_among_records() {
    let records = listed();
    assert!(holds_id(&records, 4));
    assert!(holds_id(&records, 2));
    assert!(!holds_id(&records, 1));
    assert!(!holds_id(&Vec::new(), 0));
}

#[test]
fn position_of_an_identifier() {
    let records = listed();
    assert_eq!(position_of(&records, 4), 0);
    assert_eq!(position_of(&records, 0), 1);
    assert_eq!(position_of(&records, 9), 2);
    assert_eq!(position_of(&records, 2), 3);
}

use roster_rollup::roster::{Roster, Student};

fn bytes(s: &str) -> Vec<u8> {
    s.as_bytes().to_vec()
}

#[test]
fn create_stores_lowercased_key_and_zero_count() {
    let mut r = Roster::new();
    r.create(bytes("Ada"), 36, bytes("0xABCdef"));
    assert_eq!(r.len(), 1);
    assert_eq!(r.members[0].wallet_address, bytes("0xabcdef"));
    assert_eq!(r.members[0].name, bytes("Ada"));
    assert_eq!(r.members[0].age, 36);
    assert_eq!(r.members[0].attendance_count, 0);
}

#[test]
fn create_then_delete_case_varied_removes_exactly_one() {
    let mut r = Roster::new();
    r.create(bytes("Ada"), 36, bytes("0xABC123"));
    assert_eq!(r.len(), 1);
    let found = r.delete(&bytes("0xabc123"));
    assert!(found);
    assert_eq!(r.len(), 0);

    // and the other way round: create lowercase, delete uppercase
    r.create(bytes("Ada"), 36, bytes("0xabc123"));
    let found = r.delete(&bytes("0XABC123"));
    assert!(found);
    assert_eq!(r.len(), 0);
}

#[test]
fn sign_attendance_ten_times_counts_ten() {
    let mut r = Roster::new();
    r.create(bytes("Grace"), 30, bytes("0xFEED"));
    for _ in 0..10 {
        let found = r.sign_attendance(&bytes("0xFeEd"));
        assert!(found);
    }
    assert_eq!(r.members[0].attendance_count, 10);
}

#[test]
fn missing_key_is_a_no_op() {
    let mut r = Roster::new();
    r.create(bytes("Ada"), 36, bytes("0xAA"));
    let deleted = r.delete(&bytes("0xBB"));
    assert!(!deleted);
    let signed = r.sign_attendance(&bytes("0xBB"));
    assert!(!signed);
    assert_eq!(r.len(), 1);
    assert_eq!(r.members[0].name, bytes("Ada"));
    assert_eq!(r.members[0].attendance_count, 0);
}

#[test]
fn duplicate_keys_affect_first_match_only() {
    let mut r = Roster::new();
    r.create(bytes("First"), 20, bytes("0xAA"));
    r.create(bytes("Second"), 21, bytes("0xaa"));
    assert_eq!(r.len(), 2);

    let found = r.sign_attendance(&bytes("0xAA"));
    assert!(found);
    assert_eq!(r.members[0].attendance_count, 1);
    assert_eq!(r.members[1].attendance_count, 0);

    let found = r.delete(&bytes("0xAA"));
    assert!(found);
    assert_eq!(r.len(), 1);
    assert_eq!(r.members[0].name, bytes("Second"));
}

#[test]
fn student_new_and_take_attendance() {
    let mut s = Student::new(bytes("Alan"), 41, bytes("0xcc"));
    assert_eq!(s.attendance_count, 0);
    s.take_attendance();
    s.take_attendance();
    assert_eq!(s.attendance_count, 2);
}

#[test]
fn take_attendance_saturates_at_the_bound() {
    let mut s = Student::new(bytes("Max"), 1, bytes("0xdd"));
    s.attendance_count = u128::MAX;
    s.take_attendance();
    assert_eq!(s.attendance_count, u128::MAX);
}

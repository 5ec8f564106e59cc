use certification::id::{derive_certification_id, encode_account, same_id};
use certification::registry::{Error, Event, Pallet};

const ALICE: u64 = 1;
const BOB: u64 = 2;

fn assert_record(p: &Pallet, id: &[u8; 32], owner: u64, title: &[u8], description: &[u8], created: u64, updated: u64) {
    let c = p.certification(id).expect("record present");
    assert_eq!(c.get_id(), id);
    assert_eq!(*c.get_owner_id(), owner);
    assert_eq!(c.title, title.to_vec());
    assert_eq!(c.description, description.to_vec());
    assert_eq!(c.created_at, created);
    assert_eq!(c.updated_at, updated);
}

#[test]
fn derivation_is_stable() {
    assert_eq!(derive_certification_id(ALICE), derive_certification_id(ALICE));
    assert_eq!(derive_certification_id(u64::MAX), derive_certification_id(u64::MAX));
    assert_ne!(derive_certification_id(ALICE), derive_certification_id(BOB));
}

#[test]
fn derivation_hashes_the_encoded_account() {
    let id = derive_certification_id(0x0102);
    assert_eq!(id, sp_crypto_hashing::blake2_256(&[2, 1, 0, 0, 0, 0, 0, 0]));
    let mut padded = [0u8; 32];
    padded[0] = 2;
    padded[1] = 1;
    assert_ne!(id, padded);
    assert_ne!(id, [0u8; 32]);
}

#[test]
fn encoding_is_little_endian() {
    assert_eq!(encode_account(0x0102), vec![2, 1, 0, 0, 0, 0, 0, 0]);
    assert_eq!(encode_account(0), vec![0; 8]);
    assert_eq!(encode_account(u64::MAX), vec![255; 8]);
    assert_eq!(encode_account(0x0807060504030201), vec![1, 2, 3, 4, 5, 6, 7, 8]);
}

#[test]
fn ids_compare_bytewise() {
    let a = derive_certification_id(ALICE);
    let mut b = a;
    assert!(same_id(&a, &b));
    b[31] ^= 1;
    assert!(!same_id(&a, &b));
}

#[test]
fn add_stores_record_and_event() {
    let mut p = Pallet::new();
    assert_eq!(p.add_certification(ALICE, b"T1".to_vec(), b"D1".to_vec(), 5), Ok(()));
    let id = derive_certification_id(ALICE);
    assert_record(&p, &id, ALICE, b"T1", b"D1", 5, 5);
    assert_eq!(
        p.events().clone(),
        vec![Event::CertificationStored { who: ALICE, certification_id: id, created_at: 5 }]
    );
}

#[test]
fn update_by_owner_refreshes_record() {
    let mut p = Pallet::new();
    p.add_certification(ALICE, b"T1".to_vec(), b"D1".to_vec(), 5).unwrap();
    let id = derive_certification_id(ALICE);
    assert_eq!(p.update_certification(ALICE, id, b"T2".to_vec(), b"D2".to_vec(), 9), Ok(()));
    assert_record(&p, &id, ALICE, b"T2", b"D2", 5, 9);
    assert_eq!(p.events().len(), 2);
    assert_eq!(p.events()[1], Event::CertificationUpdated { who: ALICE, certification_id: id, updated_at: 9 });
}

#[test]
fn update_by_other_account_is_refused() {
    let mut p = Pallet::new();
    p.add_certification(ALICE, b"T1".to_vec(), b"D1".to_vec(), 5).unwrap();
    let id = derive_certification_id(ALICE);
    assert_eq!(p.update_certification(BOB, id, b"X".to_vec(), b"Y".to_vec(), 7), Err(Error::NotOwner));
    assert_record(&p, &id, ALICE, b"T1", b"D1", 5, 5);
    assert_eq!(p.events().len(), 1);
}

#[test]
fn update_of_missing_record_is_refused() {
    let mut p = Pallet::new();
    p.add_certification(ALICE, b"T1".to_vec(), b"D1".to_vec(), 5).unwrap();
    let missing = derive_certification_id(BOB);
    assert_eq!(
        p.update_certification(BOB, missing, b"X".to_vec(), b"Y".to_vec(), 7),
        Err(Error::CertificationNotFound)
    );
    assert!(p.certification(&missing).is_none());
    assert_record(&p, &derive_certification_id(ALICE), ALICE, b"T1", b"D1", 5, 5);
    assert_eq!(p.events().len(), 1);
}

#[test]
fn remove_by_owner_then_record_is_gone() {
    let mut p = Pallet::new();
    p.add_certification(ALICE, b"T1".to_vec(), b"D1".to_vec(), 5).unwrap();
    let id = derive_certification_id(ALICE);
    assert_eq!(p.remove_certification(ALICE, id), Ok(()));
    assert!(p.certification(&id).is_none());
    assert_eq!(p.events()[1], Event::CertificationRemoved { who: ALICE, certification_id: id });
    assert_eq!(
        p.update_certification(ALICE, id, b"T3".to_vec(), b"D3".to_vec(), 11),
        Err(Error::CertificationNotFound)
    );
    assert_eq!(p.remove_certification(ALICE, id), Err(Error::CertificationNotFound));
    assert_eq!(p.events().len(), 2);
}

#[test]
fn remove_by_other_account_is_refused() {
    let mut p = Pallet::new();
    p.add_certification(ALICE, b"T1".to_vec(), b"D1".to_vec(), 5).unwrap();
    let id = derive_certification_id(ALICE);
    assert_eq!(p.remove_certification(BOB, id), Err(Error::NotOwner));
    assert_record(&p, &id, ALICE, b"T1", b"D1", 5, 5);
    assert_eq!(p.events().len(), 1);
}

#[test]
fn remove_of_missing_record_is_refused() {
    let mut p = Pallet::new();
    let id = derive_certification_id(ALICE);
    assert_eq!(p.remove_certification(ALICE, id), Err(Error::CertificationNotFound));
    assert!(p.events().is_empty());
}

#[test]
fn second_add_replaces_first_record() {
    let mut p = Pallet::new();
    p.add_certification(ALICE, b"T1".to_vec(), b"D1".to_vec(), 5).unwrap();
    p.add_certification(ALICE, b"T2".to_vec(), b"D2".to_vec(), 8).unwrap();
    let id = derive_certification_id(ALICE);
    assert_record(&p, &id, ALICE, b"T2", b"D2", 8, 8);
    assert_eq!(p.events().len(), 2);
    assert_eq!(p.events()[1], Event::CertificationStored { who: ALICE, certification_id: id, created_at: 8 });
    // Exactly one record: removing it leaves none for this account.
    p.remove_certification(ALICE, id).unwrap();
    assert!(p.certification(&id).is_none());
}

#[test]
fn records_of_different_owners_are_independent() {
    let mut p = Pallet::new();
    p.add_certification(ALICE, b"A".to_vec(), vec![], 1).unwrap();
    p.add_certification(BOB, b"B".to_vec(), b"bd".to_vec(), 2).unwrap();
    let a = derive_certification_id(ALICE);
    let b = derive_certification_id(BOB);
    p.remove_certification(ALICE, a).unwrap();
    assert!(p.certification(&a).is_none());
    assert_record(&p, &b, BOB, b"B", b"bd", 2, 2);
    assert_eq!(p.update_certification(BOB, b, vec![], vec![], 3), Ok(()));
    assert_record(&p, &b, BOB, b"", b"", 2, 3);
}

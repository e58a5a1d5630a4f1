use crud_contract::addr::AccountId;
use crud_contract::store::ErrorCode;
use crud_contract::store::RecordStore;

fn ident(b: u8) -> AccountId {
    AccountId { bytes: vec![b; 32] }
}

fn program() -> AccountId {
    ident(7)
}

fn fresh_store() -> RecordStore {
    RecordStore::new(program())
}

#[test]
fn scenario_lifecycle() {
    let admin = ident(1);
    let owner_a = ident(2);
    let owner_b = ident(3);
    let mut store = fresh_store();

    assert!(!store.is_initialized());
    store.initialize(admin.clone()).unwrap();
    assert!(store.is_initialized());
    assert_eq!(store.total_created(), 0);

    let id_a = store
        .create_text(String::from("A"), String::from("hello"), owner_a.clone(), 100)
        .unwrap();
    assert_eq!(id_a, 0);
    assert_eq!(store.total_created(), 1);

    let id_b = store
        .create_text(String::from("B"), String::from("world"), owner_b.clone(), 110)
        .unwrap();
    assert_eq!(id_b, 1);
    assert_eq!(store.total_created(), 2);

    store
        .update(0, String::from("A2"), String::from("hi"), owner_a.clone(), 150)
        .unwrap();
    let t = store.read(0).unwrap();
    assert_eq!(t.id, 0);
    assert_eq!(t.title, "A2");
    assert_eq!(t.content, "hi");
    assert_eq!(t.owner.bytes, owner_a.bytes);
    assert_eq!(t.created_at, 100);
    assert_eq!(t.updated_at, 150);

    store.delete(0, admin.clone()).unwrap();
    assert_eq!(store.total_created(), 1);
    assert_eq!(store.read(0).unwrap_err(), ErrorCode::RecordNotFound);

    let t_b = store.read(1).unwrap();
    assert_eq!(t_b.title, "B");
    assert_eq!(t_b.content, "world");
}

#[test]
fn initialize_twice_fails() {
    let mut store = fresh_store();
    store.initialize(ident(1)).unwrap();
    assert_eq!(store.initialize(ident(1)).unwrap_err(), ErrorCode::AlreadyInitialized);
    assert_eq!(store.initialize(ident(9)).unwrap_err(), ErrorCode::AlreadyInitialized);
}

#[test]
fn operations_before_initialize_fail() {
    let mut store = fresh_store();
    let e = store
        .create_text(String::from("t"), String::from("c"), ident(2), 0)
        .unwrap_err();
    assert_eq!(e, ErrorCode::InvalidCounterRecord);
    assert_eq!(store.read(0).unwrap_err(), ErrorCode::InvalidCounterRecord);
    assert_eq!(store.delete(0, ident(2)).unwrap_err(), ErrorCode::InvalidCounterRecord);
}

#[test]
fn create_rejects_oversize() {
    let mut store = fresh_store();
    store.initialize(ident(1)).unwrap();

    let long_title: String = "x".repeat(51);
    let e = store
        .create_text(long_title, String::from("c"), ident(2), 0)
        .unwrap_err();
    assert_eq!(e, ErrorCode::TitleTooLong);
    assert_eq!(store.total_created(), 0);

    let long_content: String = "y".repeat(1001);
    let e = store
        .create_text(String::from("t"), long_content, ident(2), 0)
        .unwrap_err();
    assert_eq!(e, ErrorCode::ContentTooLong);
    assert_eq!(store.total_created(), 0);
    assert_eq!(store.read(0).unwrap_err(), ErrorCode::RecordNotFound);
}

#[test]
fn create_accepts_exact_bounds() {
    let mut store = fresh_store();
    store.initialize(ident(1)).unwrap();
    let title: String = "é".repeat(50);
    let content: String = "ü".repeat(1000);
    let id = store.create_text(title, content, ident(2), 5).unwrap();
    assert_eq!(id, 0);
    let t = store.read(0).unwrap();
    assert_eq!(t.title.chars().count(), 50);
    assert_eq!(t.content.chars().count(), 1000);
}

#[test]
fn update_rejects_oversize() {
    let owner = ident(2);
    let mut store = fresh_store();
    store.initialize(ident(1)).unwrap();
    store
        .create_text(String::from("t"), String::from("c"), owner.clone(), 0)
        .unwrap();
    let e = store
        .update(0, "x".repeat(51), String::from("c"), owner.clone(), 1)
        .unwrap_err();
    assert_eq!(e, ErrorCode::TitleTooLong);
    let e = store
        .update(0, String::from("t"), "y".repeat(1001), owner.clone(), 1)
        .unwrap_err();
    assert_eq!(e, ErrorCode::ContentTooLong);
    let t = store.read(0).unwrap();
    assert_eq!(t.title, "t");
    assert_eq!(t.content, "c");
}

#[test]
fn update_by_non_owner_unauthorized() {
    let owner = ident(2);
    let stranger = ident(4);
    let admin = ident(1);
    let mut store = fresh_store();
    store.initialize(admin.clone()).unwrap();
    store
        .create_text(String::from("t"), String::from("c"), owner.clone(), 10)
        .unwrap();

    let e = store
        .update(0, String::from("t2"), String::from("c2"), stranger, 20)
        .unwrap_err();
    assert_eq!(e, ErrorCode::Unauthorized);

    // Not even the administrator may update another identity's record.
    let e = store
        .update(0, String::from("t2"), String::from("c2"), admin, 20)
        .unwrap_err();
    assert_eq!(e, ErrorCode::Unauthorized);

    let t = store.read(0).unwrap();
    assert_eq!(t.title, "t");
    assert_eq!(t.content, "c");
    assert_eq!(t.updated_at, 10);
}

#[test]
fn delete_authorization() {
    let admin = ident(1);
    let owner = ident(2);
    let stranger = ident(4);
    let mut store = fresh_store();
    store.initialize(admin.clone()).unwrap();
    store
        .create_text(String::from("a"), String::from("1"), owner.clone(), 0)
        .unwrap();
    store
        .create_text(String::from("b"), String::from("2"), owner.clone(), 0)
        .unwrap();

    let e = store.delete(0, stranger).unwrap_err();
    assert_eq!(e, ErrorCode::Unauthorized);
    assert_eq!(store.total_created(), 2);

    // The owner may delete, even though it is not the administrator.
    store.delete(0, owner.clone()).unwrap();
    assert_eq!(store.total_created(), 1);

    // The administrator may delete, even though it is not the owner.
    store.delete(1, admin.clone()).unwrap();
    assert_eq!(store.total_created(), 0);
}

#[test]
fn read_missing_record_fails() {
    let mut store = fresh_store();
    store.initialize(ident(1)).unwrap();
    assert_eq!(store.read(0).unwrap_err(), ErrorCode::RecordNotFound);
    assert_eq!(store.read(42).unwrap_err(), ErrorCode::RecordNotFound);
    assert_eq!(
        store.delete(42, ident(1)).unwrap_err(),
        ErrorCode::RecordNotFound
    );
    assert_eq!(
        store
            .update(42, String::from("t"), String::from("c"), ident(1), 0)
            .unwrap_err(),
        ErrorCode::RecordNotFound
    );
}

#[test]
fn recreate_after_delete_collides() {
    let admin = ident(1);
    let owner = ident(2);
    let mut store = fresh_store();
    store.initialize(admin.clone()).unwrap();
    store
        .create_text(String::from("a"), String::from("1"), owner.clone(), 0)
        .unwrap();
    store
        .create_text(String::from("b"), String::from("2"), owner.clone(), 0)
        .unwrap();
    store.delete(0, admin.clone()).unwrap();
    // The counter rewound to 1, but the record with id 1 still exists: the
    // next create derives an already occupied address.
    let e = store
        .create_text(String::from("c"), String::from("3"), owner, 0)
        .unwrap_err();
    assert_eq!(e, ErrorCode::RecordAlreadyExists);
    assert_eq!(store.total_created(), 1);
}

#[test]
fn addresses_are_deterministic_and_distinct() {
    let mut store1 = fresh_store();
    let mut store2 = fresh_store();
    for store in [&mut store1, &mut store2] {
        store.initialize(ident(1)).unwrap();
        store
            .create_text(String::from("a"), String::from("1"), ident(2), 0)
            .unwrap();
        store
            .create_text(String::from("b"), String::from("2"), ident(3), 5)
            .unwrap();
    }
    // Re-deriving in a second store yields the identical addresses.
    assert_eq!(store1.records[0].address, store2.records[0].address);
    assert_eq!(store1.records[1].address, store2.records[1].address);
    assert_eq!(store1.counter.address, store2.counter.address);
    assert_eq!(store1.counter.data.bump, store2.counter.data.bump);
    // Addresses are 32 bytes, distinct per id, and none is an input echoed
    // back.
    assert_eq!(store1.records[0].address.len(), 32);
    assert_ne!(store1.records[0].address, store1.records[1].address);
    assert_ne!(store1.records[0].address, store1.counter.address);
    assert_ne!(store1.records[0].address, store1.program_id.bytes);
    assert_ne!(store1.counter.address, store1.program_id.bytes);
}

#[test]
fn forged_record_is_rejected() {
    let owner = ident(2);
    let mut store = fresh_store();
    store.initialize(ident(1)).unwrap();
    store
        .create_text(String::from("t"), String::from("c"), owner.clone(), 0)
        .unwrap();

    store.records[0].address[31] ^= 1;
    assert_eq!(store.read(0).unwrap_err(), ErrorCode::RecordNotFound);
    assert_eq!(
        store
            .update(0, String::from("t2"), String::from("c2"), owner.clone(), 1)
            .unwrap_err(),
        ErrorCode::RecordNotFound
    );
    store.records[0].address[31] ^= 1;

    // A record accepted again once the address is restored, but not with a
    // tampered bump seed.
    assert!(store.read(0).is_ok());
    store.records[0].data.bump ^= 1;
    assert_eq!(store.read(0).unwrap_err(), ErrorCode::RecordNotFound);
}

#[test]
fn forged_counter_is_rejected() {
    let admin = ident(1);
    let mut store = fresh_store();
    store.initialize(admin.clone()).unwrap();
    store
        .create_text(String::from("t"), String::from("c"), ident(2), 0)
        .unwrap();

    store.counter.address[0] ^= 1;
    assert_eq!(store.read(0).unwrap_err(), ErrorCode::InvalidCounterRecord);
    assert_eq!(
        store
            .create_text(String::from("u"), String::from("d"), ident(2), 0)
            .unwrap_err(),
        ErrorCode::InvalidCounterRecord
    );
    assert_eq!(
        store.delete(0, admin.clone()).unwrap_err(),
        ErrorCode::InvalidCounterRecord
    );
    store.counter.address[0] ^= 1;

    store.counter.data.bump ^= 1;
    assert_eq!(store.read(0).unwrap_err(), ErrorCode::InvalidCounterRecord);
    store.counter.data.bump ^= 1;
    assert!(store.read(0).is_ok());
}

#[test]
fn counter_tracks_creates_minus_deletes() {
    let admin = ident(1);
    let owner = ident(2);
    let mut store = fresh_store();
    store.initialize(admin.clone()).unwrap();
    for k in 0..5u64 {
        let id = store
            .create_text(format!("t{}", k), format!("c{}", k), owner.clone(), k as i64)
            .unwrap();
        assert_eq!(id, k);
        assert_eq!(store.total_created(), k + 1);
    }
    store.delete(4, owner.clone()).unwrap();
    store.delete(3, admin.clone()).unwrap();
    assert_eq!(store.total_created(), 3);
    assert_eq!(store.records.len(), 3);
}

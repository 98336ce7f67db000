use imgproxy::coordinator::Coordinator;
use imgproxy::memstore::MemStore;
use imgproxy::resolver::StoreError;

#[test]
fn store_starts_empty() {
    let s = MemStore::new();
    assert!(!s.exists_at("data/a.png"));
    assert!(s.read_all("data/a.png").is_none());
}

#[test]
fn store_then_read_returns_written_bytes() {
    let mut s = MemStore::new();
    let bytes = vec![1u8, 2, 3, 4, 5];
    s.write_new("data/a.png", bytes.clone()).unwrap();
    assert!(s.exists_at("data/a.png"));
    assert_eq!(s.read_all("data/a.png").unwrap(), bytes);
}

#[test]
fn exclusive_create_refuses_present_location() {
    let mut s = MemStore::new();
    s.write_new("data/a.png", vec![1u8]).unwrap();
    let r = s.write_new("data/a.png", vec![2u8]);
    assert_eq!(r.unwrap_err(), StoreError::AlreadyExists);
    // The original bytes are untouched.
    assert_eq!(s.read_all("data/a.png").unwrap(), vec![1u8]);
}

#[test]
fn store_keeps_entries_apart() {
    let mut s = MemStore::new();
    s.write_new("data/a.png", vec![1u8]).unwrap();
    s.write_new("data/b.png", vec![2u8]).unwrap();
    assert_eq!(s.read_all("data/a.png").unwrap(), vec![1u8]);
    assert_eq!(s.read_all("data/b.png").unwrap(), vec![2u8]);
    assert!(!s.exists_at("data/c.png"));
}

#[test]
fn first_beginner_leads_second_follows() {
    let mut c = Coordinator::new();
    assert!(c.begin("50x50/users/1/avatar.jpg"));
    assert!(!c.begin("50x50/users/1/avatar.jpg"));
    // A different key is independent.
    assert!(c.begin("25x25/users/1/avatar.jpg"));
}

#[test]
fn finished_key_can_lead_again() {
    let mut c = Coordinator::new();
    assert!(c.begin("50x50/a.png"));
    c.finish("50x50/a.png");
    assert!(c.begin("50x50/a.png"));
}

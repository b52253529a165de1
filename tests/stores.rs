use ic_stable_structures::DefaultMemoryImpl;
use vendor_store::error::Error;
use vendor_store::record::{Excess, ExcessPayload, StoredRecord, Vendor, VendorPayload};
use vendor_store::stores::Stores;

fn fresh() -> Stores {
    Stores::init(DefaultMemoryImpl::default()).unwrap()
}

fn vendor_payload(name: &str, phone: &str, location: &str) -> VendorPayload {
    VendorPayload {
        name: name.to_string(),
        phone: phone.to_string(),
        current_location: location.to_string(),
    }
}

fn excess_payload(vendor_id: u64, name: &str, amount: &str, date: &str) -> ExcessPayload {
    ExcessPayload {
        vendor_id,
        name: name.to_string(),
        amount: amount.to_string(),
        date: date.to_string(),
    }
}

fn not_found_msg<T: std::fmt::Debug>(r: Result<T, Error>) -> String {
    match r {
        Err(Error::NotFound { msg }) => msg,
        other => panic!("expected NotFound, got {:?}", other),
    }
}

#[test]
fn vendor_lifecycle_scenario() {
    let mut s = fresh();
    let created = s.add_vendor(vendor_payload("Acme", "555", "X")).unwrap();
    assert_eq!(created.id, 0);
    assert_eq!(created.name, "Acme");
    assert_eq!(created.phone, "555");
    assert_eq!(created.current_location, "X");

    let updated = s.update_vendor(0, vendor_payload("Acme", "556", "X")).unwrap();
    assert_eq!(updated.id, 0);
    assert_eq!(updated.phone, "556");
    assert_eq!(updated.name, "Acme");

    let deleted = s.delete_vendor(0).unwrap();
    assert_eq!(deleted, updated);

    let msg = not_found_msg(s.get_vendor_from_id(0));
    assert!(msg.contains('0'));
}

#[test]
fn not_found_message_names_kind_and_id() {
    let s = fresh();
    assert_eq!(not_found_msg(s.get_vendor_from_id(7)), "Vendor with the id 7 does not exist");
    assert_eq!(
        not_found_msg(s.get_excess_from_id(1234567890)),
        "Excess with the id 1234567890 does not exist"
    );
}

#[test]
fn vendor_round_trip() {
    let v = Vendor {
        id: 42,
        name: "Mama Njeri".to_string(),
        phone: "+254 700 000 000".to_string(),
        current_location: "Gikomba".to_string(),
    };
    let bytes = v.to_bytes();
    assert_eq!(Vendor::from_bytes(&bytes), Some(v));
}

#[test]
fn vendor_round_trip_non_ascii_and_empty() {
    let v = Vendor {
        id: u64::MAX,
        name: "Ñandú ü — 果物 🍅".to_string(),
        phone: String::new(),
        current_location: String::new(),
    };
    assert_eq!(Vendor::from_bytes(&v.to_bytes()), Some(v));
}

#[test]
fn excess_round_trip() {
    let e = Excess {
        id: 3,
        vendor_id: 9,
        name: "tomatoes".to_string(),
        amount: "12.5".to_string(),
        date: "2024-03-01".to_string(),
    };
    assert_eq!(Excess::from_bytes(&e.to_bytes()), Some(e));
}

#[test]
fn vendor_encoding_exact_bytes() {
    let v = Vendor {
        id: 1,
        name: "A".to_string(),
        phone: "".to_string(),
        current_location: "é".to_string(),
    };
    let expected: Vec<u8> = vec![
        1, 0, 0, 0, 0, 0, 0, 0, // id
        1, 0, 0, 0, 0, 0, 0, 0, b'A', // name
        0, 0, 0, 0, 0, 0, 0, 0, // phone
        2, 0, 0, 0, 0, 0, 0, 0, 0xC3, 0xA9, // location
    ];
    assert_eq!(v.to_bytes(), expected);
}

#[test]
fn excess_encoding_exact_bytes() {
    let e = Excess {
        id: 258,
        vendor_id: 5,
        name: "x".to_string(),
        amount: "".to_string(),
        date: "".to_string(),
    };
    let expected: Vec<u8> = vec![
        2, 1, 0, 0, 0, 0, 0, 0, // id
        5, 0, 0, 0, 0, 0, 0, 0, // vendor id
        1, 0, 0, 0, 0, 0, 0, 0, b'x', // name
        0, 0, 0, 0, 0, 0, 0, 0, // amount
        0, 0, 0, 0, 0, 0, 0, 0, // date
    ];
    assert_eq!(e.to_bytes(), expected);
}

#[test]
fn decode_rejects_malformed_bytes() {
    let v = Vendor {
        id: 1,
        name: "ab".to_string(),
        phone: "c".to_string(),
        current_location: "d".to_string(),
    };
    let bytes = v.to_bytes();
    assert_eq!(Vendor::from_bytes(&bytes[..bytes.len() - 1]), None);
    let mut longer = bytes.clone();
    longer.push(0);
    assert_eq!(Vendor::from_bytes(&longer), None);
    let mut bad_utf8 = bytes.clone();
    bad_utf8[16] = 0xFF;
    assert_eq!(Vendor::from_bytes(&bad_utf8), None);
    assert_eq!(Vendor::from_bytes(&[]), None);
    assert_eq!(Excess::from_bytes(&bytes), None);
}

#[test]
fn ids_strictly_increase() {
    let mut s = fresh();
    let mut last = None;
    for i in 0..5u64 {
        let id = if i % 2 == 0 {
            s.add_vendor(vendor_payload("v", "1", "l")).unwrap().id
        } else {
            s.add_excess(excess_payload(0, "e", "1", "d")).unwrap().id
        };
        assert_eq!(id, i);
        if let Some(prev) = last {
            assert!(id > prev);
        }
        last = Some(id);
    }
    assert_eq!(s.next_id(), 5);
}

#[test]
fn ids_continue_after_restart() {
    let memory = DefaultMemoryImpl::default();
    let mut s = Stores::init(memory.clone()).unwrap();
    let a = s.add_vendor(vendor_payload("a", "1", "x")).unwrap();
    let b = s.add_vendor(vendor_payload("b", "2", "y")).unwrap();
    assert_eq!((a.id, b.id), (0, 1));
    drop(s);

    let mut s = Stores::init(memory.clone()).unwrap();
    assert_eq!(s.next_id(), 2);
    let c = s.add_vendor(vendor_payload("c", "3", "z")).unwrap();
    assert!(c.id > b.id);
    assert_eq!(s.get_vendor_from_id(0), Ok(a));
    assert_eq!(s.get_vendor_from_id(1), Ok(b));
}

#[test]
fn create_then_read() {
    let mut s = fresh();
    let v = s.add_vendor(vendor_payload("Acme", "555", "X")).unwrap();
    assert_eq!(s.get_vendor_from_id(v.id), Ok(v.clone()));
    assert_eq!(s._get_vendor(&v.id), Some(v));
    let e = s.add_excess(excess_payload(0, "maize", "40", "2024-01-02")).unwrap();
    assert_eq!(e.id, 1);
    assert_eq!(e.vendor_id, 0);
    assert_eq!(s.get_excess_from_id(e.id), Ok(e.clone()));
    assert_eq!(s._get_excess(&e.id), Some(e));
}

#[test]
fn empty_fields_are_stored_as_given() {
    let mut s = fresh();
    let v = s.add_vendor(vendor_payload("", "", "")).unwrap();
    assert_eq!(v.name, "");
    assert_eq!(s.get_vendor_from_id(v.id), Ok(v));
}

#[test]
fn update_keeps_identity() {
    let mut s = fresh();
    s.add_vendor(vendor_payload("first", "1", "a")).unwrap();
    let v = s.add_vendor(vendor_payload("second", "2", "b")).unwrap();
    let u = s.update_vendor(v.id, vendor_payload("renamed", "9", "c")).unwrap();
    assert_eq!(
        u,
        Vendor {
            id: 1,
            name: "renamed".to_string(),
            phone: "9".to_string(),
            current_location: "c".to_string(),
        }
    );
    assert_eq!(s.get_vendor_from_id(1), Ok(u));
    assert_eq!(s.get_vendor_from_id(0).unwrap().name, "first");
}

#[test]
fn update_of_absent_is_not_found() {
    let mut s = fresh();
    let msg = not_found_msg(s.update_vendor(3, vendor_payload("a", "b", "c")));
    assert!(msg.contains('3'));
    assert_eq!(s._get_vendor(&3), None);
}

#[test]
fn delete_is_terminal() {
    let mut s = fresh();
    let v = s.add_vendor(vendor_payload("Acme", "555", "X")).unwrap();
    assert_eq!(s.delete_vendor(v.id), Ok(v.clone()));
    assert!(not_found_msg(s.get_vendor_from_id(v.id)).contains('0'));
    assert!(not_found_msg(s.delete_vendor(v.id)).contains('0'));

    let e = s.add_excess(excess_payload(0, "beans", "3", "d")).unwrap();
    assert_eq!(s.delete_excess(e.id), Ok(e.clone()));
    assert_eq!(s._get_excess(&e.id), None);
    assert!(not_found_msg(s.delete_excess(e.id)).contains('1'));
}

#[test]
fn maps_are_isolated() {
    let mut s = fresh();
    let v = s.add_vendor(vendor_payload("Acme", "555", "X")).unwrap();
    let e = s.add_excess(excess_payload(v.id, "kale", "7", "today")).unwrap();
    assert!(not_found_msg(s.get_excess_from_id(v.id)).starts_with("Excess"));
    assert!(not_found_msg(s.get_vendor_from_id(e.id)).starts_with("Vendor"));

    let replacement = Vendor { id: e.id, ..v.clone() };
    s.do_insert(&replacement).unwrap();
    assert_eq!(s.get_excess_from_id(e.id), Ok(e.clone()));
    assert_eq!(s.get_vendor_from_id(e.id), Ok(replacement));

    s.delete_vendor(v.id).unwrap();
    assert_eq!(s.get_excess_from_id(e.id), Ok(e.clone()));
    let stored = Excess { id: v.id, ..e.clone() };
    s.do_insert_excess(&stored).unwrap();
    assert!(not_found_msg(s.get_vendor_from_id(v.id)).contains('0'));
    assert_eq!(s._get_excess(&v.id), Some(stored));
}

#[test]
fn too_large_record_is_refused() {
    let mut s = fresh();
    let big = "x".repeat(1024);
    assert_eq!(s.add_vendor(vendor_payload(&big, "1", "a")), Err(Error::RecordTooLarge));
    assert_eq!(s._get_vendor(&0), None);
    assert_eq!(s.next_id(), 1);

    let v = s.add_vendor(vendor_payload("ok", "1", "a")).unwrap();
    assert_eq!(
        s.update_vendor(v.id, vendor_payload(&big, "1", "a")),
        Err(Error::RecordTooLarge)
    );
    assert_eq!(s.get_vendor_from_id(v.id), Ok(v.clone()));
    let huge = Vendor { name: big, ..v.clone() };
    assert_eq!(s.do_insert(&huge), Err(Error::RecordTooLarge));
    assert_eq!(s.get_vendor_from_id(v.id), Ok(v));
}

#[test]
fn largest_record_that_fits() {
    let mut s = fresh();
    // 8 bytes of identifier and three 8-byte length prefixes leave 992 bytes of text.
    let name = "n".repeat(992);
    let v = s.add_vendor(vendor_payload(&name, "", "")).unwrap();
    assert_eq!(v.to_bytes().len(), 1024);
    assert_eq!(s.get_vendor_from_id(v.id), Ok(v));
    let one_more = "n".repeat(993);
    assert_eq!(s.add_vendor(vendor_payload(&one_more, "", "")), Err(Error::RecordTooLarge));
}

#[test]
fn memory_of_another_layout_is_refused() {
    let mut bytes = vec![0u8; 65536];
    bytes[..4].copy_from_slice(&[b'M', b'G', b'R', 2]);
    let memory: DefaultMemoryImpl = std::rc::Rc::new(std::cell::RefCell::new(bytes));
    assert!(matches!(Stores::init(memory), Err(Error::IncompatibleLayout)));
}

#[test]
fn memory_without_a_manager_starts_fresh() {
    let memory: DefaultMemoryImpl = std::rc::Rc::new(std::cell::RefCell::new(vec![7u8; 65536]));
    let mut s = Stores::init(memory).unwrap();
    assert_eq!(s.next_id(), 0);
    assert_eq!(s.add_vendor(vendor_payload("a", "b", "c")).unwrap().id, 0);
}

#[test]
fn manager_with_zero_bucket_size_is_refused() {
    let mut bytes = vec![0u8; 65536];
    bytes[..4].copy_from_slice(&[b'M', b'G', b'R', 1]);
    let memory: DefaultMemoryImpl = std::rc::Rc::new(std::cell::RefCell::new(bytes));
    assert!(matches!(Stores::init(memory), Err(Error::IncompatibleLayout)));
}

#[test]
fn manager_with_unbacked_region_size_is_refused() {
    let mut bytes = vec![0u8; 65536];
    bytes[..4].copy_from_slice(&[b'M', b'G', b'R', 1]);
    bytes[6] = 128; // bucket size in pages
    bytes[40] = 1; // region 0 records one page
    for entry in &mut bytes[2080..2080 + 32768] {
        *entry = 255; // no bucket is allocated
    }
    let memory: DefaultMemoryImpl = std::rc::Rc::new(std::cell::RefCell::new(bytes));
    assert!(matches!(Stores::init(memory), Err(Error::IncompatibleLayout)));
}

use rental_store::rental::Error;
use rental_store::rental::RentalInput;
use rental_store::service::RentalService;

fn input(brand: &str, rate: u64, date: &str, name: &str, days: u64) -> RentalInput {
    RentalInput {
        motorcycle_brand: brand.to_string(),
        daily_rate: rate,
        rental_date: date.to_string(),
        renter_name: name.to_string(),
        rental_days: days,
    }
}

#[test]
fn scenario_full_lifecycle() {
    let mut svc = RentalService::new();

    let added = svc
        .add_rental(input("Honda", 50, "2024-01-01", "Alice", 3))
        .expect("valid add must succeed");
    assert_eq!(added.id, 0);
    assert_eq!(added.motorcycle_brand, "Honda");
    assert_eq!(added.daily_rate, 50);
    assert_eq!(added.rental_date, "2024-01-01");
    assert_eq!(added.renter_name, "Alice");
    assert_eq!(added.rental_days, 3);
    assert_eq!(added.updated_at, None);

    let got = svc.get_rental(0).expect("stored record must be found");
    assert_eq!(got, added);

    let t: u64 = 1_700_000_000_000_000_000;
    let updated = svc
        .update_rental(0, input("Yamaha", 60, "2024-02-02", "Alice", 5), t)
        .expect("valid update of a stored id must succeed");
    assert_eq!(updated.id, 0);
    assert_eq!(updated.motorcycle_brand, "Yamaha");
    assert_eq!(updated.rental_days, 5);
    assert_eq!(updated.updated_at, Some(t));

    let removed = svc.delete_rental(0).expect("delete of a stored id must succeed");
    assert_eq!(removed, updated);

    let missing = svc.get_rental(0);
    assert_eq!(missing, Err(Error::NotFound { id: 0 }));
    assert_eq!(
        missing.unwrap_err().message(),
        "Rental with id=0 not found"
    );
}

#[test]
fn ids_are_sequential_and_never_reused() {
    let mut svc = RentalService::new();
    let a = svc.add_rental(input("A", 1, "d", "n", 1)).unwrap();
    let b = svc.add_rental(input("B", 1, "d", "n", 1)).unwrap();
    let c = svc.add_rental(input("C", 1, "d", "n", 1)).unwrap();
    assert_eq!((a.id, b.id, c.id), (0, 1, 2));

    assert_eq!(svc.peek_next_id(), 3);
    svc.delete_rental(1).unwrap();
    assert_eq!(svc.peek_next_id(), 3, "deletes must not release ids");
    let d = svc.add_rental(input("D", 1, "d", "n", 1)).unwrap();
    assert_eq!(d.id, 3);
    assert_eq!(svc.get_rental(1), Err(Error::NotFound { id: 1 }));
}

#[test]
fn get_after_add_returns_same_fields() {
    let mut svc = RentalService::new();
    let added = svc.add_rental(input("Ducati", 0, "2025-06-07", "Bob", 14)).unwrap();
    let got = svc.get_rental(added.id).unwrap();
    assert_eq!(got.motorcycle_brand, "Ducati");
    assert_eq!(got.daily_rate, 0);
    assert_eq!(got.rental_date, "2025-06-07");
    assert_eq!(got.renter_name, "Bob");
    assert_eq!(got.rental_days, 14);
    assert_eq!(got.updated_at, None);
}

#[test]
fn update_replaces_fields_and_stamps_time() {
    let mut svc = RentalService::new();
    let id = svc.add_rental(input("Honda", 50, "2024-01-01", "Alice", 3)).unwrap().id;
    let t: u64 = 42;
    let updated = svc.update_rental(id, input("Kawasaki", 75, "2024-03-03", "Carol", 7), t).unwrap();
    assert_eq!(updated.id, id);
    assert_eq!(updated.motorcycle_brand, "Kawasaki");
    assert_eq!(updated.daily_rate, 75);
    assert_eq!(updated.rental_date, "2024-03-03");
    assert_eq!(updated.renter_name, "Carol");
    assert_eq!(updated.rental_days, 7);
    assert_eq!(updated.updated_at, Some(t));
    assert_eq!(svc.get_rental(id).unwrap(), updated);
}

#[test]
fn delete_then_get_reports_not_found() {
    let mut svc = RentalService::new();
    let id = svc.add_rental(input("BMW", 90, "2024-05-05", "Dan", 2)).unwrap().id;
    svc.delete_rental(id).unwrap();
    assert_eq!(svc.get_rental(id), Err(Error::NotFound { id }));
}

#[test]
fn zero_days_is_rejected_and_consumes_no_id() {
    let mut svc = RentalService::new();
    let r = svc.add_rental(input("Honda", 50, "2024-01-01", "Alice", 0));
    assert_eq!(r, Err(Error::InvalidInput));

    let ok = svc.add_rental(input("Honda", 50, "2024-01-01", "Alice", 1)).unwrap();
    assert_eq!(ok.id, 0);
}

#[test]
fn empty_text_fields_are_rejected() {
    let mut svc = RentalService::new();
    assert_eq!(svc.add_rental(input("", 1, "d", "n", 1)), Err(Error::InvalidInput));
    assert_eq!(svc.add_rental(input("b", 1, "", "n", 1)), Err(Error::InvalidInput));
    assert_eq!(svc.add_rental(input("b", 1, "d", "", 1)), Err(Error::InvalidInput));
    assert_eq!(
        svc.add_rental(input("b", 1, "d", "n", 1)).unwrap().id,
        0,
        "rejected inputs must not have consumed ids"
    );
}

#[test]
fn oversized_text_is_rejected_and_boundary_accepted() {
    let mut svc = RentalService::new();
    // The three texts may hold 4039 UTF-8 bytes together: 4096 less the
    // fixed 57 bytes the rest of the encoding occupies at worst.
    let fits = "a".repeat(4037);
    let ok = svc.add_rental(input(&fits, 1, "d", "n", 1));
    assert!(ok.is_ok());

    let too_long = "a".repeat(4038);
    let rejected = svc.add_rental(input(&too_long, 1, "d", "n", 1));
    assert_eq!(rejected, Err(Error::InvalidInput));
}

#[test]
fn update_of_missing_id_reports_not_found_before_validation() {
    let mut svc = RentalService::new();
    assert_eq!(
        svc.update_rental(7, input("", 0, "", "", 0), 1),
        Err(Error::NotFound { id: 7 })
    );
}

#[test]
fn invalid_update_leaves_record_unchanged() {
    let mut svc = RentalService::new();
    let added = svc.add_rental(input("Honda", 50, "2024-01-01", "Alice", 3)).unwrap();
    let r = svc.update_rental(added.id, input("Yamaha", 60, "2024-02-02", "Alice", 0), 9);
    assert_eq!(r, Err(Error::InvalidInput));
    assert_eq!(svc.get_rental(added.id).unwrap(), added);
}

#[test]
fn delete_of_missing_id_reports_not_found() {
    let mut svc = RentalService::new();
    assert_eq!(svc.delete_rental(3), Err(Error::NotFound { id: 3 }));
    assert_eq!(
        svc.delete_rental(3).unwrap_err().message(),
        "Rental with id=3 not found"
    );
}

#[test]
fn error_messages_render() {
    assert_eq!(
        Error::NotFound { id: 42 }.message(),
        "Rental with id=42 not found"
    );
    assert_eq!(
        Error::NotFound { id: 18_446_744_073_709_551_615 }.message(),
        "Rental with id=18446744073709551615 not found"
    );
    assert_eq!(Error::InvalidInput.message(), "Some fields are empty or invalid");
}

use punt::target::{PRODUCT_ID, VENDOR_ID};
use punt::{find_targets, pick_target, Error, Probe, Target};

fn probe(address: u8, serial: &str) -> Probe {
    Probe {
        bus_number: 1,
        address,
        vendor_id: 0x16c0,
        product_id: 0x05dc,
        manufacturer: "25120".to_string(),
        product: "punt".to_string(),
        serial: serial.to_string(),
    }
}

fn target(address: u8, serial: &str) -> Target {
    Target { bus_number: 1, address, serial: serial.to_string() }
}

fn same(left: &Target, right: &Target) -> bool {
    left.bus_number == right.bus_number && left.address == right.address && left.serial == right.serial
}

#[test]
fn identity_constants_have_fixed_values() {
    assert_eq!(VENDOR_ID, 0x16c0);
    assert_eq!(PRODUCT_ID, 0x05dc);
}

#[test]
fn candidate_has_both_ids() {
    assert!(Target::is_candidate(0x16c0, 0x05dc));
    assert!(!Target::is_candidate(0x16c0, 0x05dd));
    assert!(!Target::is_candidate(0x16c1, 0x05dc));
    assert!(!Target::is_candidate(0x05dc, 0x16c0));
}

#[test]
fn device_with_ids_and_strings_is_a_target() {
    let found = Target::try_from(&probe(4, "A1B2")).unwrap();
    assert_eq!(found.bus_number, 1);
    assert_eq!(found.address, 4);
    assert_eq!(found.serial, "A1B2");
    assert_eq!(found.serial(), "A1B2");
}

#[test]
fn device_with_other_ids_is_unsupported() {
    let mut other = probe(4, "A1B2");
    other.vendor_id = 0x0483;
    assert_eq!(Target::try_from(&other).unwrap_err(), Error::UnsupportedTarget);
    let mut other = probe(4, "A1B2");
    other.product_id = 0x05df;
    assert_eq!(Target::try_from(&other).unwrap_err(), Error::UnsupportedTarget);
}

#[test]
fn device_with_other_strings_is_unsupported() {
    for (manufacturer, product) in [
        ("25120", "Punt"),
        ("25120", "punt "),
        ("25120", ""),
        ("25120", "punt\0"),
        ("2512", "punt"),
        ("251200", "punt"),
        ("obdev.at", "punt"),
        ("punt", "25120"),
    ] {
        let mut other = probe(4, "A1B2");
        other.manufacturer = manufacturer.to_string();
        other.product = product.to_string();
        assert_eq!(Target::try_from(&other).unwrap_err(), Error::UnsupportedTarget);
    }
}

#[test]
fn serial_loses_terminators_at_its_end() {
    assert_eq!(Target::try_from(&probe(4, "A1B2\0")).unwrap().serial, "A1B2");
    assert_eq!(Target::try_from(&probe(4, "A1B2\0\0\0")).unwrap().serial, "A1B2");
    assert_eq!(Target::try_from(&probe(4, "A1\0B2\0")).unwrap().serial, "A1\0B2");
    assert_eq!(Target::try_from(&probe(4, "\0")).unwrap().serial, "");
    assert_eq!(Target::try_from(&probe(4, "")).unwrap().serial, "");
    assert_eq!(Target::try_from(&probe(4, "säriäl\0")).unwrap().serial, "säriäl");
}

#[test]
fn open_takes_the_first_two_endpoint_sizes() {
    let found = target(4, "A1B2");
    let handle = found.open(&[64, 32, 8]).unwrap();
    assert_eq!(handle.max_read_chunk_size(), 64);
    assert_eq!(handle.max_program_chunk_size(), 28);
    let handle = found.open(&[16, 64]).unwrap();
    assert_eq!(handle.max_read_chunk_size(), 16);
    assert_eq!(handle.max_program_chunk_size(), 60);
}

#[test]
fn open_needs_two_usable_endpoints() {
    let found = target(4, "A1B2");
    assert_eq!(found.open(&[]).unwrap_err(), Error::UnsupportedTarget);
    assert_eq!(found.open(&[64]).unwrap_err(), Error::UnsupportedTarget);
    assert_eq!(found.open(&[0, 64]).unwrap_err(), Error::UnsupportedTarget);
    assert_eq!(found.open(&[64, 4]).unwrap_err(), Error::UnsupportedTarget);
}

#[test]
fn find_targets_keeps_targets_in_order() {
    let mut keyboard = probe(2, "KB");
    keyboard.product = "keyboard".to_string();
    let mut hub = probe(3, "HUB");
    hub.vendor_id = 0x1d6b;
    let probes = vec![probe(1, "first\0"), keyboard, probe(5, "second"), hub, probe(9, "third")];
    let targets = find_targets(&probes);
    assert_eq!(targets.len(), 3);
    assert!(same(&targets[0], &target(1, "first")));
    assert!(same(&targets[1], &target(5, "second")));
    assert!(same(&targets[2], &target(9, "third")));
    assert!(find_targets(&[]).is_empty());
}

#[test]
fn find_targets_skips_everything_that_is_no_target() {
    let mut keyboard = probe(2, "KB");
    keyboard.manufacturer = "someone".to_string();
    assert!(find_targets(&[keyboard]).is_empty());
}

#[test]
fn single_target_is_picked_without_serial() {
    let picked = pick_target(vec![target(4, "A1B2")], None).unwrap();
    assert!(same(&picked, &target(4, "A1B2")));
}

#[test]
fn no_target_is_not_found() {
    assert_eq!(pick_target(Vec::new(), None).unwrap_err(), Error::TargetNotFound);
    assert_eq!(pick_target(Vec::new(), Some("A1B2")).unwrap_err(), Error::TargetNotFound);
}

#[test]
fn several_targets_without_serial_are_too_many() {
    let targets = vec![target(4, "A1B2"), target(5, "C3D4")];
    assert_eq!(pick_target(targets, None).unwrap_err(), Error::TooManyMatches);
    let targets = vec![target(4, "A"), target(5, "A"), target(6, "A")];
    assert_eq!(pick_target(targets, None).unwrap_err(), Error::TooManyMatches);
}

#[test]
fn target_is_picked_by_serial() {
    let targets = vec![target(4, "A1B2"), target(5, "C3D4"), target(6, "E5F6")];
    let picked = pick_target(targets, Some("C3D4")).unwrap();
    assert!(same(&picked, &target(5, "C3D4")));
    let picked = pick_target(vec![target(4, "A1B2")], Some("A1B2")).unwrap();
    assert!(same(&picked, &target(4, "A1B2")));
}

#[test]
fn first_of_equal_serials_is_picked() {
    let targets = vec![target(4, "X"), target(5, "SAME"), target(6, "SAME")];
    let picked = pick_target(targets, Some("SAME")).unwrap();
    assert!(same(&picked, &target(5, "SAME")));
}

#[test]
fn unknown_serial_is_not_found() {
    let targets = vec![target(4, "A1B2"), target(5, "C3D4")];
    assert_eq!(pick_target(targets, Some("ZZZZ")).unwrap_err(), Error::TargetNotFound);
    assert_eq!(pick_target(vec![target(4, "A1B2")], Some("a1b2")).unwrap_err(), Error::TargetNotFound);
    assert_eq!(pick_target(vec![target(4, "A1B2")], Some("A1B")).unwrap_err(), Error::TargetNotFound);
    assert_eq!(pick_target(vec![target(4, "A1B2")], Some("")).unwrap_err(), Error::TargetNotFound);
}

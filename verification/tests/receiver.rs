use mchose_tray::battery::Status;
use mchose_tray::receiver::{
    check_request_written, is_named, read_wait_ms, is_receiver, product_label, receiver_order, ReceiverInfo, Scan,
};

fn info(usage_page: u16, product: Option<&str>) -> ReceiverInfo {
    ReceiverInfo {
        vendor_id: 0x3837,
        product_id: 0x1014,
        usage_page,
        usage: 1,
        interface_number: 2,
        product: product.map(|p| p.to_string()),
    }
}

#[test]
fn selectors_must_all_match() {
    assert!(is_receiver(&info(0xff01, None)));
    assert!(!is_receiver(&info(0xff00, None)));
    let mut other = info(0xff01, None);
    other.interface_number = 1;
    assert!(!is_receiver(&other));
    other = info(0xff01, None);
    other.vendor_id = 0x3838;
    assert!(!is_receiver(&other));
}

#[test]
fn named_receivers_are_tried_first() {
    let devices = vec![
        info(0xff01, Some("Other name")),
        info(0xff00, Some("MCHOSE K7 V2 Ultra+")),
        info(0xff01, None),
        info(0xff01, Some("MCHOSE K7 V2 Ultra+")),
    ];
    assert_eq!(receiver_order(&devices), vec![3, 0, 2]);
    assert!(is_named(&devices[3]));
    assert!(!is_named(&devices[0]));
    assert_eq!(product_label(&devices[2]), "<unknown>");
    assert_eq!(product_label(&devices[0]), "Other name");
    assert_eq!(receiver_order(&vec![]), Vec::<usize>::new());
}

#[test]
fn no_receiver_means_disconnected() {
    assert_eq!(Scan::new().finish(), Ok(Status::Disconnected));
}

#[test]
fn percentage_ends_the_scan() {
    let mut scan = Scan::new();
    let battery = Status::Battery {
        percent: 50,
        charging: false,
    };
    assert_eq!(scan.record(&info(0xff01, None), Ok(battery)), Some(battery));
}

#[test]
fn last_reading_without_percentage_wins_over_failures() {
    let mut scan = Scan::new();
    assert_eq!(
        scan.record(&info(0xff01, Some("A")), Err("gone".to_string())),
        None
    );
    assert_eq!(scan.record(&info(0xff01, None), Ok(Status::Unavailable)), None);
    assert_eq!(
        scan.record(&info(0xff01, None), Err("timeout".to_string())),
        None
    );
    assert_eq!(scan.finish(), Ok(Status::Unavailable));
}

#[test]
fn failures_are_joined() {
    let mut scan = Scan::new();
    scan.record(&info(0xff01, Some("A")), Err("gone".to_string()));
    scan.record(&info(0xff01, None), Err("busy".to_string()));
    assert_eq!(scan.finish(), Err("A: gone; <unknown>: busy".to_string()));
}

#[test]
fn request_must_be_written_whole() {
    assert_eq!(check_request_written(64), Ok(()));
    assert_eq!(
        check_request_written(63),
        Err("Incomplete battery request".to_string())
    );
}

#[test]
fn reads_wait_one_slice_at_most() {
    assert_eq!(read_wait_ms(800), 100);
    assert_eq!(read_wait_ms(100), 100);
    assert_eq!(read_wait_ms(37), 37);
    assert_eq!(read_wait_ms(0), 1);
}

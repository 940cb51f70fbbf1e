use mchose_tray::battery::{parse, request, Status, MODEL, REPORT_LEN};

fn capture() -> Vec<u8> {
    // Real receiver, 83%, wireless, not charging. Includes packet checksum.
    vec![
        0x4d, 1, 1, 0x10, 0, 9, 0, 0, 0x37, 0x38, 0x26, 0x40, 4, 0, 0, 0, 0, 0x10, 2, 0, 0x53, 0,
        8, 0xe4, 0xd8,
    ]
}

fn changed(connection: u8, charge: u8, percent: u8) -> Vec<u8> {
    let mut r = capture();
    r[18] = connection;
    r[19] = charge;
    r[20] = percent;
    r[24] = r[2..24].iter().fold(0, |acc, x| acc ^ x);
    r
}

#[test]
fn real_capture() {
    assert_eq!(
        parse(&capture()),
        Some(Status::Battery {
            percent: 83,
            charging: false
        })
    );
}

#[test]
fn no_cached_percentage_when_link_is_down() {
    assert_eq!(parse(&changed(0, 0, 83)), Some(Status::Unavailable));
}

#[test]
fn rejects_corruption_truncation_and_other_commands() {
    let r = capture();
    for end in 0..r.len() {
        assert_eq!(parse(&r[..end]), None);
    }
    for index in 0..r.len() {
        if index == 7 {
            continue;
        }
        let mut broken = r.clone();
        broken[index] ^= 1;
        assert_eq!(parse(&broken), None, "offset {index}");
    }
    assert_eq!(parse(&changed(2, 0, 101)), None);
    assert_eq!(parse(&changed(2, 2, 80)), None);
    assert_eq!(parse(&changed(1, 0, 80)), None);
}

#[test]
fn accepts_nonzero_sequence_when_checksum_matches() {
    let mut r = capture();
    r[7] = 7;
    r[24] = r[2..24].iter().fold(0, |acc, x| acc ^ x);
    assert_eq!(
        parse(&r),
        Some(Status::Battery {
            percent: 83,
            charging: false
        })
    );
}

#[test]
fn zero_and_full_are_valid() {
    assert_eq!(
        parse(&changed(2, 0, 0)),
        Some(Status::Battery {
            percent: 0,
            charging: false
        })
    );
    assert_eq!(
        parse(&changed(2, 1, 100)),
        Some(Status::Battery {
            percent: 100,
            charging: true
        })
    );
}

#[test]
fn request_is_only_device_info() {
    let r = request();
    assert_eq!(&r[..8], &[0x4d, 1, 1, 0, 0, 9, 0, 0]);
    assert_eq!(r[8], r[2..8].iter().fold(0, |acc, x| acc ^ x));
    assert!(r[9..].iter().all(|x| *x == 0));
}

#[test]
fn request_fills_one_report() {
    assert_eq!(request().len(), REPORT_LEN);
}

#[test]
fn padding_after_the_frame_is_not_checksummed() {
    let mut r = capture();
    r.resize(64, 0);
    r[40] = 0xaa;
    assert_eq!(
        parse(&r),
        Some(Status::Battery {
            percent: 83,
            charging: false
        })
    );
}

#[test]
fn other_vendor_and_short_payload_are_rejected() {
    let mut r = capture();
    r[8] = 0x36;
    r[24] = r[2..24].iter().fold(0, |acc, x| acc ^ x);
    assert_eq!(parse(&r), None);
    let mut short = capture();
    short[3] = 13;
    short[21] = short[2..21].iter().fold(0, |acc, x| acc ^ x);
    assert_eq!(parse(&short), None);
}

#[test]
fn changed_sequence_with_fixed_checksum_reads_the_same() {
    let r = changed(2, 1, 40);
    let mut s = r.clone();
    s[7] = 0x5c;
    s[24] = r[24] ^ r[7] ^ 0x5c;
    assert_eq!(parse(&s), parse(&r));
    assert_eq!(
        parse(&s),
        Some(Status::Battery {
            percent: 40,
            charging: true
        })
    );
}

#[test]
fn labels() {
    assert_eq!(Status::Checking.label(), "Checking battery…");
    assert_eq!(Status::Disconnected.label(), "Receiver disconnected");
    assert_eq!(
        Status::Unavailable.label(),
        "Battery unavailable — mouse may be asleep"
    );
    assert_eq!(
        Status::Battery {
            percent: 83,
            charging: false
        }
        .label(),
        "83%"
    );
    assert_eq!(
        Status::Battery {
            percent: 7,
            charging: true
        }
        .label(),
        "7% · Charging"
    );
    assert_eq!(
        Status::Battery {
            percent: 100,
            charging: true
        }
        .label(),
        "100% · Fully charged"
    );
    assert_eq!(
        Status::Battery {
            percent: 100,
            charging: false
        }
        .label(),
        "100%"
    );
    assert_eq!(
        Status::Battery {
            percent: 0,
            charging: false
        }
        .label(),
        "0%"
    );
}

#[test]
fn model_name() {
    assert_eq!(MODEL, "MCHOSE K7 V2 Ultra+");
}

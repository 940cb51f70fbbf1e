//! The receiver's battery protocol: the device-info request, the reply
//! parser, and the label shown for each reading.
use vstd::prelude::*;
use vstd::string::*;
use crate::text::{decimal, push_decimal};

verus! {

/// Product name reported by the receiver.
pub const MODEL: &'static str = "MCHOSE K7 V2 Ultra+";

/// Length of every report exchanged with the receiver, report ID included.
pub const REPORT_LEN: usize = 64;

/// What the tray knows about the mouse battery.
#[derive(Debug, Clone, Copy, PartialEq, Eq, Structural)]
pub enum Status {
    Checking,
    Disconnected,
    Unavailable,
    Battery { percent: u8, charging: bool },
}

/// XOR of all bytes of `s`, folded from the left.
pub open spec fn xor_all(s: Seq<u8>) -> u8
    decreases s.len(),
{
    if s.len() == 0 {
        0
    } else {
        xor_all(s.drop_last()) ^ s.last()
    }
}

/// Report ID, version and flags, then the little-endian command `0900`
/// and business code zero. Byte 7 (the sequence value) is not fixed.
pub open spec fn header_matches(r: Seq<u8>) -> bool {
    &&& r.len() >= 9
    &&& r[0] == 0x4d && r[1] == 1 && r[2] == 1
    &&& r[4] == 0 && r[5] == 9 && r[6] == 0
}

/// Byte 3: the payload length.
pub open spec fn payload_len(r: Seq<u8>) -> int {
    r[3] as int
}

/// The payload is long enough for the fields read and lies wholly in the
/// report, followed by its checksum byte.
pub open spec fn frame_complete(r: Seq<u8>) -> bool {
    payload_len(r) >= 14 && r.len() >= 9 + payload_len(r)
}

/// The byte after the payload is the XOR of bytes 2 to the end of the payload.
pub open spec fn checksum_matches(r: Seq<u8>) -> bool {
    xor_all(r.subrange(2, 8 + payload_len(r))) == r[8 + payload_len(r)]
}

/// The payload starts with the mouse vendor ID `3837`, little-endian.
pub open spec fn vendor_matches(r: Seq<u8>) -> bool {
    r[8] == 0x37 && r[9] == 0x38
}

/// Payload offset 10: connection state.
pub open spec fn connection(r: Seq<u8>) -> u8 {
    r[18]
}

/// Payload offset 11: charging flag.
pub open spec fn charge_flag(r: Seq<u8>) -> u8 {
    r[19]
}

/// Payload offset 12: battery percentage.
pub open spec fn percent_byte(r: Seq<u8>) -> u8 {
    r[20]
}

/// A matching, complete and checksummed device-info reply.
pub open spec fn well_framed(r: Seq<u8>) -> bool {
    header_matches(r) && frame_complete(r) && checksum_matches(r) && vendor_matches(r)
}

/// What a reply means: `None` for anything that is not a usable reply.
pub open spec fn reply_status(r: Seq<u8>) -> Option<Status> {
    if !well_framed(r) {
        None
    } else if connection(r) == 0 {
        Some(Status::Unavailable)
    } else if connection(r) != 2 {
        None
    } else if percent_byte(r) > 100 || charge_flag(r) > 1 {
        None
    } else {
        Some(Status::Battery { percent: percent_byte(r), charging: charge_flag(r) == 1 })
    }
}

/// The read-only device-info request, zero-padded to the report length.
pub open spec fn request_bytes() -> Seq<u8> {
    seq![0x4du8, 1, 1, 0, 0, 9, 0, 0, 8] + Seq::new(55, |i: int| 0u8)
}

proof fn lemma_xor_all_step(s: Seq<u8>, start: int, end: int)
    requires
        0 <= start <= end < s.len(),
    ensures
        xor_all(s.subrange(start, end + 1)) == xor_all(s.subrange(start, end)) ^ s[end],
{
    assert(s.subrange(start, end + 1).drop_last() =~= s.subrange(start, end));
}

/// Builds the device-info request (command `0900`).
pub fn request() -> (report: [u8; 64])
    ensures
        report@ == request_bytes(),
{
    let mut report = [0u8; 64];
    report[0] = 0x4d;
    report[1] = 1;
    report[2] = 1;
    report[5] = 9;
    report[8] = 8;
    assert(report@ =~= request_bytes());
    report
}

/// Reads a battery reply. Anything other than a matching, complete,
/// checksummed reply with a valid percentage, charge flag and connection
/// state gives `None`; a reply whose link is down gives `Unavailable`.
pub fn parse(report: &[u8]) -> (status: Option<Status>)
    ensures
        status == reply_status(report@),
{
    let r = Ghost(report@);
    if report.len() < 9 || report[0] != 0x4d || report[1] != 1 || report[2] != 1 || report[4] != 0
        || report[5] != 9 || report[6] != 0 {
        return None;
    }
    let length = report[3] as usize;
    if length < 14 || report.len() < 9 + length {
        return None;
    }
    let mut checksum: u8 = 0;
    let mut i: usize = 2;
    while i < 8 + length
        invariant
            r@ == report@,
            length == payload_len(r@),
            9 + length <= report.len(),
            2 <= i <= 8 + length,
            checksum == xor_all(report@.subrange(2, i as int)),
        decreases 8 + length - i,
    {
        proof {
            lemma_xor_all_step(report@, 2, i as int);
        }
        checksum = checksum ^ report[i];
        i = i + 1;
    }
    if checksum != report[8 + length] {
        return None;
    }
    if report[8] != 0x37 || report[9] != 0x38 {
        return None;
    }
    let state = report[18];
    if state == 0 {
        return Some(Status::Unavailable);
    }
    if state != 2 {
        return None;
    }
    let percent = report[20];
    let charge = report[19];
    if percent > 100 || charge > 1 {
        return None;
    }
    Some(Status::Battery { percent, charging: charge == 1 })
}

/// The suffix after a percentage: full only when charging at 100%.
pub open spec fn charge_suffix(percent: u8, charging: bool) -> Seq<char> {
    if charging && percent == 100 {
        " · Fully charged"@
    } else if charging {
        " · Charging"@
    } else {
        Seq::empty()
    }
}

/// The text shown in the menu and the tooltip for a reading.
pub open spec fn label_text(status: Status) -> Seq<char> {
    match status {
        Status::Checking => "Checking battery…"@,
        Status::Disconnected => "Receiver disconnected"@,
        Status::Unavailable => "Battery unavailable — mouse may be asleep"@,
        Status::Battery { percent, charging } => decimal(percent as nat) + "%"@ + charge_suffix(
            percent,
            charging,
        ),
    }
}

impl Status {
    /// The text shown for this reading, such as `83% · Charging`.
    pub fn label(self) -> (text: String)
        ensures
            text@ == label_text(self),
    {
        match self {
            Status::Checking => String::from_str("Checking battery…"),
            Status::Disconnected => String::from_str("Receiver disconnected"),
            Status::Unavailable => String::from_str("Battery unavailable — mouse may be asleep"),
            Status::Battery { percent, charging } => {
                let mut text = String::new();
                push_decimal(&mut text, percent as u64);
                text.append("%");
                if charging && percent == 100 {
                    text.append(" · Fully charged");
                } else if charging {
                    text.append(" · Charging");
                }
                assert(text@ =~= label_text(self));
                text
            },
        }
    }
}

/// Replacing one byte of a sequence changes its XOR by the old and the new byte.
proof fn lemma_xor_all_update(s: Seq<u8>, k: int, v: u8)
    requires
        0 <= k < s.len(),
    ensures
        xor_all(s.update(k, v)) == xor_all(s) ^ s[k] ^ v,
    decreases s.len(),
{
    let t = s.update(k, v);
    let x = xor_all(s.drop_last());
    let last = s.last();
    let sk = s[k];
    if k == s.len() - 1 {
        assert(t.drop_last() =~= s.drop_last());
        assert((x ^ v) == (x ^ last) ^ last ^ v) by (bit_vector);
    } else {
        lemma_xor_all_update(s.drop_last(), k, v);
        assert(t.drop_last() =~= s.drop_last().update(k, v));
        assert((x ^ sk ^ v) ^ last == (x ^ last) ^ sk ^ v) by (bit_vector);
    }
}

/// The request is the device-info command `0900` with the protocol's
/// header, and its byte 8 is the XOR of bytes 2 to 7, as in a reply frame.
pub proof fn lemma_request_is_device_info()
    ensures
        request_bytes().len() == REPORT_LEN,
        request_bytes()[0] == 0x4d && request_bytes()[1] == 1 && request_bytes()[2] == 1,
        request_bytes()[4] == 0 && request_bytes()[5] == 9,
        request_bytes()[8] == xor_all(request_bytes().subrange(2, 8)),
        forall|i: int| 9 <= i < REPORT_LEN ==> request_bytes()[i] == 0,
{
    let r = request_bytes();
    assert(r.subrange(2, 8) =~= seq![1u8, 0, 0, 9, 0, 0]);
    let s6 = seq![1u8, 0, 0, 9, 0, 0];
    reveal_with_fuel(xor_all, 7);
    assert(s6.drop_last() =~= seq![1u8, 0, 0, 9, 0]);
    assert(s6.drop_last().drop_last() =~= seq![1u8, 0, 0, 9]);
    assert(s6.drop_last().drop_last().drop_last() =~= seq![1u8, 0, 0]);
    assert(seq![1u8, 0, 0].drop_last() =~= seq![1u8, 0]);
    assert(seq![1u8, 0].drop_last() =~= seq![1u8]);
    assert(seq![1u8].drop_last() =~= Seq::<u8>::empty());
    assert(((((((0u8 ^ 1u8) ^ 0u8) ^ 0u8) ^ 9u8) ^ 0u8) ^ 0u8) == 8u8) by (bit_vector);
}

/// Any reply that is read is rejected once one byte of its frame (header,
/// sequence, payload or checksum), other than the length byte, is changed.
pub proof fn lemma_single_byte_corruption_is_rejected(r: Seq<u8>, i: int, v: u8)
    requires
        reply_status(r) is Some,
        0 <= i < 9 + payload_len(r),
        i != 3,
        v != r[i],
    ensures
        reply_status(r.update(i, v)) is None,
{
    let t = r.update(i, v);
    let n = payload_len(r);
    assert(payload_len(t) == n);
    if 7 <= i < 8 + n {
        assert(t.subrange(2, 8 + n) =~= r.subrange(2, 8 + n).update(i - 2, v));
        lemma_xor_all_update(r.subrange(2, 8 + n), i - 2, v);
        let x = xor_all(r.subrange(2, 8 + n));
        let old_byte = r[i];
        assert(old_byte != v ==> x ^ old_byte ^ v != x) by (bit_vector);
    } else if i == 8 + n {
        assert(t.subrange(2, 8 + n) =~= r.subrange(2, 8 + n));
    }
}

/// The sequence byte may take any value: a reply whose sequence byte is
/// replaced, with its checksum adjusted to match, reads the same.
pub proof fn lemma_sequence_byte_is_free(r: Seq<u8>, v: u8)
    requires
        well_framed(r),
    ensures
        ({
            let n = payload_len(r);
            let t = r.update(7, v).update(8 + n, r[8 + n] ^ r[7] ^ v);
            reply_status(t) == reply_status(r)
        }),
{
    let n = payload_len(r);
    let t = r.update(7, v).update(8 + n, r[8 + n] ^ r[7] ^ v);
    assert(t.subrange(2, 8 + n) =~= r.subrange(2, 8 + n).update(5, v));
    lemma_xor_all_update(r.subrange(2, 8 + n), 5, v);
}

/// A battery reading comes straight from the payload: the percentage is
/// payload byte 12 (report byte 20) and is at most 100, and the mouse is
/// charging exactly when payload byte 11 (report byte 19) is 1, whatever
/// the percentage. A reply whose link is up (payload byte 10 is 2) with
/// such bytes is read that way.
pub proof fn lemma_battery_reading_fields(r: Seq<u8>)
    ensures
        reply_status(r) matches Some(Status::Battery { percent, charging }) ==> {
            &&& r.len() >= 21
            &&& percent == r[20]
            &&& percent <= 100
            &&& charging == (r[19] == 1)
            &&& r[19] <= 1
            &&& r[18] == 2
        },
        reply_status(r) is Some && r[18] == 2 ==> reply_status(r) == Some(
            Status::Battery { percent: r[20], charging: r[19] == 1 },
        ),
        reply_status(r) is Some && r[18] == 0 ==> reply_status(r) == Some(Status::Unavailable),
{
}

/// The label of a battery reading: the percentage in decimal and `%`,
/// then ` · Charging` while charging below 100%, or ` · Fully charged`
/// while charging at exactly 100%; nothing more when not charging.
pub proof fn lemma_battery_label(percent: u8, charging: bool)
    ensures
        charging && percent < 100 ==> label_text(Status::Battery { percent, charging })
            == decimal(percent as nat) + seq!['%', ' ', '·', ' ', 'C', 'h', 'a', 'r', 'g', 'i', 'n', 'g'],
        charging && percent == 100 ==> label_text(Status::Battery { percent, charging }) == seq![
            '1', '0', '0', '%', ' ', '·', ' ', 'F', 'u', 'l', 'l', 'y', ' ', 'c', 'h', 'a', 'r', 'g',
            'e', 'd',
        ],
        !charging ==> label_text(Status::Battery { percent, charging }) == decimal(percent as nat)
            + seq!['%'],
{
    reveal_strlit("%");
    reveal_strlit(" · Charging");
    reveal_strlit(" · Fully charged");
    if charging && percent == 100 {
        reveal_with_fuel(decimal, 3);
        assert(decimal(100) == seq!['1', '0', '0']) by {
            assert(decimal(1) == seq![crate::text::digit_char(1)]);
        }
    }
    assert(seq!['%'] + seq![' ', '·', ' ', 'C', 'h', 'a', 'r', 'g', 'i', 'n', 'g'] =~= seq![
        '%', ' ', '·', ' ', 'C', 'h', 'a', 'r', 'g', 'i', 'n', 'g']);
    assert(seq!['1', '0', '0'] + seq!['%'] + seq![' ', '·', ' ', 'F', 'u', 'l', 'l', 'y', ' ', 'c', 'h', 'a', 'r', 'g', 'e', 'd'] =~= seq![
            '1', '0', '0', '%', ' ', '·', ' ', 'F', 'u', 'l', 'l', 'y', ' ', 'c', 'h', 'a', 'r', 'g',
            'e', 'd']);
    assert(decimal(percent as nat) + seq!['%'] + Seq::<char>::empty() =~= decimal(percent as nat) + seq!['%']);
}

} // verus!

//! Turning the package version into the four numbers of a Windows
//! version resource.
use vstd::prelude::*;
use vstd::string::*;
use crate::text::{decimal, push_char, push_decimal};

verus! {

/// A character `str::parse` reads as a decimal digit.
pub open spec fn is_digit(c: char) -> bool {
    '0' <= c && c <= '9'
}

/// The value of a run of decimal digits.
pub open spec fn digits_value(s: Seq<char>) -> int
    decreases s.len(),
{
    if s.len() == 0 {
        0
    } else {
        digits_value(s.drop_last()) * 10 + (s.last() as int - '0' as int)
    }
}

/// The text after an optional leading `+`.
pub open spec fn unsigned_digits(s: Seq<char>) -> Seq<char> {
    if s.len() > 0 && s[0] == '+' {
        s.drop_first()
    } else {
        s
    }
}

/// Every character is a decimal digit.
pub open spec fn all_digits(s: Seq<char>) -> bool {
    forall|i: int| 0 <= i < s.len() ==> is_digit(#[trigger] s[i])
}

/// `u16::from_str`: an optional `+`, then at least one decimal digit, and a
/// value that fits.
pub open spec fn parse_u16_spec(s: Seq<char>) -> Option<u16> {
    let digits = unsigned_digits(s);
    if digits.len() > 0 && all_digits(digits) && digits_value(digits) <= u16::MAX {
        Some(digits_value(digits) as u16)
    } else {
        None
    }
}

/// Version parts are separated by `.` and `-`.
pub open spec fn is_separator(c: char) -> bool {
    c == '.' || c == '-'
}

/// The parts of `s` between separators (`str::split`): one more than
/// there are separators, possibly empty.
pub open spec fn split_parts(s: Seq<char>) -> Seq<Seq<char>>
    decreases s.len(),
{
    if s.len() == 0 {
        seq![Seq::<char>::empty()]
    } else {
        let parts = split_parts(s.drop_last());
        if is_separator(s.last()) {
            parts.push(Seq::empty())
        } else {
            parts.update(parts.len() - 1, parts.last().push(s.last()))
        }
    }
}

/// A version part as a number, zero when it is not one.
pub open spec fn part_number(part: Seq<char>) -> u16 {
    match parse_u16_spec(part) {
        Some(n) => n,
        None => 0,
    }
}

/// The first four parts of a version as numbers; missing parts are zero.
pub open spec fn numeric_version_spec(version: Seq<char>) -> Seq<u16> {
    let parts = split_parts(version);
    Seq::new(4, |k: int| if k < parts.len() { part_number(parts[k]) } else { 0 })
}

proof fn lemma_split_parts_nonempty(s: Seq<char>)
    ensures
        split_parts(s).len() >= 1,
    decreases s.len(),
{
    if s.len() > 0 {
        lemma_split_parts_nonempty(s.drop_last());
    }
}

proof fn lemma_digits_value_grows(s: Seq<char>, k: int)
    requires
        0 <= k <= s.len(),
        forall|i: int| 0 <= i < s.len() ==> is_digit(#[trigger] s[i]),
    ensures
        digits_value(s.take(k)) <= digits_value(s),
        0 <= digits_value(s.take(k)),
    decreases s.len() - k,
{
    if k < s.len() {
        lemma_digits_value_grows(s, k + 1);
        assert(s.take(k + 1).drop_last() =~= s.take(k));
        lemma_digits_value_nonneg(s.take(k));
    } else {
        assert(s.take(k) =~= s);
        lemma_digits_value_nonneg(s);
    }
}

proof fn lemma_digits_value_nonneg(s: Seq<char>)
    requires
        forall|i: int| 0 <= i < s.len() ==> is_digit(#[trigger] s[i]),
    ensures
        0 <= digits_value(s),
    decreases s.len(),
{
    if s.len() > 0 {
        lemma_digits_value_nonneg(s.drop_last());
    }
}

/// Reads a decimal `u16` as `str::parse` does.
pub fn parse_u16(text: &str) -> (n: Option<u16>)
    ensures
        n == parse_u16_spec(text@),
{
    let len = text.unicode_len();
    let mut i: usize = 0;
    if len > 0 && text.get_char(0) == '+' {
        i = 1;
    }
    let ghost digits = unsigned_digits(text@);
    assert(digits =~= text@.subrange(i as int, len as int));
    if i == len {
        return None;
    }
    let mut value: u32 = 0;
    let start = i;
    while i < len
        invariant
            len == text@.len(),
            start <= i <= len,
            start < len,
            digits == unsigned_digits(text@),
            digits =~= text@.subrange(start as int, len as int),
            forall|j: int| 0 <= j < i - start ==> is_digit(#[trigger] digits[j]),
            value == digits_value(digits.take(i - start)),
            value <= u16::MAX,
        decreases len - i,
    {
        let c = text.get_char(i);
        if !('0' <= c && c <= '9') {
            assert(!is_digit(digits[i - start]));
            return None;
        }
        let d = (c as u32) - ('0' as u32);
        assert(digits.take(i + 1 - start).drop_last() =~= digits.take(i - start));
        let next = value * 10 + d;
        assert(digits[i - start] == c);
        if next > 65535 {
            proof {
                let k = i + 1 - start;
                assert(digits_value(digits.take(k)) == next);
                if all_digits(digits) {
                    lemma_digits_value_grows(digits, k);
                }
            }
            return None;
        }
        value = next;
        i = i + 1;
    }
    assert(digits.take(len - start) =~= digits);
    Some(value as u16)
}

/// The four numbers of a Windows version resource for a package version
/// such as `1.2.3-beta.1`: its first four parts separated by `.` or `-`,
/// each part that is not a number counting as zero.
pub fn numeric_version(version: &str) -> (numbers: [u16; 4])
    ensures
        numbers@ == numeric_version_spec(version@),
{
    let mut numbers: [u16; 4] = [0, 0, 0, 0];
    let len = version.unicode_len();
    let mut start: usize = 0;
    let mut k: usize = 0;
    let mut i: usize = 0;
    assert(version@.take(0) =~= Seq::<char>::empty());
    while i < len
        invariant
            len == version@.len(),
            start <= i <= len,
            k <= i,
            split_parts(version@.take(i as int)).len() == k + 1,
            split_parts(version@.take(i as int)).last() == version@.subrange(start as int, i as int),
            forall|j: int|
                0 <= j < k && j < 4 ==> numbers@[j] == part_number(
                    #[trigger] split_parts(version@.take(i as int))[j],
                ),
            forall|j: int| k <= j < 4 ==> numbers@[j] == 0,
        decreases len - i,
    {
        let ghost before = split_parts(version@.take(i as int));
        let c = version.get_char(i);
        assert(version@.take(i + 1).drop_last() =~= version@.take(i as int));
        if c == '.' || c == '-' {
            let part = version.substring_char(start, i);
            if k < 4 {
                numbers[k] = match parse_u16(part) {
                    Some(n) => n,
                    None => 0,
                };
            }
            k = k + 1;
            start = i + 1;
            assert(version@.subrange(start as int, i + 1) =~= Seq::<char>::empty());
        } else {
            assert(version@.subrange(start as int, i + 1) =~= version@.subrange(start as int, i as int).push(c));
        }
        i = i + 1;
    }
    assert(version@.take(len as int) =~= version@);
    let part = version.substring_char(start, len);
    if k < 4 {
        numbers[k] = match parse_u16(part) {
            Some(n) => n,
            None => 0,
        };
    }
    assert(numbers@ =~= numeric_version_spec(version@));
    numbers
}

/// The four numbers joined by `sep`.
pub open spec fn joined_numbers(version: Seq<u16>, sep: Seq<char>) -> Seq<char> {
    decimal(version[0] as nat) + sep + decimal(version[1] as nat) + sep + decimal(version[2] as nat)
        + sep + decimal(version[3] as nat)
}

/// A path with its backslashes turned into forward slashes.
pub open spec fn forward_slashes(path: Seq<char>) -> Seq<char> {
    path.map_values(|c: char| if c == '\\' { '/' } else { c })
}

/// The resource script that gives an executable its icon and version
/// information.
pub open spec fn version_resource_spec(
    binary: Seq<char>,
    description: Seq<char>,
    version: Seq<u16>,
    icon: Seq<char>,
) -> Seq<char> {
    let dotted = joined_numbers(version, "."@);
    let comma = joined_numbers(version, ","@);
    "1 ICON \""@ + forward_slashes(icon) + "\"\n\n1 VERSIONINFO\nFILEVERSION "@ + comma
        + "\nPRODUCTVERSION "@ + comma + RESOURCE_FLAGS@ + description
        + "\\0\"\n            VALUE \"FileVersion\", \""@ + dotted
        + "\\0\"\n            VALUE \"InternalName\", \""@ + binary
        + "\\0\"\n            VALUE \"OriginalFilename\", \""@ + binary
        + ".exe\\0\"\n            VALUE \"ProductName\", \"MCHOSE Battery\\0\"\n            VALUE \"ProductVersion\", \""@
        + dotted + RESOURCE_END@
}

/// The fixed part of the resource script between the product version and
/// the description.
pub const RESOURCE_FLAGS: &'static str = "\nFILEFLAGSMASK 0x3fL\nFILEFLAGS 0\nFILEOS 0x00040004L\nFILETYPE 0x00000001L\nBEGIN\n    BLOCK \"StringFileInfo\"\n    BEGIN\n        BLOCK \"040904B0\"\n        BEGIN\n            VALUE \"FileDescription\", \"";

/// The fixed end of the resource script.
pub const RESOURCE_END: &'static str = "\\0\"\n        END\n    END\n    BLOCK \"VarFileInfo\"\n    BEGIN\n        VALUE \"Translation\", 0x0409, 1200\n    END\nEND\n";

fn push_joined_numbers(text: &mut String, version: [u16; 4], sep: &str)
    ensures
        final(text)@ == old(text)@ + joined_numbers(version@, sep@),
{
    push_decimal(text, version[0] as u64);
    text.append(sep);
    push_decimal(text, version[1] as u64);
    text.append(sep);
    push_decimal(text, version[2] as u64);
    text.append(sep);
    push_decimal(text, version[3] as u64);
    assert(final(text)@ =~= old(text)@ + joined_numbers(version@, sep@));
}

fn push_forward_slashes(text: &mut String, path: &str)
    ensures
        final(text)@ == old(text)@ + forward_slashes(path@),
{
    let n = path.unicode_len();
    let ghost start = text@;
    let mut i: usize = 0;
    while i < n
        invariant
            n == path@.len(),
            i <= n,
            text@ == start + forward_slashes(path@.take(i as int)),
        decreases n - i,
    {
        let c = path.get_char(i);
        push_char(text, if c == '\\' { '/' } else { c });
        assert(forward_slashes(path@.take(i + 1)) =~= forward_slashes(path@.take(i as int)).push(
            if c == '\\' { '/' } else { c },
        ));
        i = i + 1;
    }
    assert(path@.take(n as int) =~= path@);
}

/// Writes the resource script for one executable.
pub fn version_resource(binary: &str, description: &str, version: [u16; 4], icon: &str) -> (script:
    String)
    ensures
        script@ == version_resource_spec(binary@, description@, version@, icon@),
{
    let mut text = String::from_str("1 ICON \"");
    push_forward_slashes(&mut text, icon);
    text.append("\"\n\n1 VERSIONINFO\nFILEVERSION ");
    push_joined_numbers(&mut text, version, ",");
    text.append("\nPRODUCTVERSION ");
    push_joined_numbers(&mut text, version, ",");
    text.append(RESOURCE_FLAGS);
    text.append(description);
    text.append("\\0\"\n            VALUE \"FileVersion\", \"");
    push_joined_numbers(&mut text, version, ".");
    text.append("\\0\"\n            VALUE \"InternalName\", \"");
    text.append(binary);
    text.append("\\0\"\n            VALUE \"OriginalFilename\", \"");
    text.append(binary);
    text.append(
        ".exe\\0\"\n            VALUE \"ProductName\", \"MCHOSE Battery\\0\"\n            VALUE \"ProductVersion\", \"",
    );
    push_joined_numbers(&mut text, version, ".");
    text.append(RESOURCE_END);
    assert(text@ =~= version_resource_spec(binary@, description@, version@, icon@));
    text
}

} // verus!

//! Small text utilities shared by the labels, log lines and command parsing.
use vstd::prelude::*;
use vstd::string::*;

verus! {

/// The character of a decimal digit.
pub open spec fn digit_char(d: nat) -> char {
    (d + 48) as char
}

/// The decimal representation of `n`, without leading zeros.
pub open spec fn decimal(n: nat) -> Seq<char>
    decreases n,
{
    if n < 10 {
        seq![digit_char(n)]
    } else {
        decimal(n / 10).push(digit_char(n % 10))
    }
}

/// Appends one character to a string (`String::push`).
#[verifier::external_body]
pub(crate) fn push_char(s: &mut String, c: char)
    ensures
        final(s)@ == old(s)@.push(c),
{
    s.push(c);
}

/// Appends the decimal representation of `n` to `s`.
pub fn push_decimal(s: &mut String, n: u64)
    ensures
        final(s)@ == old(s)@ + decimal(n as nat),
    decreases n,
{
    if n >= 10 {
        push_decimal(s, n / 10);
    }
    let d: u8 = (n % 10) as u8;
    let c: char = (d + 48) as char;
    push_char(s, c);
    assert(final(s)@ =~= old(s)@ + decimal(n as nat));
}

/// `n` in decimal, padded on the left with zeros to at least `width` digits.
pub open spec fn zero_padded(n: nat, width: nat) -> Seq<char> {
    let digits = decimal(n);
    if digits.len() < width {
        Seq::new((width - digits.len()) as nat, |i: int| '0') + digits
    } else {
        digits
    }
}

/// Appends `n` in decimal, padded with zeros to at least `width` digits.
pub fn push_zero_padded(s: &mut String, n: u64, width: usize)
    ensures
        final(s)@ == old(s)@ + zero_padded(n as nat, width as nat),
{
    let mut digits = String::new();
    push_decimal(&mut digits, n);
    let len = digits.as_str().unicode_len();
    let ghost start = s@;
    let mut k: usize = len;
    while k < width
        invariant
            len == decimal(n as nat).len(),
            len <= k <= width || (width < len && k == len),
            s@ == start + Seq::new((k - len) as nat, |i: int| '0'),
        decreases width - k,
    {
        push_char(s, '0');
        assert(s@ =~= start + Seq::new((k + 1 - len) as nat, |i: int| '0'));
        k = k + 1;
    }
    s.append(digits.as_str());
    if len < width {
        assert(s@ =~= start + zero_padded(n as nat, width as nat));
    } else {
        assert(s@ =~= start + zero_padded(n as nat, width as nat));
    }
}

/// Whether two strings hold the same characters.
pub fn same_text(a: &str, b: &str) -> (same: bool)
    ensures
        same == (a@ == b@),
{
    let n = a.unicode_len();
    if n != b.unicode_len() {
        return false;
    }
    let mut i: usize = 0;
    while i < n
        invariant
            n == a@.len(),
            n == b@.len(),
            i <= n,
            forall|j: int| 0 <= j < i ==> a@[j] == b@[j],
        decreases n - i,
    {
        if a.get_char(i) != b.get_char(i) {
            return false;
        }
        i = i + 1;
    }
    assert(a@ =~= b@);
    true
}

/// The items of `list` separated by `sep`.
pub open spec fn joined(list: Seq<Seq<char>>, sep: Seq<char>) -> Seq<char>
    decreases list.len(),
{
    if list.len() == 0 {
        Seq::empty()
    } else if list.len() == 1 {
        list[0]
    } else {
        joined(list.drop_last(), sep) + sep + list.last()
    }
}

/// The views of a list of strings.
pub open spec fn views(list: Seq<String>) -> Seq<Seq<char>> {
    list.map_values(|s: String| s@)
}

/// Joins the strings of `list` with `sep` between them (`[String]::join`).
pub fn join(list: &Vec<String>, sep: &str) -> (text: String)
    ensures
        text@ == joined(views(list@), sep@),
{
    let mut text = String::new();
    let mut i: usize = 0;
    while i < list.len()
        invariant
            i <= list.len(),
            text@ == joined(views(list@.take(i as int)), sep@),
        decreases list.len() - i,
    {
        proof {
            assert(views(list@.take(i + 1)).drop_last() =~= views(list@.take(i as int)));
        }
        if i > 0 {
            text.append(sep);
        }
        text.append(list[i].as_str());
        proof {
            if i == 0 {
                assert(views(list@.take(1)) =~= seq![list@[0]@]);
            }
        }
        i = i + 1;
    }
    assert(list@.take(list.len() as int) =~= list@);
    text
}

/// Rust's `char::is_whitespace`: the Unicode `White_Space` property.
pub open spec fn is_white_space_spec(c: char) -> bool {
    let v = c as u32;
    ||| v == 0x20
    ||| 0x09 <= v <= 0x0d
    ||| v == 0x85
    ||| v == 0xa0
    ||| v == 0x1680
    ||| 0x2000 <= v <= 0x200a
    ||| v == 0x2028
    ||| v == 0x2029
    ||| v == 0x202f
    ||| v == 0x205f
    ||| v == 0x3000
}

/// Whether `c` is white space, as `char::is_whitespace` decides it.
pub fn is_white_space(c: char) -> (yes: bool)
    ensures
        yes == is_white_space_spec(c),
{
    let v = c as u32;
    v == 0x20 || (0x09 <= v && v <= 0x0d) || v == 0x85 || v == 0xa0 || v == 0x1680 || (0x2000
        <= v && v <= 0x200a) || v == 0x2028 || v == 0x2029 || v == 0x202f || v == 0x205f || v
        == 0x3000
}

/// `s` without its leading white space.
pub open spec fn trim_start(s: Seq<char>) -> Seq<char>
    decreases s.len(),
{
    if s.len() > 0 && is_white_space_spec(s[0]) {
        trim_start(s.drop_first())
    } else {
        s
    }
}

/// `s` without its trailing white space.
pub open spec fn trim_end(s: Seq<char>) -> Seq<char>
    decreases s.len(),
{
    if s.len() > 0 && is_white_space_spec(s.last()) {
        trim_end(s.drop_last())
    } else {
        s
    }
}

/// `s` without leading and trailing white space (`str::trim`).
pub open spec fn trimmed(s: Seq<char>) -> Seq<char> {
    trim_end(trim_start(s))
}

proof fn lemma_trim_start_skip(s: Seq<char>, i: int)
    requires
        0 <= i < s.len(),
        is_white_space_spec(s[i]),
    ensures
        trim_start(s.subrange(i, s.len() as int)) == trim_start(s.subrange(i + 1, s.len() as int)),
{
    assert(s.subrange(i, s.len() as int).drop_first() =~= s.subrange(i + 1, s.len() as int));
}

proof fn lemma_trim_end_skip(s: Seq<char>, j: int)
    requires
        0 < j <= s.len(),
        is_white_space_spec(s[j - 1]),
    ensures
        trim_end(s.subrange(0, j)) == trim_end(s.subrange(0, j - 1)),
{
    assert(s.subrange(0, j).drop_last() =~= s.subrange(0, j - 1));
}

/// Leading white space does not change what trimming the start leaves.
pub(crate) proof fn lemma_trim_start_skips_white_space(pre: Seq<char>, s: Seq<char>)
    requires
        forall|i: int| 0 <= i < pre.len() ==> is_white_space_spec(#[trigger] pre[i]),
    ensures
        trim_start(pre + s) == trim_start(s),
    decreases pre.len(),
{
    if pre.len() == 0 {
        assert(pre + s =~= s);
    } else {
        assert((pre + s).drop_first() =~= pre.drop_first() + s);
        assert(is_white_space_spec(pre[0]));
        lemma_trim_start_skips_white_space(pre.drop_first(), s);
    }
}

/// Trailing white space does not change what trimming the end leaves.
pub(crate) proof fn lemma_trim_end_skips_white_space(s: Seq<char>, post: Seq<char>)
    requires
        forall|i: int| 0 <= i < post.len() ==> is_white_space_spec(#[trigger] post[i]),
    ensures
        trim_end(s + post) == trim_end(s),
    decreases post.len(),
{
    if post.len() == 0 {
        assert(s + post =~= s);
    } else {
        assert((s + post).drop_last() =~= s + post.drop_last());
        assert(is_white_space_spec(post[post.len() - 1]));
        lemma_trim_end_skips_white_space(s, post.drop_last());
    }
}

/// Surrounding white space is dropped from a text that neither starts nor
/// ends with white space, and nothing else is.
pub proof fn lemma_trimmed_surrounded(pre: Seq<char>, s: Seq<char>, post: Seq<char>)
    requires
        s.len() > 0,
        !is_white_space_spec(s[0]),
        !is_white_space_spec(s.last()),
        forall|i: int| 0 <= i < pre.len() ==> is_white_space_spec(#[trigger] pre[i]),
        forall|i: int| 0 <= i < post.len() ==> is_white_space_spec(#[trigger] post[i]),
    ensures
        trimmed(pre + s + post) == s,
{
    assert(pre + s + post =~= pre + (s + post));
    lemma_trim_start_skips_white_space(pre, s + post);
    assert((s + post)[0] == s[0]);
    lemma_trim_end_skips_white_space(s, post);
}

/// `s` without leading and trailing white space.
pub fn trim(s: &str) -> (t: &str)
    ensures
        t@ == trimmed(s@),
{
    let n = s.unicode_len();
    let mut i: usize = 0;
    assert(s@.subrange(0, n as int) =~= s@);
    while i < n && is_white_space(s.get_char(i))
        invariant
            n == s@.len(),
            i <= n,
            trim_start(s@) == trim_start(s@.subrange(i as int, n as int)),
        decreases n - i,
    {
        proof {
            lemma_trim_start_skip(s@, i as int);
        }
        i = i + 1;
    }
    let start = s.substring_char(i, n);
    assert(trim_start(s@) == start@) by {
        if i < n {
            assert(!is_white_space_spec(start@[0]));
        } else {
            assert(start@.len() == 0);
        }
    }
    let m = n - i;
    let mut j: usize = m;
    assert(start@.subrange(0, m as int) =~= start@);
    while j > 0 && is_white_space(start.get_char(j - 1))
        invariant
            m == start@.len(),
            j <= m,
            trim_end(start@) == trim_end(start@.subrange(0, j as int)),
        decreases j,
    {
        proof {
            lemma_trim_end_skip(start@, j as int);
        }
        j = j - 1;
    }
    let t = start.substring_char(0, j);
    assert(trim_end(start@) == t@) by {
        if j > 0 {
            assert(t@.last() == start@[j - 1]);
        }
    }
    t
}

/// The UTF-16 code units of one character: itself below `0x10000`,
/// otherwise a high and a low surrogate.
pub open spec fn utf16_units(c: char) -> Seq<u16> {
    let v = c as u32 as int;
    if v < 0x10000 {
        seq![v as u16]
    } else {
        let w = v - 0x10000;
        seq![(0xd800 + w / 1024) as u16, (0xdc00 + w % 1024) as u16]
    }
}

/// The UTF-16 encoding of a text.
pub open spec fn utf16(s: Seq<char>) -> Seq<u16>
    decreases s.len(),
{
    if s.len() == 0 {
        Seq::empty()
    } else {
        utf16(s.drop_last()) + utf16_units(s.last())
    }
}

/// A text as a null-terminated UTF-16 string, as Windows takes it.
pub fn wide(value: &str) -> (units: Vec<u16>)
    ensures
        units@ == utf16(value@).push(0),
{
    let n = value.unicode_len();
    let mut units: Vec<u16> = Vec::new();
    let mut i: usize = 0;
    while i < n
        invariant
            n == value@.len(),
            i <= n,
            units@ == utf16(value@.take(i as int)),
        decreases n - i,
    {
        let c = value.get_char(i);
        let v = c as u32;
        assert(value@.take(i + 1).drop_last() =~= value@.take(i as int));
        if v < 0x10000 {
            units.push(v as u16);
        } else {
            let w = v - 0x10000;
            assert(w / 1024 < 1024);
            units.push((0xd800 + w / 1024) as u16);
            units.push((0xdc00 + w % 1024) as u16);
        }
        assert(units@ =~= utf16(value@.take(i + 1)));
        i = i + 1;
    }
    assert(value@.take(n as int) =~= value@);
    units.push(0);
    units
}

} // verus!

//! Service settings and the parsers for the values they are read from.

use vstd::prelude::*;
use vstd::string::{is_ascii, StringSliceAdditionalSpecFns};
use crate::text::{all_digits, chars_value, decimal, is_digit_char, lemma_decimal};


verus! {

/// The settings that the service is configured with.
pub struct Settings {
    /// Public URL prefix under which stored images are served.
    pub extern_location: String,
    /// Local directory prefix where stored images are written.
    pub local_location: String,
    /// Width bound of small thumbnails.
    pub small_width: u32,
    /// Width bound of medium thumbnails.
    pub medium_width: u32,
    /// Factor from a thumbnail's width bound to its height bound.
    pub height_multiplier: u32,
    /// `external prefix|local prefix` pairs separated by `,`.
    pub external_to_local_paths: String,
}

impl Settings {
    /// Both thumbnail height bounds fit in a `u32`.
    pub open spec fn wf(&self) -> bool {
        &&& self.small_width * self.height_multiplier <= u32::MAX
        &&& self.medium_width * self.height_multiplier <= u32::MAX
    }

    /// Builds the settings; `None` when a thumbnail height bound would overflow a `u32`.
    pub fn new(
        extern_location: String,
        local_location: String,
        small_width: u32,
        medium_width: u32,
        height_multiplier: u32,
        external_to_local_paths: String,
    ) -> (res: Option<Settings>)
        ensures
            match res {
                Some(s) => {
                    &&& s.wf()
                    &&& s.extern_location@ == extern_location@
                    &&& s.local_location@ == local_location@
                    &&& s.small_width == small_width
                    &&& s.medium_width == medium_width
                    &&& s.height_multiplier == height_multiplier
                    &&& s.external_to_local_paths@ == external_to_local_paths@
                },
                None => small_width * height_multiplier > u32::MAX
                    || medium_width * height_multiplier > u32::MAX,
            },
    {
        if small_width.checked_mul(height_multiplier).is_none()
            || medium_width.checked_mul(height_multiplier).is_none() {
            return None;
        }
        Some(Settings {
            extern_location,
            local_location,
            small_width,
            medium_width,
            height_multiplier,
            external_to_local_paths,
        })
    }
}

/// The value of a byte string read as decimal digits, each byte counting as its
/// distance from `b'0'`.
pub open spec fn digits_value(s: Seq<u8>) -> nat
    decreases s.len(),
{
    if s.len() == 0 {
        0
    } else {
        digits_value(s.drop_last()) * 10 + (s.last() - 48) as nat
    }
}

/// No byte lies below `b'0'`.
pub open spec fn no_byte_below_zero_digit(s: Seq<u8>) -> bool {
    forall|i: int| 0 <= i < s.len() ==> s[i] >= 48
}

/// A prefix never reads as more than the whole.
pub proof fn lemma_digits_value_prefix(s: Seq<u8>, k: int)
    requires
        0 <= k <= s.len(),
        no_byte_below_zero_digit(s),
    ensures
        digits_value(s.take(k)) <= digits_value(s),
    decreases s.len(),
{
    if k < s.len() {
        assert(s.drop_last().take(k) =~= s.take(k));
        lemma_digits_value_prefix(s.drop_last(), k);
    } else {
        assert(s.take(k) =~= s);
    }
}

/// Reads a string of decimal digits as a `u32`.
///
/// Each byte counts as its distance from `b'0'`; a byte below `b'0'` or a value above
/// `u32::MAX` is outside what it reads.
pub fn parse_u32(s: &str) -> (out: u32)
    requires
        no_byte_below_zero_digit(s.spec_bytes()),
        digits_value(s.spec_bytes()) <= u32::MAX,
    ensures
        out == digits_value(s.spec_bytes()),
{
    let bytes = s.as_bytes();
    let ghost b = s.spec_bytes();
    let mut out: u32 = 0;
    let mut i: usize = 0;
    while i < bytes.len()
        invariant
            bytes@ == b,
            i <= b.len(),
            no_byte_below_zero_digit(b),
            digits_value(b) <= u32::MAX,
            out == digits_value(b.take(i as int)),
        decreases b.len() - i,
    {
        proof {
            lemma_digits_value_prefix(b, i + 1);
            assert(b.take(i + 1).drop_last() =~= b.take(i as int));
        }
        out = out * 10;
        out = out + (bytes[i] - 48u8) as u32;
        i = i + 1;
    }
    proof {
        assert(b.take(i as int) =~= b);
    }
    out
}

/// Whether the bytes of an optional flag spell `1`, `true` or `yes`.
pub open spec fn flag_is_set(bytes: Option<Seq<u8>>) -> bool {
    match bytes {
        Some(b) => b == seq![49u8] || b == seq![116u8, 114u8, 117u8, 101u8] || b == seq![
            121u8,
            101u8,
            115u8,
        ],
        None => false,
    }
}

/// A flag is set exactly by the bytes `1`, `true` and `yes`; any other word, such as
/// `false`, `no`, `off` or the empty word, and an absent flag leave it unset.
pub proof fn lemma_flag_words(b: Seq<u8>)
    ensures
        flag_is_set(Some(b)) <==> (b =~= seq![49u8] || b =~= seq![116u8, 114u8, 117u8, 101u8]
            || b =~= seq![121u8, 101u8, 115u8]),
        b =~= seq![102u8, 97u8, 108u8, 115u8, 101u8] ==> !flag_is_set(Some(b)),
        b =~= seq![110u8, 111u8] ==> !flag_is_set(Some(b)),
        b =~= seq![111u8, 102u8, 102u8] ==> !flag_is_set(Some(b)),
        b.len() == 0 ==> !flag_is_set(Some(b)),
        !flag_is_set(None),
{
    if b =~= seq![102u8, 97u8, 108u8, 115u8, 101u8] {
        assert(b.len() == 5);
    }
    if b =~= seq![110u8, 111u8] {
        assert(b.len() == 2);
    }
    if b =~= seq![111u8, 102u8, 102u8] {
        assert(b[0] != seq![121u8, 101u8, 115u8][0]);
    }
}

/// Reads an optional flag: set when it is `1`, `true` or `yes`.
pub fn parse_bool(s: Option<&str>) -> (res: bool)
    ensures
        res == flag_is_set(
            match s {
                Some(v) => Some(v.spec_bytes()),
                None => None,
            },
        ),
{
    match s {
        Some(v) => {
            let b = v.as_bytes();
            let one = b.len() == 1 && b[0] == 49u8;
            let t = b.len() == 4 && b[0] == 116u8 && b[1] == 114u8 && b[2] == 117u8 && b[3] == 101u8;
            let y = b.len() == 3 && b[0] == 121u8 && b[1] == 101u8 && b[2] == 115u8;
            proof {
                if b@.len() == 1 {
                    assert(one <==> b@ =~= seq![49u8]);
                }
                if b@.len() == 4 {
                    assert(t <==> b@ =~= seq![116u8, 114u8, 117u8, 101u8]);
                }
                if b@.len() == 3 {
                    assert(y <==> b@ =~= seq![121u8, 101u8, 115u8]);
                }
            }
            one || t || y
        },
        None => false,
    }
}

} // verus!

verus! {

proof fn lemma_digits_value_of_chars(b: Seq<u8>, c: Seq<char>)
    requires
        b.len() == c.len(),
        forall|i: int| 0 <= i < c.len() ==> b[i] == c[i] as u8,
        all_digits(c),
    ensures
        digits_value(b) == chars_value(c),
        no_byte_below_zero_digit(b),
    decreases c.len(),
{
    if c.len() > 0 {
        lemma_digits_value_of_chars(b.drop_last(), c.drop_last());
        assert(is_digit_char(c.last()));
        assert(b.last() == c.last() as u8);
    }
}

/// `parse_u32` reads the decimal notation of any `u32` back as that number: the
/// notation meets its precondition and its result is the number.
pub proof fn lemma_parse_u32_reads_decimal(s: &str, n: u32)
    requires
        s@ == decimal(n as nat),
    ensures
        no_byte_below_zero_digit(s.spec_bytes()),
        digits_value(s.spec_bytes()) <= u32::MAX,
        digits_value(s.spec_bytes()) == n,
{
    lemma_decimal(n as nat);
    assert(is_ascii(s)) by {
        assert forall|i: int| 0 <= i < s@.len() implies '\0' <= #[trigger] s@[i] <= '\u{7f}' by {
            assert(is_digit_char(s@[i]));
        }
    }
    broadcast use vstd::string::is_ascii_spec_bytes;
    lemma_digits_value_of_chars(s.spec_bytes(), s@);
}

} // verus!

verus! {

/// Appending a digit to a decimal text multiplies what `parse_u32` reads by ten and
/// adds the digit.
pub proof fn lemma_parse_u32_append_digit(s: &str, t: &str, d: u8)
    requires
        t.spec_bytes() == s.spec_bytes().push(d),
        48 <= d <= 57,
        no_byte_below_zero_digit(s.spec_bytes()),
    ensures
        no_byte_below_zero_digit(t.spec_bytes()),
        digits_value(t.spec_bytes()) == digits_value(s.spec_bytes()) * 10 + (d - 48),
{
    let b = t.spec_bytes();
    assert(b.drop_last() =~= s.spec_bytes());
    assert forall|i: int| 0 <= i < b.len() implies b[i] >= 48 by {
        if i < b.len() - 1 {
            assert(b[i] == s.spec_bytes()[i]);
        }
    }
}

proof fn lemma_digits_value_leading_zero(s: Seq<u8>)
    ensures
        digits_value(seq![48u8] + s) == digits_value(s),
    decreases s.len(),
{
    let z = seq![48u8] + s;
    if s.len() == 0 {
        assert(z.drop_last() =~= Seq::<u8>::empty());
        assert(z.last() == 48u8);
        assert(digits_value(Seq::<u8>::empty()) == 0);
    } else {
        assert(z.drop_last() =~= seq![48u8] + s.drop_last());
        assert(z.last() == s.last());
        lemma_digits_value_leading_zero(s.drop_last());
    }
}

/// A leading zero does not change what `parse_u32` reads.
pub proof fn lemma_parse_u32_leading_zero(s: &str, t: &str)
    requires
        t.spec_bytes() == seq![48u8] + s.spec_bytes(),
        no_byte_below_zero_digit(s.spec_bytes()),
    ensures
        no_byte_below_zero_digit(t.spec_bytes()),
        digits_value(t.spec_bytes()) == digits_value(s.spec_bytes()),
{
    let b = t.spec_bytes();
    assert forall|i: int| 0 <= i < b.len() implies b[i] >= 48 by {
        if i > 0 {
            assert(b[i] == s.spec_bytes()[i - 1]);
        }
    }
    lemma_digits_value_leading_zero(s.spec_bytes());
}

} // verus!

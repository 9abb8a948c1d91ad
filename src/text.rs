//! Rendering of raw byte strings as text.

use vstd::prelude::*;
use vstd::string::*;
use vstd::utf8::*;

verus! {

/// The character of a decimal digit.
pub open spec fn digit_char(d: int) -> char {
    if d == 0 {
        '0'
    } else if d == 1 {
        '1'
    } else if d == 2 {
        '2'
    } else if d == 3 {
        '3'
    } else if d == 4 {
        '4'
    } else if d == 5 {
        '5'
    } else if d == 6 {
        '6'
    } else if d == 7 {
        '7'
    } else if d == 8 {
        '8'
    } else {
        '9'
    }
}

/// The decimal digits of `n`, without leading zeros.
pub open spec fn decimal(n: nat) -> Seq<char>
    decreases n,
{
    if n < 10 {
        seq![digit_char(n as int)]
    } else {
        decimal(n / 10).push(digit_char((n % 10) as int))
    }
}

/// The numbers of `b` in decimal, separated by `", "`.
pub open spec fn joined_bytes(b: Seq<u8>) -> Seq<char>
    decreases b.len(),
{
    if b.len() == 0 {
        seq![]
    } else if b.len() == 1 {
        decimal(b[0] as nat)
    } else {
        joined_bytes(b.drop_last()) + ", "@ + decimal(b.last() as nat)
    }
}

/// A byte string written as a list of numbers, `[104, 105, 255]`.
pub open spec fn debug_bytes(b: Seq<u8>) -> Seq<char> {
    "["@ + joined_bytes(b) + "]"@
}

/// What `String::from_utf8_lossy` makes of a byte string.
pub uninterp spec fn lossy_text(b: Seq<u8>) -> Seq<char>;

/// Relies on `String::from_utf8`: it succeeds exactly on valid UTF-8, and then
/// holds the decoded characters.
#[verifier::external_body]
pub(crate) fn utf8_text(b: Vec<u8>) -> (r: Option<String>)
    ensures
        r is Some <==> valid_utf8(b@),
        r matches Some(s) ==> s@ == decode_utf8(b@),
{
    String::from_utf8(b).ok()
}

/// Relies on `String::from_utf8_lossy`: the result depends on the bytes alone,
/// and valid UTF-8 comes out decoded as it is.
#[verifier::external_body]
pub(crate) fn lossy(b: &Vec<u8>) -> (r: String)
    ensures
        r@ == lossy_text(b@),
        valid_utf8(b@) ==> r@ == decode_utf8(b@),
{
    String::from_utf8_lossy(b).into_owned()
}

fn digit_str(d: u8) -> (r: &'static str)
    requires
        d < 10,
    ensures
        r@ == seq![digit_char(d as int)],
{
    proof {
        reveal_strlit("0");
        reveal_strlit("1");
        reveal_strlit("2");
        reveal_strlit("3");
        reveal_strlit("4");
        reveal_strlit("5");
        reveal_strlit("6");
        reveal_strlit("7");
        reveal_strlit("8");
        reveal_strlit("9");
    }
    if d == 0 {
        "0"
    } else if d == 1 {
        "1"
    } else if d == 2 {
        "2"
    } else if d == 3 {
        "3"
    } else if d == 4 {
        "4"
    } else if d == 5 {
        "5"
    } else if d == 6 {
        "6"
    } else if d == 7 {
        "7"
    } else if d == 8 {
        "8"
    } else {
        "9"
    }
}

/// Appends the decimal digits of `v`.
pub fn push_decimal(out: &mut String, v: u8)
    ensures
        final(out)@ == old(out)@ + decimal(v as nat),
{
    let ghost n = v as nat;
    if v >= 100 {
        assert(decimal(n) == decimal(n / 10).push(digit_char((n % 10) as int)));
        assert(decimal(n / 10) == decimal(n / 100).push(digit_char(((n / 10) % 10) as int)));
        assert(decimal(n / 100) == seq![digit_char((n / 100) as int)]);
        out.append(digit_str(v / 100));
        out.append(digit_str((v / 10) % 10));
        out.append(digit_str(v % 10));
    } else if v >= 10 {
        assert(decimal(n) == decimal(n / 10).push(digit_char((n % 10) as int)));
        assert(decimal(n / 10) == seq![digit_char((n / 10) as int)]);
        out.append(digit_str(v / 10));
        out.append(digit_str(v % 10));
    } else {
        out.append(digit_str(v));
    }
    assert(final(out)@ =~= old(out)@ + decimal(n));
}

/// Appends `b` written as a list of numbers.
pub fn push_debug_bytes(out: &mut String, b: &Vec<u8>)
    ensures
        final(out)@ == old(out)@ + debug_bytes(b@),
{
    let ghost start = out@;
    out.append("[");
    let mut i: usize = 0;
    while i < b.len()
        invariant
            i <= b@.len(),
            out@ == start + "["@ + joined_bytes(b@.subrange(0, i as int)),
        decreases b@.len() - i,
    {
        let ghost before = b@.subrange(0, i as int);
        let ghost after = b@.subrange(0, i + 1);
        assert(after.drop_last() =~= before);
        if i > 0 {
            out.append(", ");
        }
        push_decimal(out, b[i]);
        proof {
            if i == 0 {
                assert(before =~= Seq::<u8>::empty());
                assert(joined_bytes(before) =~= Seq::<char>::empty());
            }
        }
        assert(out@ =~= start + "["@ + joined_bytes(after));
        i = i + 1;
    }
    assert(b@.subrange(0, b@.len() as int) =~= b@);
    out.append("]");
    assert(final(out)@ =~= old(out)@ + debug_bytes(b@));
}

} // verus!

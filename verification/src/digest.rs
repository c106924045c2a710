//! Content-addressed identifiers: decimal rendering of numbers and the
//! short hash keys derived from a node's parent and label.

use vstd::prelude::*;

verus! {

/// The 32 lowercase hexadecimal characters of the MD5 digest of a string;
/// a pure function of its argument.
pub uninterp spec fn md5_hex_of(s: Seq<char>) -> Seq<char>;

/// Relies on md5::compute and the `LowerHex` rendering of its digest: the
/// digest is a pure function of the input bytes, 16 bytes long, written as
/// two hexadecimal characters per byte.
#[verifier::external_body]
fn md5_hex(s: &str) -> (r: String)
    ensures
        r@ == md5_hex_of(s@),
        r@.len() == 32,
{
    format!("{:x}", md5::compute(s))
}

/// Decimal digits of a number, most significant first.
pub open spec fn dec_of(n: nat) -> Seq<char>
    decreases n,
{
    if n < 10 {
        seq![digit_char(n)]
    } else {
        dec_of(n / 10).push(digit_char(n % 10))
    }
}

/// The character of one decimal digit.
pub open spec fn digit_char(d: nat) -> char {
    if d == 0 {
        '0'
    } else if d == 1 {
        '1'
    } else if d == 2 {
        '2'
    } else if d == 3 {
        '3'
    } else if d == 4 {
        '4'
    } else if d == 5 {
        '5'
    } else if d == 6 {
        '6'
    } else if d == 7 {
        '7'
    } else if d == 8 {
        '8'
    } else {
        '9'
    }
}

/// The one-character string of a decimal digit.
fn digit_str(d: u64) -> (r: &'static str)
    requires
        d < 10,
    ensures
        r@ =~= seq![digit_char(d as nat)],
{
    proof {
        reveal_strlit("0");
        reveal_strlit("1");
        reveal_strlit("2");
        reveal_strlit("3");
        reveal_strlit("4");
        reveal_strlit("5");
        reveal_strlit("6");
        reveal_strlit("7");
        reveal_strlit("8");
        reveal_strlit("9");
    }
    match d {
        0 => "0",
        1 => "1",
        2 => "2",
        3 => "3",
        4 => "4",
        5 => "5",
        6 => "6",
        7 => "7",
        8 => "8",
        _ => "9",
    }
}

/// Render a number in decimal.
pub fn u64_to_string(n: u64) -> (r: String)
    ensures
        r@ == dec_of(n as nat),
    decreases n,
{
    if n < 10 {
        digit_str(n).to_owned()
    } else {
        let mut s = u64_to_string(n / 10);
        s.append(digit_str(n % 10));
        s
    }
}

/// The key derived from a node's position: the first ten characters of
/// the digest of `parent_id` and label (of the label alone for a root).
pub open spec fn spec_label_key(parent_id: Option<int>, label: Seq<char>) -> Seq<char> {
    match parent_id {
        Option::None => md5_hex_of(label).subrange(0, 10),
        Option::Some(p) => md5_hex_of(dec_of(p as nat) + seq!['_'] + label).subrange(0, 10),
    }
}

/// Compute the stable short key of a node from its parent and label.
pub fn get_label_key(parent_id: Option<i32>, label: &str) -> (r: String)
    requires
        match parent_id {
            Option::None => true,
            Option::Some(p) => p >= 0,
        },
    ensures
        r@ == spec_label_key(
            match parent_id {
                Option::None => Option::None,
                Option::Some(p) => Option::Some(p as int),
            },
            label@,
        ),
        r@.len() == 10,
{
    let digest = match parent_id {
        Option::Some(p) => {
            let mut joined = u64_to_string(p as u64);
            joined.append("_");
            joined.append(label);
            proof {
                reveal_strlit("_");
                assert(joined@ =~= dec_of(p as nat) + seq!['_'] + label@);
            }
            md5_hex(joined.as_str())
        },
        Option::None => md5_hex(label),
    };
    let key = digest.as_str().substring_char(0, 10);
    key.to_owned()
}

/// The short prefix of a title's digest that names a stored question.
pub fn digest_prefix(text: &str, n: usize) -> (r: String)
    requires
        n <= 32,
    ensures
        r@ == md5_hex_of(text@).subrange(0, n as int),
        r@.len() == n as int,
{
    let digest = md5_hex(text);
    let left = digest.as_str().substring_char(0, n);
    left.to_owned()
}

} // verus!

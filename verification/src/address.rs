//! Addresses, as far as they have to be looked at before the SDK reads them.
//!
//! The SDK reads an address as bech32. Where that fails and the address is one to pay to, it
//! reads it as base58, in which the addresses of the Byron era are written. Bech32 without a
//! payload makes it panic. So do some malformed addresses of the Byron era, in either writing:
//! they hold the lengths of their own parts, and the SDK takes as much memory as a length asks
//! for before it looks whether there is as much to read.

use crate::digits;
use crate::digits::read_number;
use crate::text::characters;
use vstd::prelude::*;
use vstd::string::*;

verus! {

/// Whether the attributes of an address of the Byron era are read within lengths of one byte:
/// `n` of them from `at` on, each of them a number and a byte string.
pub open spec fn attributes_are_short(b: Seq<u8>, at: int, n: nat) -> bool
    decreases n,
{
    n == 0 || at >= b.len() || ((b[at] == 1 || b[at] == 2) && (at + 1 >= b.len() || if 0x40 <= b[at
        + 1] <= 0x57 {
        attributes_are_short(b, at + 2 + (b[at + 1] - 0x40), (n - 1) as nat)
    } else {
        b[at + 1] == 0x58 && (at + 2 >= b.len() || attributes_are_short(
            b,
            at + 3 + b[at + 2],
            (n - 1) as nat,
        ))
    }))
}

/// Whether some bytes can be read as an address of the Byron era without a panic: they are too
/// few to hold a length of eight bytes, they are no CBOR array, or their lengths take up one
/// byte each. Every address of the Byron era that is well formed is of the last kind: it has a
/// tagged byte string around a hash of 28 bytes, attributes and a kind.
pub open spec fn lengths_are_short(b: Seq<u8>) -> bool {
    ||| b.len() < 12
    ||| b[0] < 0x80
    ||| b[0] > 0x9f
    ||| b[0] == 0x82 && b[1] == 0xd8 && b[2] == 0x18 && b[3] == 0x58 && b[5] == 0x83 && b[6] == 0x58
        && b[7] == 0x1c && (b.len() <= 36 || (0xa0 <= b[36] <= 0xb7 && attributes_are_short(
        b,
        37,
        (b[36] - 0xa0) as nat,
    )))
}

/// Whether the last `1` of a text stands at `i`. In bech32 it parts the prefix from the
/// payload and its checksum.
pub open spec fn is_separator(a: Seq<char>, i: int) -> bool {
    0 <= i < a.len() && a[i] == '1' && forall|j: int| i < j < a.len() ==> #[trigger] a[j] != '1'
}

/// The digits of bech32.
pub open spec fn bech32_digits() -> Seq<char> {
    "qpzry9x8gf2tvdw0s3jn54khce6mua7l"@
}

/// The digits of bech32 in uppercase.
pub open spec fn uppercase_bech32_digits() -> Seq<char> {
    "QPZRY9X8GF2TVDW0S3JN54KHCE6MUA7L"@
}

/// The digits of base58.
pub open spec fn base58_digits() -> Seq<char> {
    "123456789ABCDEFGHJKLMNPQRSTUVWXYZabcdefghijkmnopqrstuvwxyz"@
}

/// Whether a payload that begins with this digit is one of the Byron era.
pub open spec fn is_byron_head(c: char) -> bool {
    c == 's' || c == 'S' || c == '3'
}

/// A text with zeros behind it, up to a multiple of eight digits: in bech32, to whole bytes.
pub open spec fn padded(zero: char, s: Seq<char>) -> Seq<char> {
    s + Seq::new(((8 - s.len() % 8) % 8) as nat, |i: int| zero)
}

/// Whether the bytes of a number, if a text is one, can be read without a panic.
pub open spec fn number_reads(alphabet: Seq<char>, s: Seq<char>) -> bool {
    match digits::number_of(alphabet, s) {
        Some(n) => lengths_are_short(digits::bytes_of(n)),
        None => true,
    }
}

/// Whether what stands behind the separator of a text in bech32 can be read without a panic:
/// it is not just a checksum of six digits, and in front of the checksum it does not hold a
/// malformed address of the Byron era.
pub open spec fn payload_reads(p: Seq<char>) -> bool {
    &&& p.len() == 6 ==> digits::number_of(bech32_digits(), p) is None && digits::number_of(
        uppercase_bech32_digits(),
        p,
    ) is None
    &&& p.len() > 6 && is_byron_head(p[0]) ==> number_reads(
        bech32_digits(),
        padded('q', p.take(p.len() - 6)),
    ) && number_reads(uppercase_bech32_digits(), padded('Q', p.take(p.len() - 6)))
}

/// Whether there is a letter in lowercase in a text.
pub open spec fn has_lowercase(a: Seq<char>) -> bool {
    exists|i: int| 0 <= i < a.len() && 'a' <= #[trigger] a[i] <= 'z'
}

/// Whether there is a letter in uppercase in a text.
pub open spec fn has_uppercase(a: Seq<char>) -> bool {
    exists|i: int| 0 <= i < a.len() && 'A' <= #[trigger] a[i] <= 'Z'
}

/// Whether a text can be read as bech32 without a panic. One of mixed case is not bech32.
pub open spec fn can_be_spent(a: Seq<char>) -> bool {
    (has_lowercase(a) && has_uppercase(a)) || forall|i: int| #[trigger]
        is_separator(a, i) ==> payload_reads(a.skip(i + 1))
}

/// Whether a text can be read as bech32, and then as base58, without a panic. In base58, a `1`
/// in front is a zero byte, with which no address begins.
pub open spec fn can_be_paid(a: Seq<char>) -> bool {
    can_be_spent(a) && ((a.len() > 0 && a[0] == '1') || number_reads(base58_digits(), a))
}

/// Whether the attributes of an address are read within lengths of one byte.
fn has_short_attributes(b: &Vec<u8>, start: usize, count: u8) -> (r: bool)
    ensures
        r == attributes_are_short(b@, start as int, count as nat),
{
    let mut at: usize = start;
    let mut n: u8 = count;
    while n > 0 && at < b.len()
        invariant
            attributes_are_short(b@, start as int, count as nat) == attributes_are_short(
                b@,
                at as int,
                n as nat,
            ),
        decreases n,
    {
        if b[at] != 1 && b[at] != 2 {
            return false;
        }
        if b.len() - at <= 1 {
            return true;
        }
        let head: u8 = b[at + 1];
        let skip: usize = if 0x40 <= head && head <= 0x57 {
            2 + (head - 0x40) as usize
        } else if head == 0x58 {
            if b.len() - at <= 2 {
                return true;
            }
            3 + b[at + 2] as usize
        } else {
            return false;
        };
        if b.len() - at <= skip {
            assert(attributes_are_short(b@, at + skip, (n - 1) as nat));
            return true;
        }
        at = at + skip;
        n = n - 1;
    }
    true
}

/// Whether some bytes can be read as an address of the Byron era without a panic.
fn has_short_lengths(b: &Vec<u8>) -> (r: bool)
    ensures
        r == lengths_are_short(b@),
{
    if b.len() < 12 || b[0] < 0x80 || b[0] > 0x9f {
        return true;
    }
    if b[0] != 0x82 || b[1] != 0xd8 || b[2] != 0x18 || b[3] != 0x58 || b[5] != 0x83 || b[6] != 0x58
        || b[7] != 0x1c {
        return false;
    }
    if b.len() <= 36 {
        return true;
    }
    0xa0 <= b[36] && b[36] <= 0xb7 && has_short_attributes(b, 37, b[36] - 0xa0)
}

/// Whether the bytes of a number, if a text is one, can be read without a panic.
fn is_readable_number(alphabet: &str, chars: &Vec<char>) -> (r: bool)
    requires
        0 < alphabet@.len() <= 64,
    ensures
        r == number_reads(alphabet@, chars@),
{
    match read_number(alphabet, chars) {
        Some(bytes) => has_short_lengths(&bytes),
        None => true,
    }
}

/// Copies the characters from `start` to `end`.
fn part_of(chars: &Vec<char>, start: usize, end: usize) -> (r: Vec<char>)
    requires
        start <= end <= chars.len(),
    ensures
        r@ == chars@.subrange(start as int, end as int),
{
    let mut r: Vec<char> = Vec::new();
    let mut i: usize = start;
    while i < end
        invariant
            start <= i <= end <= chars.len(),
            r@ == chars@.subrange(start as int, i as int),
        decreases end - i,
    {
        r.push(chars[i]);
        assert(r@ =~= chars@.subrange(start as int, i + 1));
        i = i + 1;
    }
    r
}

/// Copies the characters from `start` to `end`, with zeros behind them up to a multiple of
/// eight.
fn padded_part(chars: &Vec<char>, start: usize, end: usize, zero: char) -> (r: Vec<char>)
    requires
        start <= end <= chars.len(),
    ensures
        r@ == padded(zero, chars@.subrange(start as int, end as int)),
{
    let mut r = part_of(chars, start, end);
    let ghost part = r@;
    let missing: usize = (8 - (end - start) % 8) % 8;
    let mut j: usize = 0;
    while j < missing
        invariant
            j <= missing,
            r@ == part + Seq::new(j as nat, |i: int| zero),
        decreases missing - j,
    {
        r.push(zero);
        assert(r@ =~= part + Seq::new((j + 1) as nat, |i: int| zero));
        j = j + 1;
    }
    assert(r@ =~= padded(zero, part));
    r
}

/// Whether letters of both cases stand in a text.
fn is_mixed(chars: &Vec<char>) -> (r: bool)
    ensures
        r == (has_lowercase(chars@) && has_uppercase(chars@)),
{
    let mut lower: bool = false;
    let mut upper: bool = false;
    let mut i: usize = 0;
    while i < chars.len()
        invariant
            i <= chars.len(),
            lower == exists|k: int| 0 <= k < i && 'a' <= #[trigger] chars@[k] <= 'z',
            upper == exists|k: int| 0 <= k < i && 'A' <= #[trigger] chars@[k] <= 'Z',
        decreases chars.len() - i,
    {
        let c = chars[i];
        if 'a' <= c && c <= 'z' {
            assert('a' <= chars@[i as int] <= 'z');
            lower = true;
        }
        if 'A' <= c && c <= 'Z' {
            assert('A' <= chars@[i as int] <= 'Z');
            upper = true;
        }
        i = i + 1;
    }
    lower && upper
}

/// Whether an address can be read as that of an output to spend.
pub fn is_spendable(address: &str) -> (r: bool)
    ensures
        r == can_be_spent(address@),
{
    let chars = characters(address);
    if is_mixed(&chars) {
        return true;
    }
    let mut n: usize = chars.len();
    while n > 0
        invariant
            n <= chars.len(),
            chars@ == address@,
            !(has_lowercase(address@) && has_uppercase(address@)),
            forall|j: int| n <= j < chars.len() ==> #[trigger] chars@[j] != '1',
        decreases n,
    {
        if chars[n - 1] == '1' {
            let ghost payload = address@.skip(n as int);
            assert(is_separator(address@, n - 1));
            assert forall|i: int| #[trigger] is_separator(address@, i) implies i == n - 1 by {
                if i < n - 1 {
                    assert(address@[n - 1] != '1');
                }
            }
            let behind: usize = chars.len() - n;
            assert(can_be_spent(address@) == payload_reads(payload)) by {
                assert(address@.skip((n - 1) + 1) == payload);
            }
            proof {
                reveal_strlit("qpzry9x8gf2tvdw0s3jn54khce6mua7l");
                reveal_strlit("QPZRY9X8GF2TVDW0S3JN54KHCE6MUA7L");
            }
            if behind == 6 {
                let checksum = part_of(&chars, n, chars.len());
                assert(checksum@ =~= payload);
                return read_number("qpzry9x8gf2tvdw0s3jn54khce6mua7l", &checksum).is_none()
                    && read_number("QPZRY9X8GF2TVDW0S3JN54KHCE6MUA7L", &checksum).is_none();
            }
            if behind < 6 || !(chars[n] == 's' || chars[n] == 'S' || chars[n] == '3') {
                return true;
            }
            let end: usize = chars.len() - 6;
            proof {
                assert(chars@.subrange(n as int, end as int) =~= payload.take(payload.len() - 6));
            }
            return is_readable_number(
                "qpzry9x8gf2tvdw0s3jn54khce6mua7l",
                &padded_part(&chars, n, end, 'q'),
            ) && is_readable_number(
                "QPZRY9X8GF2TVDW0S3JN54KHCE6MUA7L",
                &padded_part(&chars, n, end, 'Q'),
            );
        }
        n = n - 1;
    }
    true
}

/// Whether an address can be read as one to pay to.
pub fn is_payable(address: &str) -> (r: bool)
    ensures
        r == can_be_paid(address@),
{
    proof {
        reveal_strlit("123456789ABCDEFGHJKLMNPQRSTUVWXYZabcdefghijkmnopqrstuvwxyz");
    }
    if !is_spendable(address) {
        return false;
    }
    let chars = characters(address);
    (chars.len() > 0 && chars[0] == '1') || is_readable_number(
        "123456789ABCDEFGHJKLMNPQRSTUVWXYZabcdefghijkmnopqrstuvwxyz",
        &chars,
    )
}

} // verus!

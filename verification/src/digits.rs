//! Natural numbers, from the digits of a text to bytes.

use crate::text::characters;
use vstd::prelude::*;

verus! {

/// The value of a digit: its place in the alphabet.
pub open spec fn digit_value(alphabet: Seq<char>, c: char) -> Option<nat>
    decreases alphabet.len(),
{
    if alphabet.len() == 0 {
        None
    } else if alphabet.last() == c {
        Some((alphabet.len() - 1) as nat)
    } else {
        digit_value(alphabet.drop_last(), c)
    }
}

/// The number that a text stands for, the most significant digit first. The base is the
/// length of the alphabet.
pub open spec fn number_of(alphabet: Seq<char>, s: Seq<char>) -> Option<nat>
    decreases s.len(),
{
    if s.len() == 0 {
        Some(0)
    } else {
        match (number_of(alphabet, s.drop_last()), digit_value(alphabet, s.last())) {
            (Some(n), Some(d)) => Some(n * alphabet.len() + d),
            _ => None,
        }
    }
}

/// The bytes of a number, the most significant first and no zero in front.
pub open spec fn bytes_of(n: nat) -> Seq<u8>
    decreases n,
{
    if n == 0 {
        Seq::empty()
    } else {
        bytes_of(n / 256).push((n % 256) as u8)
    }
}

/// The number that some bytes stand for, the most significant first.
pub open spec fn value_of(bytes: Seq<u8>) -> nat
    decreases bytes.len(),
{
    if bytes.len() == 0 {
        0
    } else {
        value_of(bytes.drop_last()) * 256 + bytes.last() as nat
    }
}

/// What the digit `k` places from the end of some bytes counts.
spec fn weight(k: nat) -> nat
    decreases k,
{
    if k == 0 {
        1
    } else {
        256 * weight((k - 1) as nat)
    }
}

/// The number that some bytes stand for, the least significant first.
spec fn reversed_value(bytes: Seq<u8>) -> nat
    decreases bytes.len(),
{
    if bytes.len() == 0 {
        0
    } else {
        reversed_value(bytes.drop_last()) + weight((bytes.len() - 1) as nat) * bytes.last() as nat
    }
}

/// The least significant byte of a number is its remainder.
proof fn lemma_reversed_first(bytes: Seq<u8>)
    requires
        bytes.len() > 0,
    ensures
        reversed_value(bytes) == bytes[0] as nat + 256 * reversed_value(bytes.skip(1)),
    decreases bytes.len(),
{
    let rest = bytes.skip(1);
    if bytes.len() == 1 {
        assert(reversed_value(bytes.drop_last()) == 0);
        assert(reversed_value(rest) == 0);
        let w = weight(0);
        let x = bytes[0] as nat;
        assert(w * x == x) by (nonlinear_arith)
            requires
                w == 1,
        ;
    } else {
        lemma_reversed_first(bytes.drop_last());
        assert(bytes.drop_last().skip(1) =~= rest.drop_last());
        let w = weight((rest.len() - 1) as nat);
        let x = bytes.last() as nat;
        assert(weight((bytes.len() - 1) as nat) == 256 * w);
        assert((256 * w) * x == 256 * (w * x)) by (nonlinear_arith);
    }
}

/// The bytes of a number in the other order are those that stand for it, if the most
/// significant is not zero.
proof fn lemma_reversed_bytes(bytes: Seq<u8>)
    requires
        bytes.len() > 0 ==> bytes.last() != 0,
    ensures
        bytes_of(reversed_value(bytes)) == bytes.reverse(),
    decreases bytes.len(),
{
    if bytes.len() > 0 {
        let rest = bytes.skip(1);
        let n = reversed_value(bytes);
        lemma_reversed_first(bytes);
        lemma_reversed_bytes(rest);
        assert(n / 256 == reversed_value(rest) && n % 256 == bytes[0] as nat);
        assert(n > 0) by {
            if rest.len() == 0 {
                assert(bytes[0] != 0);
            } else {
                lemma_positive(rest);
            }
        }
        assert(rest.reverse().push(bytes[0]) =~= bytes.reverse());
    } else {
        assert(bytes.reverse() =~= Seq::empty());
    }
}

/// A number whose most significant byte is not zero is not zero.
proof fn lemma_positive(bytes: Seq<u8>)
    requires
        bytes.len() > 0,
        bytes.last() != 0,
    ensures
        reversed_value(bytes) > 0,
{
    let w = weight((bytes.len() - 1) as nat);
    lemma_weight((bytes.len() - 1) as nat);
    assert(w * bytes.last() as nat > 0) by (nonlinear_arith)
        requires
            w > 0,
            bytes.last() > 0,
    ;
}

/// No place counts nothing.
proof fn lemma_weight(k: nat)
    ensures
        weight(k) > 0,
    decreases k,
{
    if k > 0 {
        lemma_weight((k - 1) as nat);
    }
}

/// Looks up the value of a digit.
fn read_digit(alphabet: &Vec<char>, c: char) -> (r: Option<u32>)
    requires
        alphabet.len() <= 64,
    ensures
        match r {
            Some(d) => digit_value(alphabet@, c) == Some(d as nat) && d < alphabet.len(),
            None => digit_value(alphabet@, c) is None,
        },
{
    let mut n: usize = alphabet.len();
    assert(alphabet@.take(n as int) =~= alphabet@);
    while n > 0
        invariant
            n <= alphabet.len() <= 64,
            digit_value(alphabet@, c) == digit_value(alphabet@.take(n as int), c),
        decreases n,
    {
        assert(alphabet@.take(n as int).drop_last() =~= alphabet@.take(n - 1));
        if alphabet[n - 1] == c {
            return Some((n - 1) as u32);
        }
        n = n - 1;
    }
    None
}

/// Multiplies a number, the least significant byte first, and adds a digit to it.
fn scaled(bytes: &Vec<u8>, base: u32, digit: u32) -> (r: Vec<u8>)
    requires
        0 < base <= 64,
        digit < base,
        bytes.len() > 0 ==> bytes@.last() != 0,
    ensures
        reversed_value(r@) == reversed_value(bytes@) * base + digit,
        r.len() > 0 ==> r@.last() != 0,
{
    let mut r: Vec<u8> = Vec::new();
    let mut carry: u32 = digit;
    let mut i: usize = 0;
    proof {
        assert(bytes@.take(0) =~= Seq::empty());
        assert(reversed_value(bytes@.take(0)) == 0 && reversed_value(r@) == 0);
        assert(weight(0) == 1);
        assert(0nat * base as nat == 0) by (nonlinear_arith);
    }
    while i < bytes.len()
        invariant
            i <= bytes.len(),
            0 < base <= 64,
            carry < 64,
            r.len() == i,
            digit < base,
            reversed_value(r@) + weight(i as nat) * carry as nat == reversed_value(
                bytes@.take(i as int),
            ) * base + digit,
            i > 0 ==> bytes@[i - 1] != 0 ==> r@[i - 1] != 0 || carry > 0,
        decreases bytes.len() - i,
    {
        let b: u32 = bytes[i] as u32;
        assert(b * base <= 255 * 64) by (nonlinear_arith)
            requires
                b <= 255,
                base <= 64,
        ;
        assert(b > 0 ==> b * base > 0) by (nonlinear_arith)
            requires
                base > 0,
        ;
        let t: u32 = b * base + carry;
        let low: u8 = (t % 256) as u8;
        proof {
            let before = bytes@.take(i as int);
            let after = bytes@.take(i + 1);
            let w = weight(i as nat);
            assert(after.drop_last() =~= before);
            assert(r@.push(low).drop_last() =~= r@);
            assert(weight((i + 1) as nat) == 256 * w);
            let high = (t / 256) as nat;
            assert(t == low as nat + 256 * high);
            assert(w * low as nat + (256 * w) * high == w * (b * base + carry)) by (
                nonlinear_arith)
                requires
                    b * base + carry == low as nat + 256 * high,
            ;
            assert((reversed_value(before) + w * b as nat) * base == reversed_value(before) * base
                + w * (b * base)) by (nonlinear_arith);
            assert(w * (b * base + carry) == w * (b * base) + w * carry) by (nonlinear_arith);
        }
        r.push(low);
        carry = t / 256;
        i = i + 1;
    }
    assert(bytes@.take(i as int) =~= bytes@);
    if carry > 0 {
        proof {
            assert(r@.push(carry as u8).drop_last() =~= r@);
        }
        r.push(carry as u8);
    } else {
        assert(weight(i as nat) * 0 == 0) by (nonlinear_arith);
    }
    r
}

/// Reads a text as a number and gives its bytes, the most significant first.
pub fn read_number(alphabet: &str, chars: &Vec<char>) -> (r: Option<Vec<u8>>)
    requires
        0 < alphabet@.len() <= 64,
    ensures
        match r {
            Some(bytes) => number_of(alphabet@, chars@) is Some && bytes@ == bytes_of(
                number_of(alphabet@, chars@)->Some_0,
            ),
            None => number_of(alphabet@, chars@) is None,
        },
{
    let letters = characters(alphabet);
    let base: u32 = letters.len() as u32;
    let mut bytes: Vec<u8> = Vec::new();
    let mut i: usize = 0;
    assert(chars@.take(0) =~= Seq::empty());
    while i < chars.len()
        invariant
            i <= chars.len(),
            letters@ == alphabet@,
            0 < letters.len() <= 64,
            base == letters.len(),
            number_of(alphabet@, chars@.take(i as int)) == Some(reversed_value(bytes@)),
            bytes.len() > 0 ==> bytes@.last() != 0,
        decreases chars.len() - i,
    {
        assert(chars@.take(i + 1).drop_last() =~= chars@.take(i as int));
        match read_digit(&letters, chars[i]) {
            Some(digit) => {
                bytes = scaled(&bytes, base, digit);
            },
            None => {
                proof {
                    lemma_no_number(alphabet@, chars@, i + 1);
                }
                return None;
            },
        }
        i = i + 1;
    }
    assert(chars@.take(i as int) =~= chars@);
    let mut r: Vec<u8> = Vec::new();
    let mut n: usize = bytes.len();
    while n > 0
        invariant
            n <= bytes.len(),
            r.len() == bytes.len() - n,
            forall|k: int| 0 <= k < r.len() ==> #[trigger] r@[k] == bytes@[bytes.len() - 1 - k],
        decreases n,
    {
        r.push(bytes[n - 1]);
        n = n - 1;
    }
    proof {
        lemma_reversed_bytes(bytes@);
        assert(r@ =~= bytes@.reverse());
    }
    Some(r)
}

/// Where the first characters of a text are no number, neither is the text.
proof fn lemma_no_number(alphabet: Seq<char>, s: Seq<char>, k: int)
    requires
        0 <= k <= s.len(),
        number_of(alphabet, s.take(k)) is None,
    ensures
        number_of(alphabet, s) is None,
    decreases s.len() - k,
{
    if k < s.len() {
        assert(s.take(k + 1).drop_last() =~= s.take(k));
        lemma_no_number(alphabet, s, k + 1);
    } else {
        assert(s.take(k) =~= s);
    }
}

/// Reads eight bytes at most as a number, the most significant first.
pub fn read_value(bytes: &[u8]) -> (r: u64)
    requires
        bytes@.len() <= 8,
    ensures
        r == value_of(bytes@),
{
    let mut r: u64 = 0;
    let mut i: usize = 0;
    assert(bytes@.take(0) =~= Seq::empty());
    proof {
        reveal_with_fuel(weight, 9);
        assert(weight(8) == 0x1_0000_0000_0000_0000);
    }
    while i < bytes.len()
        invariant
            i <= bytes@.len() <= 8,
            r == value_of(bytes@.take(i as int)),
            r < weight(i as nat),
            weight(8) == 0x1_0000_0000_0000_0000,
        decreases bytes@.len() - i,
    {
        proof {
            assert(bytes@.take(i + 1).drop_last() =~= bytes@.take(i as int));
            assert(weight((i + 1) as nat) == 256 * weight(i as nat));
            lemma_weight_grows((i + 1) as nat, 8);
        }
        r = r * 256 + bytes[i] as u64;
        i = i + 1;
    }
    assert(bytes@.take(i as int) =~= bytes@);
    r
}

/// Places further to the front count more.
proof fn lemma_weight_grows(k: nat, n: nat)
    requires
        k <= n,
    ensures
        weight(k) <= weight(n),
    decreases n,
{
    if k < n {
        lemma_weight_grows(k, (n - 1) as nat);
    }
}

} // verus!

//! Which contexts and steps pass the test that callers make before they ask for a transaction.

use crate::contract::TxContext;
use crate::steps::ContractStep;
use crate::tx_builder::{NetworkView, UtxoView};
use crate::types::{Action, State};
use crate::{address, base16, digits, guard, round_trip, text, tx_builder};
use vstd::prelude::*;
use vstd::utf8::*;

verus! {

/// A digit stands for its place in the alphabet, and what is not in the alphabet is no digit.
pub proof fn lemma_digit_is_a_place(alphabet: Seq<char>, c: char)
    ensures
        match digits::digit_value(alphabet, c) {
            Some(d) => {
                &&& 0 <= d < alphabet.len()
                &&& alphabet[d as int] == c
                &&& forall|i: int| d < i < alphabet.len() ==> #[trigger] alphabet[i] != c
            },
            None => !alphabet.contains(c),
        },
    decreases alphabet.len(),
{
    if alphabet.len() > 0 && alphabet.last() != c {
        let before = alphabet.drop_last();
        lemma_digit_is_a_place(before, c);
        match digits::digit_value(before, c) {
            Some(d) => {
                assert forall|i: int| d < i < alphabet.len() implies #[trigger] alphabet[i]
                    != c by {
                    if i < before.len() {
                        assert(before[i] == alphabet[i]);
                    }
                }
            },
            None => {
                if alphabet.contains(c) {
                    let i = choose|i: int| 0 <= i < alphabet.len() && alphabet[i] == c;
                    assert(before[i] == c);
                }
            },
        }
    }
}

/// A text is read as a number digit by digit, each counting as much as the alphabet is long.
/// One character that is no digit makes it no number.
pub proof fn lemma_number_grows(alphabet: Seq<char>, s: Seq<char>, c: char)
    ensures
        digits::number_of(alphabet, Seq::empty()) == Some(0nat),
        match (digits::number_of(alphabet, s), digits::digit_value(alphabet, c)) {
            (Some(n), Some(d)) => digits::number_of(alphabet, s.push(c)) == Some(
                n * alphabet.len() + d,
            ),
            _ => digits::number_of(alphabet, s.push(c)) is None,
        },
{
    assert(s.push(c).drop_last() =~= s);
}

/// The bytes of a number stand for it, and none of them in front is zero.
pub proof fn lemma_bytes_of_number(n: nat)
    ensures
        digits::value_of(digits::bytes_of(n)) == n,
        n > 0 ==> digits::bytes_of(n).len() > 0 && digits::bytes_of(n)[0] != 0,
    decreases n,
{
    if n > 0 {
        let rest = digits::bytes_of(n / 256);
        lemma_bytes_of_number(n / 256);
        let all = rest.push((n % 256) as u8);
        assert(all.drop_last() =~= rest);
        assert(digits::value_of(all) == (n / 256) * 256 + n % 256);
    }
}

/// A text with a character outside the alphabet is no number.
proof fn lemma_no_digit(alphabet: Seq<char>, s: Seq<char>, k: int)
    requires
        0 <= k < s.len(),
        !alphabet.contains(s[k]),
    ensures
        digits::number_of(alphabet, s) is None,
    decreases s.len(),
{
    if k == s.len() - 1 {
        lemma_digit_is_a_place(alphabet, s.last());
    } else {
        lemma_no_digit(alphabet, s.drop_last(), k);
    }
}

/// An address in bech32 can be spent from where its payload is longer than the checksum and
/// does not begin like one of the Byron era. It can be paid where it also has a character that
/// base58 does not have.
pub proof fn lemma_bech32_address(a: Seq<char>, i: int, k: int)
    requires
        0 <= i < a.len(),
        a[i] == '1',
        forall|j: int| i < j < a.len() ==> #[trigger] a[j] != '1',
        a.len() - i > 7,
        a[i + 1] != 's' && a[i + 1] != 'S' && a[i + 1] != '3',
    ensures
        address::can_be_spent(a),
        0 <= k < a.len() && (a[k] == '0' || a[k] == 'l' || a[k] == 'O' || a[k] == 'I' || a[k]
            == '_') ==> address::can_be_paid(a),
{
    assert forall|m: int| #[trigger] address::is_separator(a, m) implies address::payload_reads(
        a.skip(m + 1),
    ) by {
        if m < i {
            assert(a[i] != '1');
        }
        assert(m == i);
        assert(a.skip(i + 1)[0] == a[i + 1]);
    }
    if 0 <= k < a.len() && (a[k] == '0' || a[k] == 'l' || a[k] == 'O' || a[k] == 'I' || a[k]
        == '_') {
        reveal_strlit("123456789ABCDEFGHJKLMNPQRSTUVWXYZabcdefghijkmnopqrstuvwxyz");
        assert(!address::base58_digits().contains(a[k]));
        lemma_no_digit(address::base58_digits(), a, k);
    }
}

/// Every network but a custom one can be written, and a custom one where the costs of Plutus
/// V3 stay above the least of all numbers.
pub proof fn lemma_network_can_be_written(n: NetworkView)
    ensures
        tx_builder::network_writes(n) <==> !(n is Custom && n->Custom_0.len() > 2 && exists|i: int|
            0 <= i < n->Custom_0[2].len() && #[trigger] n->Custom_0[2][i] == i64::MIN),
{
}

/// A script can be read exactly where it is hexadecimal and, if it begins with the byte 5b and
/// a length of eight bytes, as long as that.
pub proof fn lemma_script_can_be_read(s: Seq<char>)
    ensures
        tx_builder::script_reads(s) <==> base16::is_hex(s) && !(base16::hex_bytes(s).len() >= 9
            && base16::hex_bytes(s)[0] == 0x5b && digits::value_of(
            base16::hex_bytes(s).subrange(1, 9),
        ) > base16::hex_bytes(s).len()),
{
}

/// Whether an output of the wallet can be read: by its address, its quantities and its units.
pub open spec fn is_legible(u: UtxoView) -> bool {
    &&& address::can_be_spent(u.address)
    &&& forall|i: int|
        0 <= i < u.amount.len() ==> text::parse_u64((#[trigger] u.amount[i]).quantity) is Some
    &&& forall|i: int|
        0 <= i < u.amount.len() ==> (#[trigger] u.amount[i]).unit == "lovelace"@
            || is_char_boundary(encode_utf8(u.amount[i].unit), 56)
}

/// A step passes the test exactly where everything that the SDK has to read can be read and no
/// amount is negative. Here the script output has some lovelace, as every output of a ledger.
pub proof fn law_buildable(ctx: TxContext, step: ContractStep, r: bool)
    requires
        call_ensures(guard::is_buildable, (&ctx, &step), r),
        ctx.script_lovelace > 0,
    ensures
        r <==> {
            let unit = ctx.cbtc_policy@ + ctx.cbtc_name@;
            &&& unit.len() > 0
            &&& unit != "lovelace"@
            &&& is_char_boundary(encode_utf8(unit), 56)
            &&& ctx.script_lovelace <= i64::MAX
            &&& ctx.script_cbtc >= 0
            &&& is_char_boundary(encode_utf8(ctx.operator_skey@), 4)
            &&& address::can_be_paid(ctx.script_address@)
            &&& address::can_be_paid(ctx.operator_address@)
            &&& tx_builder::script_reads(ctx.script_cbor@)
            &&& tx_builder::network_writes(ctx.network@)
            &&& forall|i: int|
                0 <= i < ctx.wallet_utxos@.len() ==> is_legible((#[trigger] ctx.wallet_utxos@[i])@)
            &&& round_trip::action_is_hex(step.action@)
            &&& round_trip::state_is_hex(step.state@)
            &&& step.script_cbtc >= 0
            &&& step.payout matches Some((payee, cbtc)) ==> cbtc >= 0 && address::can_be_paid(
                payee@,
            )
        },
{
    let views = ctx@.wallet_utxos;
    if r {
        assert forall|i: int| 0 <= i < ctx.wallet_utxos@.len() implies is_legible(
            (#[trigger] ctx.wallet_utxos@[i])@,
        ) by {
            assert(views[i] == ctx.wallet_utxos@[i]@);
            assert(guard::is_readable(views[i]));
        }
    }
    if forall|i: int|
        0 <= i < ctx.wallet_utxos@.len() ==> is_legible((#[trigger] ctx.wallet_utxos@[i])@) {
        assert forall|i: int| 0 <= i < views.len() implies guard::is_readable(
            #[trigger] views[i],
        ) by {
            assert(views[i] == ctx.wallet_utxos@[i]@);
            assert(is_legible(ctx.wallet_utxos@[i]@));
        }
    }
}

/// The byte strings of a pool state and of an action pass the test exactly where each of them
/// is hexadecimal.
pub proof fn law_hex_strings(s: State, a: Action, state: bool, action: bool)
    requires
        call_ensures(guard::state_is_hex, (&s,), state),
        call_ensures(guard::action_is_hex, (&a,), action),
    ensures
        state <==> {
            &&& forall|i: int|
                0 <= i < s.invoices@.len() ==> base16::is_hex((#[trigger] s.invoices@[i]).owner@)
            &&& forall|i: int|
                0 <= i < s.offramps@.len() ==> base16::is_hex(
                    (#[trigger] s.offramps@[i]).payment_hash@,
                ) && base16::is_hex(s.offramps@[i].refund_address@)
        },
        action <==> match a {
            Action::CreateInvoice { owner, .. } => base16::is_hex(owner@),
            Action::FulfillInvoice { invoice } => base16::is_hex(invoice.owner@),
            Action::CreateOfframp { payment_hash, refund_address, .. } => base16::is_hex(
                payment_hash@,
            ) && base16::is_hex(refund_address@),
            Action::FulfillOfframp { offramp } => base16::is_hex(offramp.payment_hash@)
                && base16::is_hex(offramp.refund_address@),
            _ => true,
        },
{
    let v = s@;
    assert forall|i: int| 0 <= i < s.invoices@.len() implies round_trip::invoice_is_hex(
        v.invoices[i],
    ) == base16::is_hex((#[trigger] s.invoices@[i]).owner@) by {
        assert(v.invoices[i] == s.invoices@[i]@);
    }
    assert forall|i: int| 0 <= i < s.offramps@.len() implies round_trip::offramp_is_hex(
        v.offramps[i],
    ) == (base16::is_hex((#[trigger] s.offramps@[i]).payment_hash@) && base16::is_hex(
        s.offramps@[i].refund_address@,
    )) by {
        assert(v.offramps[i] == s.offramps@[i]@);
    }
    if state {
        assert forall|i: int| 0 <= i < s.invoices@.len() implies base16::is_hex(
            (#[trigger] s.invoices@[i]).owner@,
        ) by {
            assert(round_trip::invoice_is_hex(v.invoices[i]));
        }
        assert forall|i: int| 0 <= i < s.offramps@.len() implies base16::is_hex(
            (#[trigger] s.offramps@[i]).payment_hash@,
        ) && base16::is_hex(s.offramps@[i].refund_address@) by {
            assert(round_trip::offramp_is_hex(v.offramps[i]));
        }
    } else {
        if forall|i: int|
            0 <= i < v.invoices.len() ==> round_trip::invoice_is_hex(#[trigger] v.invoices[i]) {
            let i = choose|i: int|
                0 <= i < v.offramps.len() && !round_trip::offramp_is_hex(
                    #[trigger] v.offramps[i],
                );
            assert(s.offramps@[i]@ == v.offramps[i]);
        } else {
            let i = choose|i: int|
                0 <= i < v.invoices.len() && !round_trip::invoice_is_hex(
                    #[trigger] v.invoices[i],
                );
            assert(s.invoices@[i]@ == v.invoices[i]);
        }
    }
}

} // verus!

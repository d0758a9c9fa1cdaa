//! What numerals, hexadecimal text and CBOR stand for, digit by digit and item by item.

use crate::cbor::CborView;
use crate::error::ErrorView;
use crate::json::{JsonView, NumberView};
use crate::{base16, cbor, datum, json, layout, text};
use vstd::prelude::*;
use vstd::utf8::*;

verus! {

/// A numeral ends in the last digit of its number, behind the numeral of the rest. One digit
/// stands alone, and a negative number has a minus sign in front.
pub proof fn lemma_decimal_digits(n: int)
    ensures
        0 <= n < 10 ==> text::decimal(n).len() == 1 && text::decimal(n)[0] as int == '0' as int
            + n,
        n >= 10 ==> text::decimal(n).drop_last() == text::decimal(n / 10),
        n >= 10 ==> text::decimal(n).last() as int == '0' as int + n % 10,
        n < 0 ==> text::decimal(n).len() > 1,
        n < 0 ==> text::decimal(n)[0] == '-' && text::decimal(n).skip(1) == text::decimal(-n),
{
    if n >= 10 {
        let rest = text::numeral((n / 10) as nat);
        assert(text::decimal(n) == rest.push(text::digit(n % 10)));
        assert(text::decimal(n).drop_last() =~= rest);
    }
    if n < 0 {
        text::lemma_numeral((-n) as nat);
        assert(text::decimal(n).skip(1) =~= text::decimal(-n));
    }
}

/// Whether a character is a decimal digit.
pub open spec fn is_decimal(c: char) -> bool {
    '0' as int <= c as int <= '9' as int
}

/// An unsigned number is read digit by digit: each further digit makes it ten times as large
/// and adds itself, as long as the machine can hold it. A plus sign may stand in front.
pub proof fn lemma_read_unsigned(s: Seq<char>, c: char)
    ensures
        text::parse_u64(Seq::empty()) is None,
        text::parse_u64(seq!['+']) is None,
        is_decimal(c) ==> text::parse_u64(seq![c]) == Some((c as int - '0' as int) as u64),
        is_decimal(c) ==> text::parse_u64(seq!['+', c]) == text::parse_u64(seq![c]),
        s.len() > 0 && is_decimal(c) && text::parse_u64(s) is Some ==> text::parse_u64(s.push(c))
            == if 10 * text::parse_u64(s)->Some_0 + (c as int - '0' as int) <= u64::MAX {
            Some((10 * text::parse_u64(s)->Some_0 + (c as int - '0' as int)) as u64)
        } else {
            None
        },
        s.len() > 0 && s != seq!['+'] && text::parse_u64(s) is None ==> text::parse_u64(s.push(c))
            is None,
        s.len() > 0 && !is_decimal(c) ==> text::parse_u64(s.push(c)) is None,
        c != '+' && !is_decimal(c) ==> text::parse_u64(seq![c]) is None,
{
    assert(seq!['+'].skip(1) =~= Seq::empty());
    lemma_one_digit(c);
    assert(seq!['+', c].skip(1) =~= seq![c]);
    if s.len() > 0 {
        let t = s.push(c);
        let body = text::unsigned_part(s, '+');
        assert(text::unsigned_part(t, '+') =~= body.push(c));
        assert(body.push(c).drop_last() =~= body);
        assert(body.push(c).last() == c);
        if text::is_digits(body) && is_decimal(c) {
            assert(text::is_digits(body.push(c))) by {
                assert forall|i: int| 0 <= i < body.len() + 1 implies text::is_digit(
                    #[trigger] body.push(c)[i],
                ) by {
                    if i < body.len() {
                        assert(text::is_digit(body[i]));
                    }
                }
            }
        }
        if text::is_digits(body.push(c)) {
            assert(text::is_digit(body.push(c)[body.len() as int]));
            if body.len() > 0 {
                assert(text::is_digits(body)) by {
                    assert forall|i: int| 0 <= i < body.len() implies text::is_digit(
                        #[trigger] body[i],
                    ) by {
                        assert(text::is_digit(body.push(c)[i]));
                    }
                }
            } else {
                assert(s =~= seq!['+']);
            }
        }
    }
}

/// One digit is read as itself.
proof fn lemma_one_digit(c: char)
    ensures
        is_decimal(c) ==> text::parse_u64(seq![c]) == Some((c as int - '0' as int) as u64),
        c != '+' && !is_decimal(c) ==> text::parse_u64(seq![c]) is None,
{
    let s = seq![c];
    assert(text::digits_value(s.drop_last()) == 0);
    if !is_decimal(c) {
        assert(!text::is_digit(s[0]));
    }
}

/// A signed number is read as an unsigned one within the range of `i64`. A minus sign makes
/// it negative, and no other sign may follow it.
pub proof fn lemma_read_signed(s: Seq<char>)
    ensures
        s.len() == 0 || s[0] != '-' ==> text::parse_i64(s) == match text::parse_u64(s) {
            Some(n) => if n <= i64::MAX {
                Some(n as i64)
            } else {
                None
            },
            None => None,
        },
        text::parse_i64(seq!['-'] + s) == match text::parse_u64(s) {
            Some(n) => if s[0] != '+' && -n >= i64::MIN {
                Some((-n) as i64)
            } else {
                None
            },
            None => None,
        },
{
    assert((seq!['-'] + s).skip(1) =~= s);
    if s.len() > 0 && s[0] == '+' {
        assert(!text::is_digit(s[0]));
    }
}

/// Trimming takes away slashes at the end, all of them and nothing else.
pub proof fn lemma_trimmed(s: Seq<char>)
    ensures
        ({
            let r = text::trim_slashes(s);
            &&& r.len() <= s.len()
            &&& r == s.take(r.len() as int)
            &&& forall|i: int| r.len() <= i < s.len() ==> #[trigger] s[i] == '/'
            &&& r.len() > 0 ==> r.last() != '/'
        }),
    decreases s.len(),
{
    if s.len() > 0 && s.last() == '/' {
        lemma_trimmed(s.drop_last());
        let r = text::trim_slashes(s.drop_last());
        assert(r =~= s.take(r.len() as int));
        assert forall|i: int| r.len() <= i < s.len() implies #[trigger] s[i] == '/' by {
            if i < s.len() - 1 {
                assert(s.drop_last()[i] == s[i]);
            }
        }
    } else {
        assert(s =~= s.take(s.len() as int));
    }
}

/// One string precedes another exactly where it has the smaller character at the first place
/// in which they differ, or where it is the beginning of the other.
pub proof fn lemma_order(a: Seq<char>, b: Seq<char>, k: int)
    requires
        0 <= k <= a.len(),
        k <= b.len(),
        a.take(k) == b.take(k),
        k < a.len() && k < b.len() ==> a[k] != b[k],
    ensures
        text::precedes(a, b) <==> k < b.len() && (k == a.len() || (a[k] as int) < (b[k] as int)),
    decreases a.len(),
{
    if k > 0 {
        assert(a[0] == a.take(k)[0] && b[0] == b.take(k)[0]);
        assert(a.skip(1).take(k - 1) =~= a.take(k).skip(1));
        assert(b.skip(1).take(k - 1) =~= b.take(k).skip(1));
        lemma_order(a.skip(1), b.skip(1), k - 1);
        assert(k < a.len() ==> a.skip(1)[k - 1] == a[k]);
        assert(k < b.len() ==> b.skip(1)[k - 1] == b[k]);
    }
}

/// Each byte is two digits in hexadecimal text: first how many sixteens it has, then what is
/// left.
pub proof fn lemma_hex_digits(bytes: Seq<u8>)
    ensures
        base16::hex_text(bytes).len() == 2 * bytes.len(),
        forall|i: int|
            0 <= i < bytes.len() ==> {
                &&& #[trigger] base16::hex_text(bytes)[2 * i]
                    == "0123456789abcdef"@[bytes[i] as int / 16]
                &&& base16::hex_text(bytes)[2 * i + 1]
                    == "0123456789abcdef"@[bytes[i] as int % 16]
            },
{
    reveal_strlit("0123456789abcdef");
    assert forall|i: int| 0 <= i < bytes.len() implies {
        &&& #[trigger] base16::hex_text(bytes)[2 * i]
            == "0123456789abcdef"@[bytes[i] as int / 16]
        &&& base16::hex_text(bytes)[2 * i + 1] == "0123456789abcdef"@[bytes[i] as int % 16]
    } by {
        assert((2 * i) / 2 == i && (2 * i + 1) / 2 == i);
        assert((2 * i) % 2 == 0 && (2 * i + 1) % 2 == 1);
        lemma_digit(bytes[i] as int / 16);
        lemma_digit(bytes[i] as int % 16);
    }
}

/// The digit at each place.
proof fn lemma_digit(d: int)
    requires
        0 <= d < 16,
    ensures
        base16::hex_digit(d) == "0123456789abcdef"@[d],
{
    reveal_strlit("0123456789abcdef");
}

/// What hexadecimal text decodes to: for every two digits one byte, whose text is these two
/// digits in lowercase. Text is refused exactly where its length is odd or a character is no
/// digit.
pub proof fn lemma_hex_bytes(s: Seq<char>)
    ensures
        base16::is_hex(s) <==> s.len() % 2 == 0 && forall|i: int|
            0 <= i < s.len() ==> "0123456789abcdef"@.contains(#[trigger] s[i])
                || "ABCDEF"@.contains(s[i]),
        base16::is_hex(s) ==> base16::hex_bytes(s).len() * 2 == s.len(),
        base16::is_hex(s) ==> forall|i: int|
            0 <= i < s.len() ==> (#[trigger] base16::hex_text(base16::hex_bytes(s))[i]) as int
                == if 'A' as int <= s[i] as int <= 'F' as int {
                s[i] as int + 32
            } else {
                s[i] as int
            },
{
    assert forall|c: char| #[trigger] base16::is_hex_digit(c) == ("0123456789abcdef"@.contains(c)
        || "ABCDEF"@.contains(c)) by {
        lemma_digit_character(c);
    }
    if base16::is_hex(s) {
        assert forall|i: int| 0 <= i < s.len() implies "0123456789abcdef"@.contains(
            #[trigger] s[i],
        ) || "ABCDEF"@.contains(s[i]) by {
            assert(base16::is_hex_digit(s[i]));
        }
        base16::lemma_encode_decode(s);
    }
    if s.len() % 2 == 0 && forall|i: int|
        0 <= i < s.len() ==> "0123456789abcdef"@.contains(#[trigger] s[i]) || "ABCDEF"@.contains(
            s[i],
        ) {
        assert forall|i: int| 0 <= i < s.len() implies base16::is_hex_digit(#[trigger] s[i]) by {}
    }
}

/// Which characters are digits.
proof fn lemma_digit_character(c: char)
    ensures
        base16::is_hex_digit(c) == ("0123456789abcdef"@.contains(c) || "ABCDEF"@.contains(c)),
{
    reveal_strlit("0123456789abcdef");
    reveal_strlit("ABCDEF");
    let n = c as int;
    if 48 <= n <= 57 {
        assert("0123456789abcdef"@[n - 48] == c);
    } else if 97 <= n <= 102 {
        assert("0123456789abcdef"@[n - 87] == c);
    } else if 65 <= n <= 70 {
        assert("ABCDEF"@[n - 65] == c);
    }
}

/// An integer of CBOR is written under `int` with its value: as a number where the machine
/// can hold it, and else by its numeral.
pub proof fn lemma_cbor_integer(n: i128)
    ensures
        ({
            let j = datum::cbor_to_json(CborView::Integer(n))->Ok_0;
            &&& datum::cbor_to_json(CborView::Integer(n)) is Ok
            &&& j is Object
            &&& j->Object_0.dom() == set!["int"@]
            &&& if i64::MIN <= n <= u64::MAX {
                layout::is_number(j->Object_0["int"@], n as int)
            } else {
                j->Object_0["int"@] == JsonView::Number(
                    NumberView::Other(text::decimal(n as int)),
                )
            }
        }),
{
    let j = datum::cbor_to_json(CborView::Integer(n))->Ok_0;
    assert(j->Object_0.dom() =~= set!["int"@]);
}

/// A byte string of CBOR is written under `bytes` in hexadecimal, and a text so by its bytes.
pub proof fn lemma_cbor_bytes(b: Seq<u8>, s: Seq<char>)
    ensures
        datum::cbor_to_json(CborView::Bytes(b)) is Ok,
        layout::is_bytes(datum::cbor_to_json(CborView::Bytes(b))->Ok_0, base16::hex_text(b)),
        datum::cbor_to_json(CborView::Text(s)) is Ok,
        layout::is_bytes(
            datum::cbor_to_json(CborView::Text(s))->Ok_0,
            base16::hex_text(encode_utf8(s)),
        ),
{
    layout::lemma_bytes_layout(base16::hex_text(b));
    layout::lemma_bytes_layout(base16::hex_text(encode_utf8(s)));
}

/// Whether documents are what CBOR items stand for, one for one.
pub open spec fn stand_for(items: Seq<CborView>, list: Seq<JsonView>) -> bool {
    &&& items.len() == list.len()
    &&& forall|i: int|
        0 <= i < items.len() ==> datum::cbor_to_json(#[trigger] items[i]) == Ok::<
            JsonView,
            ErrorView,
        >(list[i])
}

/// Items are converted one by one.
proof fn lemma_items(items: Seq<CborView>, list: Seq<JsonView>)
    requires
        stand_for(items, list),
    ensures
        datum::items_to_json(items) == Ok::<Seq<JsonView>, ErrorView>(list),
    decreases items.len(),
{
    if items.len() > 0 {
        let before = items.drop_last();
        assert forall|i: int| 0 <= i < before.len() implies datum::cbor_to_json(
            #[trigger] before[i],
        ) == Ok::<JsonView, ErrorView>(list.drop_last()[i]) by {
            assert(before[i] == items[i]);
        }
        lemma_items(before, list.drop_last());
        assert(items.last() == items[items.len() - 1]);
        assert(list.drop_last().push(list.last()) =~= list);
    } else {
        assert(list =~= Seq::empty());
    }
}

/// The first item that is no Plutus data decides what is said of all.
proof fn lemma_items_refused(items: Seq<CborView>, k: int, e: ErrorView)
    requires
        0 <= k < items.len(),
        forall|i: int| 0 <= i < k ==> datum::cbor_to_json(#[trigger] items[i]) is Ok,
        datum::cbor_to_json(items[k]) == Err::<JsonView, ErrorView>(e),
    ensures
        datum::items_to_json(items) == Err::<Seq<JsonView>, ErrorView>(e),
    decreases items.len(),
{
    if k < items.len() - 1 {
        lemma_items_refused(items.drop_last(), k, e);
    } else {
        let before = items.drop_last();
        let list = Seq::new(before.len(), |i: int| datum::cbor_to_json(before[i])->Ok_0);
        assert forall|i: int| 0 <= i < before.len() implies datum::cbor_to_json(
            #[trigger] before[i],
        ) == Ok::<JsonView, ErrorView>(list[i]) by {
            assert(before[i] == items[i]);
        }
        lemma_items(before, list);
    }
}

/// An array of CBOR is written as a list of what its items stand for. Under the tags 121 to
/// 127 these are the fields of the constructors 0 to 6. Under the tag 102 the array is led by
/// the number of the constructor, and the fields stand in an array behind it.
pub proof fn lemma_cbor_array(items: Seq<CborView>, list: Seq<JsonView>, tag: u64, n: i128)
    requires
        stand_for(items, list),
    ensures
        datum::cbor_to_json(CborView::Array(items)) is Ok,
        layout::is_list(datum::cbor_to_json(CborView::Array(items))->Ok_0, list),
        121 <= tag <= 127 ==> {
            let c = CborView::Tag(tag, Box::new(CborView::Array(items)));
            &&& datum::cbor_to_json(c) is Ok
            &&& layout::is_constructor(datum::cbor_to_json(c)->Ok_0, tag - 121, list)
        },
        0 <= n <= u64::MAX ==> {
            let c = CborView::Tag(
                102,
                Box::new(
                    CborView::Array(seq![CborView::Integer(n), CborView::Array(items)]),
                ),
            );
            &&& datum::cbor_to_json(c) is Ok
            &&& layout::is_constructor(datum::cbor_to_json(c)->Ok_0, n as int, list)
        },
{
    lemma_items(items, list);
    layout::lemma_keys_differ();
    assert(datum::list_json(list)->Object_0.dom() =~= set!["list"@]);
    if 121 <= tag <= 127 {
        let j = datum::constructor_json(tag - 121, list);
        assert(j->Object_0.dom() =~= set!["constructor"@, "fields"@]);
        let c = CborView::Tag(tag, Box::new(CborView::Array(items)));
        assert(datum::cbor_to_json(c) == Ok::<JsonView, ErrorView>(j));
    }
    if 0 <= n <= u64::MAX {
        let j = datum::constructor_json(n as int, list);
        assert(j->Object_0.dom() =~= set!["constructor"@, "fields"@]);
        let pair = seq![CborView::Integer(n), CborView::Array(items)];
        assert(pair.drop_last().len() == 1);
        assert(datum::parts_to_json(pair.drop_last()) == Ok::<Seq<JsonView>, ErrorView>(
            Seq::empty(),
        ));
        assert(Seq::<JsonView>::empty() + list =~= list);
        assert(datum::parts_to_json(pair) == Ok::<Seq<JsonView>, ErrorView>(list));
        let c = CborView::Tag(102, Box::new(CborView::Array(pair)));
        assert(datum::cbor_to_json(c) == Ok::<JsonView, ErrorView>(j));
    }
}

/// Behind the number of a constructor under the tag 102, a further array adds what its items
/// stand for to the fields, and any other item adds what it stands for itself. Without
/// anything behind the number there are no fields.
pub proof fn lemma_cbor_parts(
    n: i128,
    parts: Seq<CborView>,
    fields: Seq<JsonView>,
    items: Seq<CborView>,
    list: Seq<JsonView>,
    item: CborView,
)
    requires
        datum::parts_to_json(seq![CborView::Integer(n)] + parts) == Ok::<Seq<JsonView>, ErrorView>(
            fields,
        ),
        stand_for(items, list),
    ensures
        datum::cbor_to_json(
            CborView::Tag(102, Box::new(CborView::Array(seq![CborView::Integer(n)] + parts))),
        ) == Ok::<JsonView, ErrorView>(datum::constructor_json(n as int, fields)),
        parts.len() == 0 ==> fields.len() == 0,
        datum::parts_to_json(seq![CborView::Integer(n)] + parts.push(CborView::Array(items)))
            == Ok::<Seq<JsonView>, ErrorView>(fields + list),
        item !is Array && datum::cbor_to_json(item) is Ok ==> datum::parts_to_json(
            seq![CborView::Integer(n)] + parts.push(item),
        ) == Ok::<Seq<JsonView>, ErrorView>(fields.push(datum::cbor_to_json(item)->Ok_0)),
        item !is Array && datum::cbor_to_json(item) is Err ==> datum::parts_to_json(
            seq![CborView::Integer(n)] + parts.push(item),
        ) == Err::<Seq<JsonView>, ErrorView>(datum::cbor_to_json(item)->Err_0),
{
    let number = CborView::Integer(n);
    lemma_items(items, list);
    assert((seq![number] + parts.push(CborView::Array(items))).drop_last() =~= seq![number]
        + parts);
    assert((seq![number] + parts.push(CborView::Array(items))).last() == CborView::Array(items));
    assert((seq![number] + parts.push(item)).drop_last() =~= seq![number] + parts);
    assert((seq![number] + parts.push(item)).last() == item);
    assert((seq![number] + parts)[0] == number);
    let c = CborView::Tag(102, Box::new(CborView::Array(seq![number] + parts)));
    assert(datum::cbor_to_json(c) == Ok::<JsonView, ErrorView>(
        datum::constructor_json(n as int, fields),
    ));
}

/// What is no Plutus data is refused: an array for the first of its items that is none, a tag
/// around anything but fields, a tag of no constructor, and what Plutus data has no form for.
pub proof fn lemma_cbor_refused(items: Seq<CborView>, k: int, e: ErrorView, c: CborView, tag: u64)
    requires
        0 <= k < items.len(),
        forall|i: int| 0 <= i < k ==> datum::cbor_to_json(#[trigger] items[i]) is Ok,
        datum::cbor_to_json(items[k]) == Err::<JsonView, ErrorView>(e),
    ensures
        datum::cbor_to_json(CborView::Array(items)) == Err::<JsonView, ErrorView>(e),
        121 <= tag <= 127 ==> datum::cbor_to_json(
            CborView::Tag(tag, Box::new(CborView::Array(items))),
        ) == Err::<JsonView, ErrorView>(e),
        121 <= tag <= 127 && c !is Array ==> datum::cbor_to_json(CborView::Tag(tag, Box::new(c)))
            == Err::<JsonView, ErrorView>(
            ErrorView::Parse(
                "expected array inside constructor tag, got "@ + cbor::debug_cbor(c),
            ),
        ),
        (c !is Array || c->Array_0.len() == 0 || c->Array_0[0] !is Integer) ==> datum::cbor_to_json(
            CborView::Tag(102, Box::new(c)),
        ) == Err::<JsonView, ErrorView>(
            ErrorView::Parse("invalid Tag 102 encoding: "@ + cbor::debug_cbor(c)),
        ),
        tag != 102 && !(121 <= tag <= 127) ==> datum::cbor_to_json(CborView::Tag(tag, Box::new(c)))
            == Err::<JsonView, ErrorView>(
            ErrorView::Parse("unexpected CBOR tag: "@ + text::decimal(tag as int)),
        ),
        c is Float || c is Bool || c is Null || c is Entries ==> datum::cbor_to_json(c) == Err::<
            JsonView,
            ErrorView,
        >(ErrorView::Parse("unsupported CBOR value type: "@ + cbor::debug_cbor(c))),
{
    lemma_items_refused(items, k, e);
    let inner = Box::new(CborView::Array(items));
    assert(datum::cbor_to_json(CborView::Array(items)) == Err::<JsonView, ErrorView>(e));
    if 121 <= tag <= 127 {
        assert(datum::cbor_to_json(CborView::Tag(tag, inner)) == Err::<JsonView, ErrorView>(e));
    }
}

/// Whether CBOR items are what documents stand for, one for one.
pub open spec fn written_as(items: Seq<JsonView>, list: Seq<CborView>) -> bool {
    &&& items.len() == list.len()
    &&& forall|i: int|
        0 <= i < items.len() ==> datum::json_to_cbor(#[trigger] items[i]) == Ok::<
            CborView,
            ErrorView,
        >(list[i])
}

/// Documents are converted one by one.
proof fn lemma_documents(items: Seq<JsonView>, list: Seq<CborView>)
    requires
        written_as(items, list),
    ensures
        datum::jsons_to_cbor(items) == Ok::<Seq<CborView>, ErrorView>(list),
    decreases items.len(),
{
    if items.len() > 0 {
        let before = items.drop_last();
        assert forall|i: int| 0 <= i < before.len() implies datum::json_to_cbor(
            #[trigger] before[i],
        ) == Ok::<CborView, ErrorView>(list.drop_last()[i]) by {
            assert(before[i] == items[i]);
        }
        lemma_documents(before, list.drop_last());
        assert(items.last() == items[items.len() - 1]);
        assert(list.drop_last().push(list.last()) =~= list);
    } else {
        assert(list =~= Seq::empty());
    }
}

/// Plutus JSON that holds an integer becomes that integer of CBOR.
pub proof fn lemma_int_to_cbor(j: JsonView, n: i64)
    requires
        layout::holds_int(j, n as int),
    ensures
        datum::json_to_cbor(j) is Ok,
        datum::json_to_cbor(j)->Ok_0 is Integer,
        datum::json_to_cbor(j)->Ok_0->Integer_0 == n,
{
}

/// Plutus JSON that holds a byte string and no integer becomes the bytes that it stands for.
pub proof fn lemma_bytes_to_cbor(j: JsonView, hex: Seq<char>)
    requires
        layout::holds_bytes(j, hex),
        layout::lacks_int(j),
        base16::is_hex(hex),
    ensures
        datum::json_to_cbor(j) is Ok,
        datum::json_to_cbor(j)->Ok_0 is Bytes,
        datum::json_to_cbor(j)->Ok_0->Bytes_0 == base16::hex_bytes(hex),
{
    layout::lemma_item_refused(j);
}

/// Plutus JSON that holds a list, and neither an integer nor a byte string, becomes an array
/// of what the items stand for.
pub proof fn lemma_list_to_cbor(j: JsonView, items: Seq<JsonView>, list: Seq<CborView>)
    requires
        layout::holds_list(j, items),
        layout::lacks_int(j),
        layout::lacks_bytes(j),
        written_as(items, list),
    ensures
        datum::json_to_cbor(j) == Ok::<CborView, ErrorView>(CborView::Array(list)),
{
    layout::lemma_item_refused(j);
    lemma_documents(items, list);
    assert(json::items_at(j, "list"@) == Some(items));
}

/// The constructors 0 to 6 become the tags 121 to 127 around their fields. A larger one
/// becomes the tag 102 around its number and its fields.
pub proof fn lemma_constructor_to_cbor(
    j: JsonView,
    n: u64,
    fields: Seq<JsonView>,
    list: Seq<CborView>,
)
    requires
        layout::is_constructor(j, n as int, fields),
        j->Object_0["constructor"@]->Number_0 is Unsigned,
        written_as(fields, list),
    ensures
        datum::json_to_cbor(j) is Ok,
        datum::json_to_cbor(j)->Ok_0 is Tag,
        n <= 6 ==> {
            &&& datum::json_to_cbor(j)->Ok_0->Tag_0 == 121 + n
            &&& *datum::json_to_cbor(j)->Ok_0->Tag_1 == CborView::Array(list)
        },
        n > 6 ==> {
            &&& datum::json_to_cbor(j)->Ok_0->Tag_0 == 102
            &&& *datum::json_to_cbor(j)->Ok_0->Tag_1 is Array
            &&& datum::json_to_cbor(j)->Ok_0->Tag_1->Array_0 == seq![
                CborView::Integer(n as i128),
                CborView::Array(list),
            ]
        },
{
    layout::lemma_keys_differ();
    lemma_documents(fields, list);
    assert(json::integer_at(j, "int"@) is None);
    assert(json::string_at(j, "bytes"@) is None);
    assert(json::items_at(j, "list"@) is None);
    assert(json::unsigned_at(j, "constructor"@) == Some(n));
    assert(json::items_at(j, "fields"@) == Some(fields));
}

/// The hexadecimal text of a datum is that of its CBOR: it is read from the item that its
/// bytes decode to, and written from the bytes that its item encodes to.
pub proof fn lemma_datum_hex(hex: Seq<char>, j: JsonView)
    ensures
        match datum::hex_to_json(hex) {
            Ok(r) => {
                &&& base16::is_hex(hex)
                &&& cbor::decoded_cbor(base16::hex_bytes(hex)) is Ok
                &&& datum::cbor_to_json(cbor::decoded_cbor(base16::hex_bytes(hex))->Ok_0) == Ok::<
                    JsonView,
                    ErrorView,
                >(r)
            },
            Err(e) => if !base16::is_hex(hex) {
                e == ErrorView::Parse("invalid hex in inline_datum: "@ + base16::hex_error(hex))
            } else {
                match cbor::decoded_cbor(base16::hex_bytes(hex)) {
                    Ok(c) => datum::cbor_to_json(c) == Err::<JsonView, ErrorView>(e),
                    Err(m) => e == ErrorView::Parse("CBOR decode failed: "@ + m),
                }
            },
        },
        match datum::json_to_hex(j) {
            Ok(s) => datum::json_to_cbor(j) is Ok && s == base16::hex_text(
                cbor::encoded_cbor(datum::json_to_cbor(j)->Ok_0),
            ),
            Err(e) => datum::json_to_cbor(j) == Err::<CborView, ErrorView>(e),
        },
{
}

} // verus!

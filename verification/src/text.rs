//! Numbers and hardware addresses written as text.

use vstd::prelude::*;
use vstd::string::*;

verus! {

/// The digits of hexadecimal text, in lower case.
pub open spec fn hex_digits() -> Seq<char> {
    seq!['0', '1', '2', '3', '4', '5', '6', '7', '8', '9', 'a', 'b', 'c', 'd', 'e', 'f']
}

/// The text of a hardware address: two hexadecimal digits for each byte, the high one first, with
/// a colon between one byte and the next.
pub open spec fn mac_text(mac: Seq<u8>) -> Seq<char>
    recommends
        mac.len() == 6,
{
    Seq::new(
        17,
        |k: int|
            if k % 3 == 0 {
                hex_digits()[mac[k / 3] as int / 16]
            } else if k % 3 == 1 {
                hex_digits()[mac[k / 3] as int % 16]
            } else {
                ':'
            },
    )
}

/// The text of a number in decimal, without leading zeros.
pub open spec fn decimal(n: nat) -> Seq<char>
    decreases n,
{
    if n < 10 {
        seq![hex_digits()[n as int]]
    } else {
        decimal(n / 10).push(hex_digits()[(n % 10) as int])
    }
}

/// The hexadecimal digit of a value below 16.
fn hex_digit(n: u8) -> (digit: &'static str)
    requires
        n < 16,
    ensures
        digit@ == seq![hex_digits()[n as int]],
{
    proof {
        reveal_strlit("0");
        reveal_strlit("1");
        reveal_strlit("2");
        reveal_strlit("3");
        reveal_strlit("4");
        reveal_strlit("5");
        reveal_strlit("6");
        reveal_strlit("7");
        reveal_strlit("8");
        reveal_strlit("9");
        reveal_strlit("a");
        reveal_strlit("b");
        reveal_strlit("c");
        reveal_strlit("d");
        reveal_strlit("e");
        reveal_strlit("f");
    }
    match n {
        0 => "0",
        1 => "1",
        2 => "2",
        3 => "3",
        4 => "4",
        5 => "5",
        6 => "6",
        7 => "7",
        8 => "8",
        9 => "9",
        10 => "a",
        11 => "b",
        12 => "c",
        13 => "d",
        14 => "e",
        _ => "f",
    }
}

/// Writes a hardware address in lower case, its bytes separated by colons.
pub fn mac_to_string(mac: &[u8; 6]) -> (text: String)
    ensures
        text@ == mac_text(mac@),
{
    let mut text = String::new();
    let mut i: usize = 0;
    while i < 6
        invariant
            i <= 6,
            text@ == mac_text(mac@).take(if i == 0 { 0 } else { 3 * i - 1 }),
        decreases 6 - i,
    {
        let ghost before = text@;
        if i > 0 {
            proof {
                reveal_strlit(":");
            }
            text.append(":");
        }
        text.append(hex_digit(mac[i] / 16));
        text.append(hex_digit(mac[i] % 16));
        assert(text@ =~= mac_text(mac@).take(3 * i + 2));
        i += 1;
    }
    assert(mac_text(mac@).take(17) =~= mac_text(mac@));
    text
}

/// Writes a number in decimal.
pub fn decimal_string(n: usize) -> (text: String)
    ensures
        text@ == decimal(n as nat),
    decreases n,
{
    if n < 10 {
        let mut text = String::new();
        text.append(hex_digit(n as u8));
        assert(text@ =~= decimal(n as nat));
        text
    } else {
        let mut text = decimal_string(n / 10);
        text.append(hex_digit((n % 10) as u8));
        assert(text@ =~= decimal(n as nat));
        text
    }
}

/// Each hexadecimal digit stands for one value.
proof fn lemma_hex_digits_differ(a: int, b: int)
    requires
        0 <= a < 16,
        0 <= b < 16,
        hex_digits()[a] == hex_digits()[b],
    ensures
        a == b,
{
}

/// Two hardware addresses with the same text are the same address.
pub proof fn law_mac_text_tells_addresses_apart(a: Seq<u8>, b: Seq<u8>)
    requires
        a.len() == 6,
        b.len() == 6,
        mac_text(a) == mac_text(b),
    ensures
        a == b,
{
    assert forall|i: int| 0 <= i < 6 implies a[i] == b[i] by {
        let (high, low) = (3 * i, 3 * i + 1);
        assert(high / 3 == i && low / 3 == i);
        assert(mac_text(a)[high] == hex_digits()[a[i] as int / 16]);
        assert(mac_text(b)[high] == hex_digits()[b[i] as int / 16]);
        assert(mac_text(a)[low] == hex_digits()[a[i] as int % 16]);
        assert(mac_text(b)[low] == hex_digits()[b[i] as int % 16]);
        lemma_hex_digits_differ(a[i] as int / 16, b[i] as int / 16);
        lemma_hex_digits_differ(a[i] as int % 16, b[i] as int % 16);
    }
    assert(a =~= b);
}

/// The text of a hardware address is 17 characters long and holds colons and the hexadecimal
/// digits in lower case alone.
pub proof fn law_mac_text_is_lower_case(mac: Seq<u8>)
    requires
        mac.len() == 6,
    ensures
        mac_text(mac).len() == 17,
        forall|k: int|
            0 <= k < 17 ==> #[trigger] mac_text(mac)[k] == ':' || hex_digits().contains(
                mac_text(mac)[k],
            ),
{
}

/// Two numbers with the same decimal text are the same number.
pub proof fn law_decimal_tells_numbers_apart(a: nat, b: nat)
    requires
        decimal(a) == decimal(b),
    ensures
        a == b,
    decreases a + b,
{
    lemma_decimal_is_not_empty(a / 10);
    lemma_decimal_is_not_empty(b / 10);
    assert(decimal(a).last() == hex_digits()[(a % 10) as int]);
    assert(decimal(b).last() == hex_digits()[(b % 10) as int]);
    if a >= 10 && b >= 10 {
        assert(decimal(a).drop_last() =~= decimal(a / 10));
        assert(decimal(b).drop_last() =~= decimal(b / 10));
        law_decimal_tells_numbers_apart(a / 10, b / 10);
    }
}

/// A number has at least one digit.
proof fn lemma_decimal_is_not_empty(n: nat)
    ensures
        decimal(n).len() > 0,
    decreases n,
{
    if n >= 10 {
        lemma_decimal_is_not_empty(n / 10);
    }
}

/// What a character stands for as a hexadecimal digit in lower case.
pub open spec fn hex_value(c: char) -> Option<int> {
    if '0' <= c <= '9' {
        Some(c as int - '0' as int)
    } else if 'a' <= c <= 'f' {
        Some(c as int - 'a' as int + 10)
    } else {
        None
    }
}

/// The text of a hardware address reads back as the address: the two characters at the place of a
/// byte are hexadecimal digits in lower case that make up the byte, and a colon stands between
/// one byte and the next.
pub proof fn law_mac_text_reads_back(mac: Seq<u8>, i: int)
    requires
        mac.len() == 6,
        0 <= i < 6,
    ensures
        mac_text(mac).len() == 17,
        hex_value(mac_text(mac)[3 * i]) is Some,
        hex_value(mac_text(mac)[3 * i + 1]) is Some,
        16 * hex_value(mac_text(mac)[3 * i])->0 + hex_value(mac_text(mac)[3 * i + 1])->0 == mac[i],
        i < 5 ==> mac_text(mac)[3 * i + 2] == ':',
{
    let (high, low, colon) = (3 * i, 3 * i + 1, 3 * i + 2);
    assert(high / 3 == i && low / 3 == i && colon % 3 == 2);
    assert(mac_text(mac)[high] == hex_digits()[mac[i] as int / 16]);
    assert(mac_text(mac)[low] == hex_digits()[mac[i] as int % 16]);
}

/// The number that a text of decimal digits stands for.
pub open spec fn number_read(text: Seq<char>) -> int
    decreases text.len(),
{
    if text.len() == 0 {
        0
    } else {
        10 * number_read(text.drop_last()) + (text.last() as int - '0' as int)
    }
}

/// The decimal text of a number reads back as the number. It holds digits alone, at least one, and
/// starts with a zero only if it is the number zero.
pub proof fn law_decimal_reads_back(n: nat)
    ensures
        number_read(decimal(n)) == n,
        decimal(n).len() > 0,
        forall|i: int| 0 <= i < decimal(n).len() ==> '0' <= #[trigger] decimal(n)[i] <= '9',
        decimal(n)[0] == '0' ==> n == 0 && decimal(n).len() == 1,
    decreases n,
{
    let text = decimal(n);
    if n < 10 {
        assert(text.drop_last() =~= Seq::<char>::empty());
        assert(number_read(text.drop_last()) == 0);
        assert(text.last() as int - '0' as int == n);
    } else {
        law_decimal_reads_back(n / 10);
        assert(text.drop_last() =~= decimal(n / 10));
        assert(text.last() as int - '0' as int == n % 10);
        assert(text[0] == decimal(n / 10)[0]);
    }
}

} // verus!

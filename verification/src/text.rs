//! Short textual forms of numbers and hashes.

use vstd::prelude::*;
use vstd::string::*;

use crate::chain::UInt256;

verus! {

/// The character of the hexadecimal digit `d`, in lower case.
pub open spec fn hex_digit(d: int) -> char {
    if d < 10 {
        (('0' as int) + d) as char
    } else {
        (('a' as int) + (d - 10)) as char
    }
}

/// Two lower-case hexadecimal digits for each byte.
pub open spec fn hex_text(bytes: Seq<u8>) -> Seq<char> {
    Seq::new(
        2 * bytes.len(),
        |i: int|
            if i % 2 == 0 {
                hex_digit(bytes[i / 2] as int / 16)
            } else {
                hex_digit(bytes[i / 2] as int % 16)
            },
    )
}

/// Calls `hex::encode`: the text holds, for each byte in turn, its high and
/// its low hexadecimal digit in lower case.
#[verifier::external_body]
fn hex_encode(bytes: &[u8]) -> (s: String)
    ensures
        s@ == hex_text(bytes@),
{
    hex::encode(bytes)
}

/// The first eight hexadecimal digits of `hash`.
pub open spec fn hash_prefix(hash: UInt256) -> Seq<char> {
    hex_text(Seq::new(4, |i: int| hash.byte(i)))
}

/// The first eight hexadecimal digits of `hash`.
pub fn short_hash(hash: &UInt256) -> (s: String)
    ensures
        s@ == hash_prefix(*hash),
        s@.len() == 8,
{
    let bytes: [u8; 4] = hash.leading_bytes();
    let s = hex_encode(bytes.as_slice());
    assert(bytes@ =~= Seq::new(4, |i: int| hash.byte(i)));
    s
}

/// The decimal digits of `n`, without leading zeros.
pub open spec fn decimal(n: nat) -> Seq<char>
    decreases n,
{
    if n < 10 {
        seq![hex_digit(n as int)]
    } else {
        decimal(n / 10).push(hex_digit((n % 10) as int))
    }
}

/// `text` with zeros in front, so that it has at least three characters.
pub open spec fn pad_to_three(text: Seq<char>) -> Seq<char> {
    if text.len() >= 3 {
        text
    } else if text.len() == 2 {
        seq!['0'] + text
    } else if text.len() == 1 {
        seq!['0', '0'] + text
    } else {
        seq!['0', '0', '0']
    }
}

fn digit(d: u64) -> (s: &'static str)
    requires
        d < 10,
    ensures
        s@ == seq![hex_digit(d as int)],
{
    proof {
        reveal_strlit("0");
        reveal_strlit("1");
        reveal_strlit("2");
        reveal_strlit("3");
        reveal_strlit("4");
        reveal_strlit("5");
        reveal_strlit("6");
        reveal_strlit("7");
        reveal_strlit("8");
        reveal_strlit("9");
    }
    let s: &'static str = match d {
        0 => "0",
        1 => "1",
        2 => "2",
        3 => "3",
        4 => "4",
        5 => "5",
        6 => "6",
        7 => "7",
        8 => "8",
        _ => "9",
    };
    assert(s@ =~= seq![hex_digit(d as int)]);
    s
}

/// The decimal digits of `n`.
pub fn decimal_text(n: u64) -> (s: String)
    ensures
        s@ == decimal(n as nat),
    decreases n,
{
    if n < 10 {
        let s = String::from_str(digit(n));
        s
    } else {
        let mut s = decimal_text(n / 10);
        let ghost head = s@;
        s.append(digit(n % 10));
        assert(s@ =~= head.push(hex_digit((n % 10) as int)));
        s
    }
}

proof fn lemma_decimal_nonempty(n: nat)
    ensures
        decimal(n).len() >= 1,
{
}

/// The decimal digits of `n`, padded with zeros to three digits.
pub fn decimal_text_padded(n: u64) -> (s: String)
    ensures
        s@ == pad_to_three(decimal(n as nat)),
{
    let digits = decimal_text(n);
    proof {
        lemma_decimal_nonempty(n as nat);
    }
    let len: usize = digits.as_str().unicode_len();
    if len >= 3 {
        digits
    } else {
        proof {
            reveal_strlit("0");
            reveal_strlit("00");
        }
        let mut s = String::from_str(if len == 2 { "0" } else { "00" });
        s.append(digits.as_str());
        assert(s@ =~= pad_to_three(decimal(n as nat)));
        s
    }
}

/// The value of a decimal digit.
pub open spec fn digit_value(c: char) -> int {
    c as int - '0' as int
}

/// The number that decimal digits stand for.
pub open spec fn read_decimal(text: Seq<char>) -> int
    decreases text.len(),
{
    if text.len() == 0 {
        0
    } else {
        10 * read_decimal(text.drop_last()) + digit_value(text.last())
    }
}

/// The decimal digits of a number stand for that number, and have no zero in front but
/// for zero itself; zeros in front that fill up to three digits do not change it.
pub proof fn decimal_digits_stand_for_the_number(n: nat)
    ensures
        read_decimal(decimal(n)) == n,
        decimal(n).len() >= 1,
        n > 0 ==> digit_value(decimal(n)[0]) > 0,
        forall|i: int| 0 <= i < decimal(n).len() ==> 0 <= digit_value(#[trigger] decimal(n)[i]) < 10,
        read_decimal(pad_to_three(decimal(n))) == n,
        pad_to_three(decimal(n)).len() >= 3,
        n < 1000 ==> pad_to_three(decimal(n)).len() == 3,
        n >= 100 ==> pad_to_three(decimal(n)) == decimal(n),
{
    lemma_read_decimal(n);
    lemma_decimal_len(n);
    lemma_read_padded(decimal(n));
}

proof fn lemma_read_decimal(n: nat)
    ensures
        read_decimal(decimal(n)) == n,
        decimal(n).len() >= 1,
        n > 0 ==> digit_value(decimal(n)[0]) > 0,
        forall|i: int| 0 <= i < decimal(n).len() ==> 0 <= digit_value(#[trigger] decimal(n)[i]) < 10,
    decreases n,
{
    if n < 10 {
        let text = decimal(n);
        assert(text.drop_last() =~= Seq::<char>::empty());
        assert(read_decimal(text.drop_last()) == 0);
    } else {
        lemma_read_decimal(n / 10);
        let head = decimal(n / 10);
        let text = decimal(n);
        assert(text.drop_last() =~= head);
        assert forall|i: int| 0 <= i < text.len() implies 0 <= digit_value(#[trigger] text[i])
            < 10 by {
            if i < head.len() {
                assert(text[i] == head[i]);
            }
        }
    }
}

proof fn lemma_decimal_len(n: nat)
    ensures
        n < 1000 ==> decimal(n).len() <= 3,
        n >= 100 ==> decimal(n).len() >= 3,
{
    reveal_with_fuel(decimal, 4);
    if n >= 10 {
        assert(decimal(n / 10).len() >= 1);
    }
    if n >= 100 {
        assert(decimal(n / 10 / 10).len() >= 1);
    }
}

proof fn lemma_read_padded(text: Seq<char>)
    ensures
        read_decimal(seq!['0'] + text) == read_decimal(text),
        read_decimal(seq!['0', '0'] + text) == read_decimal(text),
    decreases text.len(),
{
    let one = seq!['0'] + text;
    let two = seq!['0', '0'] + text;
    if text.len() == 0 {
        reveal_with_fuel(read_decimal, 3);
        assert(one =~= seq!['0']);
        assert(one.drop_last() =~= Seq::<char>::empty());
        assert(two =~= seq!['0', '0']);
        assert(two.drop_last() =~= seq!['0']);
        assert(seq!['0'].drop_last() =~= Seq::<char>::empty());
    } else {
        lemma_read_padded(text.drop_last());
        assert(one.drop_last() =~= seq!['0'] + text.drop_last());
        assert(two.drop_last() =~= seq!['0', '0'] + text.drop_last());
    }
}

} // verus!

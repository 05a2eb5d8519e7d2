//! The wording of the registry's broadcast.

use vstd::prelude::*;
use vstd::string::StringExecFns;

verus! {

/// The character that stands for the digit `d`.
pub open spec fn digit(d: nat) -> char
    recommends
        d < 10,
{
    if d == 0 {
        '0'
    } else if d == 1 {
        '1'
    } else if d == 2 {
        '2'
    } else if d == 3 {
        '3'
    } else if d == 4 {
        '4'
    } else if d == 5 {
        '5'
    } else if d == 6 {
        '6'
    } else if d == 7 {
        '7'
    } else if d == 8 {
        '8'
    } else {
        '9'
    }
}

/// `n` written in decimal, without leading zeros.
pub open spec fn decimal(n: nat) -> Seq<char>
    decreases n,
{
    if n < 10 {
        seq![digit(n)]
    } else {
        decimal(n / 10).push(digit(n % 10))
    }
}

/// The message that tells a session that `count` sessions are connected:
/// the count in decimal, a space, and the word `active`.
pub open spec fn active_text(count: nat) -> Seq<char> {
    decimal(count) + " active"@
}

/// The number that the decimal digits `digits` stand for.
pub open spec fn value(digits: Seq<char>) -> nat
    decreases digits.len(),
{
    if digits.len() == 0 {
        0
    } else {
        let last = digits.last();
        let low: nat = if last == '1' {
            1
        } else if last == '2' {
            2
        } else if last == '3' {
            3
        } else if last == '4' {
            4
        } else if last == '5' {
            5
        } else if last == '6' {
            6
        } else if last == '7' {
            7
        } else if last == '8' {
            8
        } else if last == '9' {
            9
        } else {
            0
        };
        value(digits.drop_last()) * 10 + low
    }
}

/// Reading back what `decimal` wrote gives the number that was written.
pub proof fn lemma_decimal_reads_back(n: nat)
    ensures
        value(decimal(n)) == n,
    decreases n,
{
    if n < 10 {
        assert(decimal(n).drop_last() =~= Seq::<char>::empty());
        assert(value(Seq::<char>::empty()) == 0);
    } else {
        lemma_decimal_reads_back(n / 10);
        assert(decimal(n).drop_last() =~= decimal(n / 10));
    }
}

/// The message tells the count: two counts with the same message are the
/// same count.
pub proof fn law_message_tells_the_count(a: nat, b: nat)
    requires
        active_text(a) == active_text(b),
    ensures
        a == b,
{
    assert(decimal(a) =~= active_text(a).subrange(0, decimal(a).len() as int));
    assert(decimal(b) =~= active_text(b).subrange(0, decimal(b).len() as int));
    lemma_decimal_reads_back(a);
    lemma_decimal_reads_back(b);
}

/// The digits of `n` that stand before its last one.
spec fn leading(n: nat) -> Seq<char> {
    if n < 10 {
        Seq::empty()
    } else {
        decimal(n / 10)
    }
}

/// A number's decimal digits are its leading digits and then its last one.
proof fn lemma_decimal_unfold(n: nat)
    ensures
        decimal(n) == leading(n).push(digit(n % 10)),
{
}

/// The one-character string for the digit `d`.
fn digit_str(d: u8) -> (s: &'static str)
    requires
        d < 10,
    ensures
        s@ == seq![digit(d as nat)],
{
    proof {
        reveal_strlit("0");
        reveal_strlit("1");
        reveal_strlit("2");
        reveal_strlit("3");
        reveal_strlit("4");
        reveal_strlit("5");
        reveal_strlit("6");
        reveal_strlit("7");
        reveal_strlit("8");
        reveal_strlit("9");
    }
    let s: &'static str = match d {
        0 => "0",
        1 => "1",
        2 => "2",
        3 => "3",
        4 => "4",
        5 => "5",
        6 => "6",
        7 => "7",
        8 => "8",
        _ => "9",
    };
    s
}

/// Writes the broadcast message for `count` connected sessions.
pub fn active_message(count: usize) -> (msg: String)
    ensures
        msg@ == active_text(count as nat),
{
    // The digits of `count`, the last one first.
    let mut digits: Vec<u8> = Vec::new();
    let mut rest: usize = count;
    let ghost mut tail: Seq<char> = Seq::empty();
    proof {
        lemma_decimal_unfold(rest as nat);
    }
    digits.push((rest % 10) as u8);
    proof {
        tail = seq![digit((rest % 10) as nat)];
    }
    rest = rest / 10;
    while rest > 0
        invariant
            digits.len() >= 1,
            tail.len() == digits.len(),
            forall|i: int| 0 <= i < digits.len() ==> digits[i] < 10,
            forall|i: int|
                0 <= i < digits.len() ==> tail[i] == digit(digits[digits.len() - 1 - i] as nat),
            decimal(count as nat) == (if rest > 0 {
                decimal(rest as nat)
            } else {
                Seq::<char>::empty()
            }) + tail,
        decreases rest,
    {
        proof {
            lemma_decimal_unfold(rest as nat);
            let low = digit((rest % 10) as nat);
            tail = seq![low] + tail;
        }
        digits.push((rest % 10) as u8);
        rest = rest / 10;
    }
    let mut msg: String = String::new();
    let mut left: usize = digits.len();
    while left > 0
        invariant
            left <= digits.len(),
            tail.len() == digits.len(),
            forall|i: int| 0 <= i < digits.len() ==> digits[i] < 10,
            forall|i: int|
                0 <= i < digits.len() ==> tail[i] == digit(digits[digits.len() - 1 - i] as nat),
            msg@ == tail.subrange(0, digits.len() - left),
        decreases left,
    {
        left = left - 1;
        msg.append(digit_str(digits[left]));
    }
    msg.append(" active");
    msg
}

} // verus!

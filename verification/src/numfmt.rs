use vstd::prelude::*;
use vstd::string::*;

verus! {

/// The decimal digit character of a value below ten.
pub open spec fn digit_char(d: int) -> char {
    if d == 0 {
        '0'
    } else if d == 1 {
        '1'
    } else if d == 2 {
        '2'
    } else if d == 3 {
        '3'
    } else if d == 4 {
        '4'
    } else if d == 5 {
        '5'
    } else if d == 6 {
        '6'
    } else if d == 7 {
        '7'
    } else if d == 8 {
        '8'
    } else {
        '9'
    }
}

/// Whether a character is a decimal digit.
pub open spec fn is_digit(c: char) -> bool {
    48 <= c as u32 <= 57
}

/// The value of a decimal digit character.
pub open spec fn digit_val(c: char) -> int {
    c as u32 - 48
}

/// The decimal notation of a natural number: no sign, no leading zero except
/// for zero itself.
pub open spec fn dec_nat(n: nat) -> Seq<char>
    decreases n,
{
    if n < 10 {
        seq![digit_char(n as int)]
    } else {
        dec_nat(n / 10).push(digit_char((n % 10) as int))
    }
}

/// The decimal notation of an integer: a minus sign before the magnitude for
/// a negative value.
pub open spec fn dec_int(n: int) -> Seq<char> {
    if n < 0 {
        seq!['-'] + dec_nat((-n) as nat)
    } else {
        dec_nat(n as nat)
    }
}

/// The number a sequence of digit characters denotes.
pub open spec fn seq_val(s: Seq<char>) -> int
    decreases s.len(),
{
    if s.len() == 0 {
        0
    } else {
        seq_val(s.drop_last()) * 10 + digit_val(s.last())
    }
}

/// Whether every character of a sequence is a decimal digit.
pub open spec fn all_digits(s: Seq<char>) -> bool {
    forall|i: int| 0 <= i < s.len() ==> is_digit(#[trigger] s[i])
}

/// Decimal notation consists of digits, is never empty, and denotes the
/// number it was made from.
pub proof fn lemma_dec_nat(n: nat)
    ensures
        dec_nat(n).len() >= 1,
        all_digits(dec_nat(n)),
        seq_val(dec_nat(n)) == n,
    decreases n,
{
    if n < 10 {
        assert(dec_nat(n) =~= seq![digit_char(n as int)]);
        assert(dec_nat(n).drop_last() =~= Seq::<char>::empty());
        assert(dec_nat(n).last() == digit_char(n as int));
        assert(digit_val(digit_char(n as int)) == n);
        assert(seq_val(dec_nat(n)) == seq_val(Seq::<char>::empty()) * 10 + digit_val(
            digit_char(n as int),
        ));
    } else {
        lemma_dec_nat(n / 10);
        let pre = dec_nat(n / 10);
        let c = digit_char((n % 10) as int);
        assert(dec_nat(n) == pre.push(c));
        assert(dec_nat(n).drop_last() =~= pre);
        assert(dec_nat(n).last() == c);
        assert(digit_val(c) == n % 10);
        assert(forall|i: int| 0 <= i < dec_nat(n).len()
            ==> is_digit(#[trigger] dec_nat(n)[i])) by {
            assert(forall|i: int| 0 <= i < pre.len() ==> is_digit(#[trigger] pre[i]));
            assert(dec_nat(n)[dec_nat(n).len() - 1] == c);
            assert(forall|i: int| 0 <= i < dec_nat(n).len() - 1
                ==> #[trigger] dec_nat(n)[i] == pre[i]);
        }
    }
}

/// A digit sequence denotes no more than any extension of it denotes.
pub proof fn lemma_seq_val_extend(s: Seq<char>, i: int, j: int, k: int)
    requires
        0 <= i <= j <= k <= s.len(),
        forall|m: int| i <= m < k ==> is_digit(#[trigger] s[m]),
    ensures
        seq_val(s.subrange(i, j)) <= seq_val(s.subrange(i, k)),
        seq_val(s.subrange(i, j)) >= 0,
        seq_val(s.subrange(i, k)) >= 0,
    decreases k - j,
{
    if j == k {
        lemma_seq_val_nonneg(s.subrange(i, j));
    } else {
        lemma_seq_val_extend(s, i, j, k - 1);
        let shorter = s.subrange(i, k - 1);
        let longer = s.subrange(i, k);
        assert(longer.drop_last() =~= shorter);
        assert(is_digit(longer.last()));
        assert(digit_val(longer.last()) >= 0);
        assert(seq_val(longer) == seq_val(shorter) * 10 + digit_val(longer.last()));
        assert(seq_val(shorter) * 10 >= seq_val(shorter)) by (nonlinear_arith)
            requires
                seq_val(shorter) >= 0,
        ;
    }
}

/// A digit sequence denotes a non-negative number.
pub proof fn lemma_seq_val_nonneg(s: Seq<char>)
    requires
        forall|m: int| 0 <= m < s.len() ==> is_digit(#[trigger] s[m]),
    ensures
        seq_val(s) >= 0,
    decreases s.len(),
{
    if s.len() > 0 {
        lemma_seq_val_nonneg(s.drop_last());
        assert(is_digit(s.last()));
        assert(seq_val(s.drop_last()) * 10 >= 0) by (nonlinear_arith)
            requires
                seq_val(s.drop_last()) >= 0,
        ;
    }
}

/// The one-character string of a digit value.
pub fn digit_string(d: u64) -> (r: String)
    requires
        d < 10,
    ensures
        r@ == seq![digit_char(d as int)],
{
    let r = if d == 0 {
        proof {
            reveal_strlit("0");
        }
        String::from_str("0")
    } else if d == 1 {
        proof {
            reveal_strlit("1");
        }
        String::from_str("1")
    } else if d == 2 {
        proof {
            reveal_strlit("2");
        }
        String::from_str("2")
    } else if d == 3 {
        proof {
            reveal_strlit("3");
        }
        String::from_str("3")
    } else if d == 4 {
        proof {
            reveal_strlit("4");
        }
        String::from_str("4")
    } else if d == 5 {
        proof {
            reveal_strlit("5");
        }
        String::from_str("5")
    } else if d == 6 {
        proof {
            reveal_strlit("6");
        }
        String::from_str("6")
    } else if d == 7 {
        proof {
            reveal_strlit("7");
        }
        String::from_str("7")
    } else if d == 8 {
        proof {
            reveal_strlit("8");
        }
        String::from_str("8")
    } else {
        proof {
            reveal_strlit("9");
        }
        String::from_str("9")
    };
    proof {
        assert(r@ =~= seq![digit_char(d as int)]);
    }
    r
}

/// The decimal notation of a natural number, as a string.
pub fn u64_to_string(n: u64) -> (r: String)
    ensures
        r@ == dec_nat(n as nat),
    decreases n,
{
    if n < 10 {
        digit_string(n)
    } else {
        let pre = u64_to_string(n / 10);
        let last = digit_string(n % 10);
        let r = pre.concat(last.as_str());
        proof {
            assert(r@ =~= dec_nat((n / 10) as nat).push(digit_char((n % 10) as int)));
        }
        r
    }
}

/// The decimal notation of an integer, as a string.
pub fn i64_to_string(n: i64) -> (r: String)
    ensures
        r@ == dec_int(n as int),
{
    if n < 0 {
        let mag = (-(n as i128)) as u64;
        let digits = u64_to_string(mag);
        proof {
            reveal_strlit("-");
        }
        let r = String::from_str("-").concat(digits.as_str());
        proof {
            assert("-"@ =~= seq!['-']);
        }
        r
    } else {
        u64_to_string(n as u64)
    }
}

} // verus!

//! Rendering of integers and integer lists as text.

use vstd::prelude::*;

verus! {

/// The character of one decimal digit.
pub open spec fn digit_char(d: nat) -> char {
    ('0' as nat + d) as char
}

/// The decimal digits of `n`, most significant first, without leading
/// zeros.
pub open spec fn nat_text(n: nat) -> Seq<char>
    decreases n,
{
    if n < 10 {
        seq![digit_char(n)]
    } else {
        nat_text(n / 10).push(digit_char(n % 10))
    }
}

/// `n` in decimal, with a leading minus sign where it is negative.
pub open spec fn int_text(n: int) -> Seq<char> {
    if n < 0 {
        "-"@ + nat_text((-n) as nat)
    } else {
        nat_text(n as nat)
    }
}

/// The numbers of `s` in decimal, separated by a comma and a space.
pub open spec fn joined_text(s: Seq<int>) -> Seq<char>
    decreases s.len(),
{
    if s.len() == 0 {
        Seq::empty()
    } else if s.len() == 1 {
        int_text(s[0])
    } else {
        joined_text(s.drop_last()) + ", "@ + int_text(s.last())
    }
}

/// The numbers of `s` as a bracketed list.
pub open spec fn list_text(s: Seq<int>) -> Seq<char> {
    "["@ + joined_text(s) + "]"@
}

/// The debug rendering of a string: quoted, with its special characters
/// escaped.
pub uninterp spec fn debug_text(s: Seq<char>) -> Seq<char>;

/// The debug rendering of a string, as `std`'s `Debug` of `str` writes it.
///
/// The contract claims only that equal strings are rendered equally.
#[verifier::external_body]
pub(crate) fn quoted(s: &str) -> (r: String)
    ensures
        r@ == debug_text(s@),
{
    format!("{s:?}")
}

/// Do two texts hold the same characters?
pub fn same_text(a: &str, b: &str) -> (r: bool)
    ensures
        r == (a@ == b@),
{
    a.to_owned() == b.to_owned()
}

/// The text of a single digit.
fn digit(d: u64) -> (s: &'static str)
    requires
        d < 10,
    ensures
        s@ == seq![digit_char(d as nat)],
{
    proof {
        reveal_strlit("0");
        reveal_strlit("1");
        reveal_strlit("2");
        reveal_strlit("3");
        reveal_strlit("4");
        reveal_strlit("5");
        reveal_strlit("6");
        reveal_strlit("7");
        reveal_strlit("8");
        reveal_strlit("9");
    }
    let s = if d == 0 {
        "0"
    } else if d == 1 {
        "1"
    } else if d == 2 {
        "2"
    } else if d == 3 {
        "3"
    } else if d == 4 {
        "4"
    } else if d == 5 {
        "5"
    } else if d == 6 {
        "6"
    } else if d == 7 {
        "7"
    } else if d == 8 {
        "8"
    } else {
        "9"
    };
    assert(s@ =~= seq![digit_char(d as nat)]);
    s
}

/// `n` in decimal.
pub fn u64_text(n: u64) -> (s: String)
    ensures
        s@ == nat_text(n as nat),
    decreases n,
{
    if n < 10 {
        String::from_str(digit(n))
    } else {
        let mut s = u64_text(n / 10);
        s.append(digit(n % 10));
        proof {
            assert(s@ =~= nat_text((n / 10) as nat).push(digit_char((n % 10) as nat)));
        }
        s
    }
}

/// `n` in decimal.
pub fn usize_text(n: usize) -> (s: String)
    ensures
        s@ == nat_text(n as nat),
{
    u64_text(n as u64)
}

/// `n` in decimal, with a leading minus sign where it is negative.
pub fn i64_text(n: i64) -> (s: String)
    ensures
        s@ == int_text(n as int),
{
    if n >= 0 {
        u64_text(n as u64)
    } else {
        let magnitude: u64 = if n == i64::MIN {
            0x8000_0000_0000_0000
        } else {
            (-n) as u64
        };
        let mut s = String::from_str("-");
        s.append(u64_text(magnitude).as_str());
        s
    }
}

/// `items` as a bracketed, comma-separated list.
pub fn i64_list_text(items: &Vec<i64>) -> (s: String)
    ensures
        s@ == list_text(items@.map_values(|n: i64| n as int)),
{
    let ghost whole = items@.map_values(|n: i64| n as int);
    let mut s = String::from_str("[");
    let ghost open = s@;
    let mut i: usize = 0;
    while i < items.len()
        invariant
            i <= items.len(),
            whole == items@.map_values(|n: i64| n as int),
            open == "["@,
            s@ == open + joined_text(whole.take(i as int)),
        decreases items.len() - i,
    {
        let ghost before = whole.take(i as int);
        let ghost after = whole.take(i + 1);
        if i > 0 {
            s.append(", ");
        }
        s.append(i64_text(items[i]).as_str());
        proof {
            assert(after.drop_last() =~= before);
            assert(after.last() == items[i as int]);
            if i > 0 {
                assert(s@ =~= open + joined_text(after));
            } else {
                assert(before =~= Seq::<int>::empty());
                assert(s@ =~= open + joined_text(after));
            }
        }
        i += 1;
    }
    assert(whole.take(i as int) =~= whole);
    s.append("]");
    s
}

/// A number in decimal is one of ten digits, or the text of its tenth followed
/// by its last digit.
pub proof fn law_digits_follow_one_another(n: nat, d: nat)
    requires
        d < 10,
    ensures
        nat_text(d).len() == 1,
        nat_text(d)[0] as int == '0' as int + d,
        n > 0 ==> nat_text(10 * n + d).len() == nat_text(n).len() + 1,
        n > 0 ==> nat_text(10 * n + d).last() as int == '0' as int + d,
        n > 0 ==> nat_text(10 * n + d).drop_last() == nat_text(n),
{
    if n > 0 {
        assert((10 * n + d) / 10 == n);
        assert((10 * n + d) % 10 == d);
        assert(nat_text(10 * n + d).drop_last() =~= nat_text(n));
    }
}

/// A number below zero is its opposite after a minus sign, and any other is
/// written without one.
pub proof fn law_minus_sign_marks_negatives(n: nat)
    ensures
        int_text(n as int) == nat_text(n),
        n > 0 ==> int_text(-n) == seq!['-'] + nat_text(n),
{
    reveal_strlit("-");
    assert("-"@ =~= seq!['-']);
}

/// A list is written in brackets, its numbers in order with a comma and a
/// space between two.
pub proof fn law_lists_are_written_in_order(s: Seq<int>, n: int)
    ensures
        list_text(Seq::empty()) == seq!['[', ']'],
        list_text(seq![n]) == seq!['['] + int_text(n) + seq![']'],
        s.len() > 0 ==> joined_text(s.push(n)) == joined_text(s) + seq![',', ' '] + int_text(n),
        list_text(s).len() == joined_text(s).len() + 2,
        list_text(s)[0] == '[',
        list_text(s).last() == ']',
{
    reveal_strlit("[");
    reveal_strlit("]");
    reveal_strlit(", ");
    assert("["@ =~= seq!['[']);
    assert("]"@ =~= seq![']']);
    assert(", "@ =~= seq![',', ' ']);
    assert(list_text(Seq::<int>::empty()) =~= seq!['[', ']']);
    assert(s.push(n).drop_last() =~= s);
}

} // verus!

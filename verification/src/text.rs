//! Decimal rendering of integers and small string helpers.

use vstd::prelude::*;
use vstd::string::*;

verus! {

/// The ASCII digit for `d` (for `d < 10`).
pub open spec fn digit_char(d: nat) -> char {
    if d == 0 {
        '0'
    } else if d == 1 {
        '1'
    } else if d == 2 {
        '2'
    } else if d == 3 {
        '3'
    } else if d == 4 {
        '4'
    } else if d == 5 {
        '5'
    } else if d == 6 {
        '6'
    } else if d == 7 {
        '7'
    } else if d == 8 {
        '8'
    } else {
        '9'
    }
}

/// The decimal notation of a natural number, without leading zeros.
pub open spec fn decimal(n: nat) -> Seq<char>
    decreases n,
{
    if n < 10 {
        seq![digit_char(n)]
    } else {
        decimal(n / 10).push(digit_char(n % 10))
    }
}

/// The decimal notation of a number has at least one digit, and its last
/// digit is the number's last decimal digit.
pub proof fn lemma_decimal_shape(n: nat)
    ensures
        decimal(n).len() >= 1,
        decimal(n).last() == digit_char(n % 10),
        n < 10 <==> decimal(n).len() == 1,
    decreases n,
{
    if n >= 10 {
        lemma_decimal_shape(n / 10);
    }
}

/// Two numbers with the same decimal notation are equal.
pub proof fn lemma_decimal_injective(a: nat, b: nat)
    requires
        decimal(a) == decimal(b),
    ensures
        a == b,
    decreases a,
{
    lemma_decimal_shape(a);
    lemma_decimal_shape(b);
    assert(a % 10 == b % 10);
    if a >= 10 {
        assert(decimal(a).drop_last() =~= decimal(a / 10));
        assert(decimal(b).drop_last() =~= decimal(b / 10));
        lemma_decimal_injective(a / 10, b / 10);
    }
}

/// The decimal notation of an integer, with a leading `-` when negative.
pub open spec fn signed_decimal(i: int) -> Seq<char> {
    if i < 0 {
        seq!['-'] + decimal((-i) as nat)
    } else {
        decimal(i as nat)
    }
}

fn digit_str(d: u64) -> (s: &'static str)
    requires
        d < 10,
    ensures
        s@ == seq![digit_char(d as nat)],
{
    if d == 0 {
        proof { reveal_strlit("0"); }
        "0"
    } else if d == 1 {
        proof { reveal_strlit("1"); }
        "1"
    } else if d == 2 {
        proof { reveal_strlit("2"); }
        "2"
    } else if d == 3 {
        proof { reveal_strlit("3"); }
        "3"
    } else if d == 4 {
        proof { reveal_strlit("4"); }
        "4"
    } else if d == 5 {
        proof { reveal_strlit("5"); }
        "5"
    } else if d == 6 {
        proof { reveal_strlit("6"); }
        "6"
    } else if d == 7 {
        proof { reveal_strlit("7"); }
        "7"
    } else if d == 8 {
        proof { reveal_strlit("8"); }
        "8"
    } else {
        proof { reveal_strlit("9"); }
        "9"
    }
}

/// Appends the decimal notation of `n` to `s`.
pub fn push_decimal(s: &mut String, n: u64)
    ensures
        final(s)@ == old(s)@ + decimal(n as nat),
    decreases n,
{
    if n >= 10 {
        push_decimal(s, n / 10);
    }
    s.append(digit_str(n % 10));
    assert(s@ =~= old(s)@ + decimal(n as nat));
}

/// Appends the decimal notation of `i` to `s`, with a leading `-` when `i` is negative.
pub fn push_signed_decimal(s: &mut String, i: i32)
    ensures
        final(s)@ == old(s)@ + signed_decimal(i as int),
{
    if i < 0 {
        proof { reveal_strlit("-"); }
        s.append("-");
        let magnitude: i64 = -(i as i64);
        push_decimal(s, magnitude as u64);
        assert(s@ =~= old(s)@ + signed_decimal(i as int));
    } else {
        push_decimal(s, i as u64);
    }
}

/// The decimal notation of `n`.
pub fn decimal_string(n: u64) -> (s: String)
    ensures
        s@ == decimal(n as nat),
{
    let mut s = String::new();
    push_decimal(&mut s, n);
    assert(s@ =~= decimal(n as nat));
    s
}

/// `prefix` followed by the decimal notation of `n`.
pub fn prefixed_decimal(prefix: &str, n: u64) -> (s: String)
    ensures
        s@ == prefix@ + decimal(n as nat),
{
    let mut s = String::from_str(prefix);
    push_decimal(&mut s, n);
    s
}

/// `prefix` followed by `text`.
pub fn prefixed(prefix: &str, text: &str) -> (s: String)
    ensures
        s@ == prefix@ + text@,
{
    let mut s = String::from_str(prefix);
    s.append(text);
    s
}

/// The views of a list of strings.
pub open spec fn views(v: Seq<String>) -> Seq<Seq<char>> {
    v.map_values(|s: String| s@)
}

/// Appends `s` to the list `v`.
pub fn push_string(v: &mut Vec<String>, s: String)
    ensures
        views(final(v)@) == views(old(v)@).push(s@),
{
    v.push(s);
    assert(views(v@) =~= views(old(v)@).push(s@));
}

/// The two parts of `s` around the first occurrence of `c`, or `None` when
/// `c` does not occur in `s`.
pub open spec fn split_once_spec(s: Seq<char>, c: char) -> Option<(Seq<char>, Seq<char>)> {
    match s.index_of_first(c) {
        Some(i) => Some((s.take(i), s.skip(i + 1))),
        None => None,
    }
}

/// Splits `s` at the first occurrence of `c`, leaving `c` out.
pub fn split_once_char(s: &str, c: char) -> (r: Option<(String, String)>)
    ensures
        match split_once_spec(s@, c) {
            Some((a, b)) => r matches Some((x, y)) && x@ == a && y@ == b,
            None => r is None,
        },
{
    let n = s.unicode_len();
    let mut i: usize = 0;
    while i < n
        invariant
            n == s@.len(),
            i <= n,
            forall|j: int| 0 <= j < i ==> s@[j] != c,
        decreases n - i,
    {
        if s.get_char(i) == c {
            proof {
                s@.index_of_first_ensures(c);
                assert(s@.contains(c));
            }
            let before = String::from_str(s.substring_char(0, i));
            let after = String::from_str(s.substring_char(i + 1, n));
            assert(before@ =~= s@.take(i as int));
            assert(after@ =~= s@.skip(i + 1));
            return Some((before, after));
        }
        i = i + 1;
    }
    proof {
        s@.index_of_first_ensures(c);
    }
    None
}

/// The strings of `list` joined by `sep`.
pub open spec fn join_seq(list: Seq<Seq<char>>, sep: Seq<char>) -> Seq<char>
    decreases list.len(),
{
    if list.len() == 0 {
        Seq::empty()
    } else if list.len() == 1 {
        list[0]
    } else {
        join_seq(list.drop_last(), sep) + sep + list.last()
    }
}

/// Appends the strings of `list`, joined by `sep`, to `s`.
pub fn push_joined(s: &mut String, list: &Vec<String>, sep: &str)
    ensures
        final(s)@ == old(s)@ + join_seq(views(list@), sep@),
{
    let ghost start = s@;
    let ghost items = views(list@);
    let n = list.len();
    let mut i: usize = 0;
    while i < n
        invariant
            n == list@.len(),
            items == views(list@),
            i <= n,
            s@ == start + join_seq(items.take(i as int), sep@),
        decreases n - i,
    {
        assert(items.take(i + 1).drop_last() =~= items.take(i as int));
        if i > 0 {
            s.append(sep);
        }
        s.append(list[i].as_str());
        proof {
            if i == 0 {
                assert(items.take(1) =~= seq![items[0]]);
            }
        }
        assert(s@ =~= start + join_seq(items.take(i + 1), sep@));
        i = i + 1;
    }
    assert(items.take(n as int) =~= items);
}

}

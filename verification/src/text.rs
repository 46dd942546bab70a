//! Text helpers shared by the declaration compiler and the default messages.

use vstd::prelude::*;

verus! {

/// The items of `items`, in order, with `sep` between each two neighbours.
pub open spec fn join(items: Seq<Seq<char>>, sep: Seq<char>) -> Seq<char>
    decreases items.len(),
{
    if items.len() == 0 {
        Seq::empty()
    } else if items.len() == 1 {
        items[0]
    } else {
        join(items.drop_last(), sep) + sep + items.last()
    }
}

/// The views of a vector of strings.
pub open spec fn views(items: Seq<String>) -> Seq<Seq<char>> {
    Seq::new(items.len(), |i: int| items[i]@)
}

/// The character that writes the digit `d`.
pub open spec fn digit_char(d: nat) -> char {
    if d == 0 {
        '0'
    } else if d == 1 {
        '1'
    } else if d == 2 {
        '2'
    } else if d == 3 {
        '3'
    } else if d == 4 {
        '4'
    } else if d == 5 {
        '5'
    } else if d == 6 {
        '6'
    } else if d == 7 {
        '7'
    } else if d == 8 {
        '8'
    } else {
        '9'
    }
}

/// The decimal digits of `n`, most significant first, without leading zeros.
pub open spec fn decimal(n: nat) -> Seq<char>
    decreases n,
{
    if n < 10 {
        seq![digit_char(n)]
    } else {
        decimal(n / 10).push(digit_char(n % 10))
    }
}

/// The decimal writing of an integer: a minus sign before the digits of a negative one.
pub open spec fn signed_decimal(i: int) -> Seq<char> {
    if i < 0 {
        seq!['-'] + decimal((-i) as nat)
    } else {
        decimal(i as nat)
    }
}

/// `s` without every leading repetition of two underscores.
pub open spec fn trim_underscore_pairs(s: Seq<char>) -> Seq<char>
    decreases s.len(),
{
    if s.len() >= 2 && s[0] == '_' && s[1] == '_' {
        trim_underscore_pairs(s.skip(2))
    } else {
        s
    }
}

/// Whether two strings hold the same characters.
pub fn str_eq(a: &str, b: &str) -> (same: bool)
    ensures
        same == (a@ == b@),
{
    let left = String::from_str(a);
    let right = String::from_str(b);
    left == right
}

/// Joins `items` with `sep` between each two neighbours.
pub fn join_strings(items: &Vec<String>, sep: &str) -> (joined: String)
    ensures
        joined@ == join(views(items@), sep@),
{
    let mut joined = String::new();
    let mut i: usize = 0;
    while i < items.len()
        invariant
            i <= items.len(),
            joined@ == join(views(items@).take(i as int), sep@),
        decreases items.len() - i,
    {
        proof {
            let all = views(items@);
            let next = all.take(i + 1);
            assert(next.drop_last() =~= all.take(i as int));
            assert(next.last() == items@[i as int]@);
            if i == 0 {
                assert(join(next, sep@) =~= items@[0]@);
            }
        }
        if i > 0 {
            joined.append(sep);
        }
        joined.append(items[i].as_str());
        i = i + 1;
    }
    proof {
        assert(views(items@).take(items.len() as int) =~= views(items@));
    }
    joined
}

fn digit_str(d: u8) -> (s: &'static str)
    requires
        d < 10,
    ensures
        s@ == seq![digit_char(d as nat)],
{
    proof {
        reveal_strlit("0");
        reveal_strlit("1");
        reveal_strlit("2");
        reveal_strlit("3");
        reveal_strlit("4");
        reveal_strlit("5");
        reveal_strlit("6");
        reveal_strlit("7");
        reveal_strlit("8");
        reveal_strlit("9");
    }
    let s = if d == 0 {
        "0"
    } else if d == 1 {
        "1"
    } else if d == 2 {
        "2"
    } else if d == 3 {
        "3"
    } else if d == 4 {
        "4"
    } else if d == 5 {
        "5"
    } else if d == 6 {
        "6"
    } else if d == 7 {
        "7"
    } else if d == 8 {
        "8"
    } else {
        "9"
    };
    assert(s@ =~= seq![digit_char(d as nat)]);
    s
}

/// Writes `n` in decimal.
pub fn u128_to_string(n: u128) -> (s: String)
    ensures
        s@ == decimal(n as nat),
    decreases n,
{
    if n < 10 {
        String::from_str(digit_str(n as u8))
    } else {
        let mut s = u128_to_string(n / 10);
        s.append(digit_str((n % 10) as u8));
        assert(s@ =~= decimal(n as nat));
        s
    }
}

/// Writes `n` in decimal.
pub fn usize_to_string(n: usize) -> (s: String)
    ensures
        s@ == decimal(n as nat),
{
    u128_to_string(n as u128)
}

/// Writes `i` in decimal, with a minus sign if it is negative.
pub fn i128_to_string(i: i128) -> (s: String)
    ensures
        s@ == signed_decimal(i as int),
{
    if i < 0 {
        let magnitude: u128 = (-(i + 1)) as u128 + 1;
        let digits = u128_to_string(magnitude);
        let mut s = String::from_str("-");
        proof {
            reveal_strlit("-");
        }
        s.append(digits.as_str());
        assert(s@ =~= signed_decimal(i as int));
        s
    } else {
        u128_to_string(i as u128)
    }
}

/// Removes every leading repetition of two underscores.
pub fn trim_start_underscore_pairs(s: &str) -> (trimmed: &str)
    ensures
        trimmed@ == trim_underscore_pairs(s@),
{
    let len = s.unicode_len();
    let mut start: usize = 0;
    proof {
        assert(s@.skip(0) =~= s@);
    }
    while len - start >= 2 && s.get_char(start) == '_' && s.get_char(start + 1) == '_'
        invariant
            start <= len,
            len == s@.len(),
            trim_underscore_pairs(s@) == trim_underscore_pairs(s@.skip(start as int)),
        decreases len - start,
    {
        proof {
            let rest = s@.skip(start as int);
            assert(rest[0] == s@[start as int]);
            assert(rest[1] == s@[start + 1]);
            assert(rest.skip(2) =~= s@.skip(start + 2));
        }
        start = start + 2;
    }
    proof {
        let rest = s@.skip(start as int);
        if rest.len() >= 2 {
            assert(rest[0] == s@[start as int]);
            assert(rest[1] == s@[start + 1]);
        }
        assert(rest =~= s@.subrange(start as int, len as int));
    }
    s.substring_char(start, len)
}

} // verus!

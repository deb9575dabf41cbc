//! Small text builders: decimal numbers, comma-separated lists, concatenation.

use vstd::prelude::*;

verus! {

/// The character of a decimal digit.
pub open spec fn digit_char(d: nat) -> char {
    if d == 0 {
        '0'
    } else if d == 1 {
        '1'
    } else if d == 2 {
        '2'
    } else if d == 3 {
        '3'
    } else if d == 4 {
        '4'
    } else if d == 5 {
        '5'
    } else if d == 6 {
        '6'
    } else if d == 7 {
        '7'
    } else if d == 8 {
        '8'
    } else {
        '9'
    }
}

/// The decimal notation of `n`, most significant digit first, without
/// leading zeros.
pub open spec fn decimal(n: nat) -> Seq<char>
    decreases n,
{
    if n < 10 {
        seq![digit_char(n)]
    } else {
        decimal(n / 10).push(digit_char(n % 10))
    }
}

/// The list `", "`-separated, each item in decimal.
pub open spec fn comma_list(items: Seq<u16>) -> Seq<char>
    decreases items.len(),
{
    if items.len() == 0 {
        Seq::empty()
    } else if items.len() == 1 {
        decimal(items[0] as nat)
    } else {
        comma_list(items.drop_last()) + seq![',', ' '] + decimal(items.last() as nat)
    }
}

/// The text of one decimal digit.
fn digit(d: u64) -> (r: &'static str)
    requires
        d < 10,
    ensures
        r@ == seq![digit_char(d as nat)],
{
    proof {
        reveal_strlit("0");
        reveal_strlit("1");
        reveal_strlit("2");
        reveal_strlit("3");
        reveal_strlit("4");
        reveal_strlit("5");
        reveal_strlit("6");
        reveal_strlit("7");
        reveal_strlit("8");
        reveal_strlit("9");
    }
    if d == 0 {
        "0"
    } else if d == 1 {
        "1"
    } else if d == 2 {
        "2"
    } else if d == 3 {
        "3"
    } else if d == 4 {
        "4"
    } else if d == 5 {
        "5"
    } else if d == 6 {
        "6"
    } else if d == 7 {
        "7"
    } else if d == 8 {
        "8"
    } else {
        "9"
    }
}

/// Writes `n` in decimal.
pub fn decimal_string(n: u64) -> (r: String)
    ensures
        r@ == decimal(n as nat),
    decreases n,
{
    if n < 10 {
        String::from_str(digit(n))
    } else {
        let mut s = decimal_string(n / 10);
        s.append(digit(n % 10));
        s
    }
}

/// Writes the items in decimal, separated by `", "`.
pub fn comma_list_string(items: &[u16]) -> (r: String)
    ensures
        r@ == comma_list(items@),
{
    let mut out = String::new();
    let mut i: usize = 0;
    while i < items.len()
        invariant
            i <= items@.len(),
            out@ == comma_list(items@.take(i as int)),
        decreases items@.len() - i,
    {
        let d = decimal_string(items[i] as u64);
        if i > 0 {
            out.append(", ");
        }
        out.append(d.as_str());
        proof {
            reveal_strlit(", ");
            let next = items@.take(i + 1);
            assert(next.drop_last() =~= items@.take(i as int));
            assert(next.last() == items@[i as int]);
            assert(out@ =~= comma_list(next));
        }
        i = i + 1;
    }
    assert(items@.take(items@.len() as int) =~= items@);
    out
}

/// Joins two pieces of text.
pub fn join_text(a: &str, b: &str) -> (r: String)
    ensures
        r@ == a@ + b@,
{
    let mut s = String::from_str(a);
    s.append(b);
    s
}

/// The position of the first `c` in `s`, or -1.
pub open spec fn first_index(s: Seq<char>, c: char) -> int
    decreases s.len(),
{
    if s.len() == 0 {
        -1
    } else {
        let f = first_index(s.drop_last(), c);
        if f >= 0 {
            f
        } else if s.last() == c {
            s.len() - 1
        } else {
            -1
        }
    }
}

/// The position of the last `c` in `s`, or -1.
pub open spec fn last_index(s: Seq<char>, c: char) -> int
    decreases s.len(),
{
    if s.len() == 0 {
        -1
    } else if s.last() == c {
        s.len() - 1
    } else {
        last_index(s.drop_last(), c)
    }
}

/// Finds the first `c` in `s`.
pub fn find_first(s: &str, c: char) -> (r: Option<usize>)
    ensures
        r matches Some(i) ==> i < s@.len() && i == first_index(s@, c),
        r is None ==> first_index(s@, c) == -1,
{
    let n = s.unicode_len();
    let mut found: Option<usize> = None;
    let mut j: usize = 0;
    while j < n
        invariant
            n == s@.len(),
            j <= n,
            found matches Some(i) ==> i < j && i == first_index(s@.take(j as int), c),
            found is None ==> first_index(s@.take(j as int), c) == -1,
        decreases n - j,
    {
        proof {
            assert(s@.take(j + 1).drop_last() =~= s@.take(j as int));
        }
        if found.is_none() && s.get_char(j) == c {
            found = Some(j);
        }
        j = j + 1;
    }
    assert(s@.take(n as int) =~= s@);
    found
}

/// Finds the last `c` in `s`.
pub fn find_last(s: &str, c: char) -> (r: Option<usize>)
    ensures
        r matches Some(i) ==> i < s@.len() && i == last_index(s@, c),
        r is None ==> last_index(s@, c) == -1,
{
    let n = s.unicode_len();
    let mut found: Option<usize> = None;
    let mut j: usize = 0;
    while j < n
        invariant
            n == s@.len(),
            j <= n,
            found matches Some(i) ==> i < j && i == last_index(s@.take(j as int), c),
            found is None ==> last_index(s@.take(j as int), c) == -1,
        decreases n - j,
    {
        proof {
            assert(s@.take(j + 1).drop_last() =~= s@.take(j as int));
        }
        if s.get_char(j) == c {
            found = Some(j);
        }
        j = j + 1;
    }
    assert(s@.take(n as int) =~= s@);
    found
}

} // verus!

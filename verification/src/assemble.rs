//! Putting texts together: lists of arguments, messages, and numbers in
//! decimal.

use crate::text::texts;
use vstd::prelude::*;

verus! {

/// Each of `values` behind a `flag` of its own.
pub open spec fn flagged(flag: Seq<char>, values: Seq<Seq<char>>) -> Seq<Seq<char>>
    decreases values.len(),
{
    if values.len() == 0 {
        Seq::empty()
    } else {
        flagged(flag, values.drop_last()) + seq![flag, values.last()]
    }
}

/// The decimal digits of `n`, without leading zeros.
pub open spec fn natural_text(n: nat) -> Seq<char>
    decreases n,
{
    if n < 10 {
        seq![digit_char(n as int)]
    } else {
        natural_text(n / 10).push(digit_char((n % 10) as int))
    }
}

/// The decimal digit of value `d`.
pub open spec fn digit_char(d: int) -> char {
    if d == 0 {
        '0'
    } else if d == 1 {
        '1'
    } else if d == 2 {
        '2'
    } else if d == 3 {
        '3'
    } else if d == 4 {
        '4'
    } else if d == 5 {
        '5'
    } else if d == 6 {
        '6'
    } else if d == 7 {
        '7'
    } else if d == 8 {
        '8'
    } else {
        '9'
    }
}

/// `n` in decimal, with `-` before a negative number.
pub open spec fn decimal_text(n: int) -> Seq<char> {
    if n < 0 {
        seq!['-'] + natural_text((-n) as nat)
    } else {
        natural_text(n as nat)
    }
}

/// Appends a copy of `s` to `list`.
pub fn push_text(list: &mut Vec<String>, s: &str)
    ensures
        texts(final(list)@) == texts(old(list)@).push(s@),
{
    let owned = s.to_owned();
    assert(texts(list@.push(owned)) =~= texts(list@).push(s@));
    list.push(owned);
}

/// Appends copies of the strings of `more` to `list`.
pub fn push_texts(list: &mut Vec<String>, more: &Vec<String>)
    ensures
        texts(final(list)@) == texts(old(list)@) + texts(more@),
{
    let mut i: usize = 0;
    assert(texts(list@) =~= texts(list@) + texts(more@).take(0));
    while i < more.len()
        invariant
            i <= more@.len(),
            texts(list@) == texts(old(list)@) + texts(more@).take(i as int),
        decreases more@.len() - i,
    {
        let ghost before = texts(list@);
        push_text(list, more[i].as_str());
        assert(texts(list@) =~= texts(old(list)@) + texts(more@).take(i + 1)) by {
            assert(texts(more@).take(i + 1) =~= texts(more@).take(i as int).push(more@[i as int]@));
        }
        i += 1;
    }
    assert(texts(more@).take(more@.len() as int) =~= texts(more@));
}

/// Appends to `list` each of `values` behind a `flag` of its own.
pub fn push_flagged(list: &mut Vec<String>, flag: &str, values: &Vec<String>)
    ensures
        texts(final(list)@) == texts(old(list)@) + flagged(flag@, texts(values@)),
{
    let mut i: usize = 0;
    assert(texts(list@) =~= texts(list@) + flagged(flag@, texts(values@).take(0)));
    while i < values.len()
        invariant
            i <= values@.len(),
            texts(list@) == texts(old(list)@) + flagged(flag@, texts(values@).take(i as int)),
        decreases values@.len() - i,
    {
        push_text(list, flag);
        push_text(list, values[i].as_str());
        proof {
            let next = texts(values@).take(i + 1);
            assert(next.drop_last() =~= texts(values@).take(i as int));
            assert(next.last() == values@[i as int]@);
            assert(texts(list@) =~= texts(old(list)@) + flagged(flag@, next));
        }
        i += 1;
    }
    assert(texts(values@).take(values@.len() as int) =~= texts(values@));
}

/// The two texts in a row.
pub fn join2(a: &str, b: &str) -> (r: String)
    ensures
        r@ == a@ + b@,
{
    let mut r = a.to_owned();
    r.append(b);
    r
}

/// The three texts in a row.
pub fn join3(a: &str, b: &str, c: &str) -> (r: String)
    ensures
        r@ == a@ + b@ + c@,
{
    let mut r = a.to_owned();
    r.append(b);
    r.append(c);
    r
}

/// The four texts in a row.
pub fn join4(a: &str, b: &str, c: &str, d: &str) -> (r: String)
    ensures
        r@ == a@ + b@ + c@ + d@,
{
    let mut r = a.to_owned();
    r.append(b);
    r.append(c);
    r.append(d);
    r
}

/// The five texts in a row.
pub fn join5(a: &str, b: &str, c: &str, d: &str, e: &str) -> (r: String)
    ensures
        r@ == a@ + b@ + c@ + d@ + e@,
{
    let mut r = a.to_owned();
    r.append(b);
    r.append(c);
    r.append(d);
    r.append(e);
    r
}

/// The decimal digit of value `d`, as a string.
fn digit_string(d: u64) -> (r: &'static str)
    requires
        d < 10,
    ensures
        r@ == seq![digit_char(d as int)],
{
    proof {
        reveal_strlit("0");
        reveal_strlit("1");
        reveal_strlit("2");
        reveal_strlit("3");
        reveal_strlit("4");
        reveal_strlit("5");
        reveal_strlit("6");
        reveal_strlit("7");
        reveal_strlit("8");
        reveal_strlit("9");
    }
    let r = if d == 0 {
        "0"
    } else if d == 1 {
        "1"
    } else if d == 2 {
        "2"
    } else if d == 3 {
        "3"
    } else if d == 4 {
        "4"
    } else if d == 5 {
        "5"
    } else if d == 6 {
        "6"
    } else if d == 7 {
        "7"
    } else if d == 8 {
        "8"
    } else {
        "9"
    };
    assert(r@ =~= seq![digit_char(d as int)]);
    r
}

/// The decimal digits of `n`.
pub fn natural_string(n: u64) -> (r: String)
    ensures
        r@ == natural_text(n as nat),
    decreases n,
{
    if n < 10 {
        digit_string(n).to_owned()
    } else {
        let mut r = natural_string(n / 10);
        let ghost before = r@;
        r.append(digit_string(n % 10));
        assert(r@ =~= before.push(digit_char((n % 10) as int)));
        r
    }
}

/// `n` in decimal.
pub fn decimal_string(n: i32) -> (r: String)
    ensures
        r@ == decimal_text(n as int),
{
    if n < 0 {
        proof {
            reveal_strlit("-");
            assert("-"@ =~= seq!['-']);
        }
        let wide: i64 = n as i64;
        let size: u64 = (-wide) as u64;
        let mut r = "-".to_owned();
        let digits = natural_string(size);
        r.append(digits.as_str());
        r
    } else {
        natural_string(n as u64)
    }
}

} // verus!

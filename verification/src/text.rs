//! Small pieces of text that the messages and file names are made of.

use vstd::prelude::*;
use vstd::string::*;

verus! {

/// The characters of `s`, in order.
pub fn chars_of(s: &str) -> (v: Vec<char>)
    ensures
        v@ == s@,
{
    let mut v: Vec<char> = Vec::new();
    for c in it: s.chars()
        invariant
            v@ == it.seq().take(it.index()),
            it.seq() == s@,
    {
        v.push(c);
    }
    v
}

/// The character that stands for the decimal digit `d`.
pub open spec fn digit_char(d: int) -> char {
    if d == 0 {
        '0'
    } else if d == 1 {
        '1'
    } else if d == 2 {
        '2'
    } else if d == 3 {
        '3'
    } else if d == 4 {
        '4'
    } else if d == 5 {
        '5'
    } else if d == 6 {
        '6'
    } else if d == 7 {
        '7'
    } else if d == 8 {
        '8'
    } else {
        '9'
    }
}

/// The decimal numeral of `n`, without leading zeros.
pub open spec fn decimal(n: nat) -> Seq<char>
    decreases n,
{
    if n < 10 {
        seq![digit_char(n as int)]
    } else {
        decimal(n / 10).push(digit_char((n % 10) as int))
    }
}

fn digit_str(d: u64) -> (s: &'static str)
    requires
        d < 10,
    ensures
        s@ == seq![digit_char(d as int)],
{
    proof {
        reveal_strlit("0");
        reveal_strlit("1");
        reveal_strlit("2");
        reveal_strlit("3");
        reveal_strlit("4");
        reveal_strlit("5");
        reveal_strlit("6");
        reveal_strlit("7");
        reveal_strlit("8");
        reveal_strlit("9");
    }
    let s = if d == 0 {
        "0"
    } else if d == 1 {
        "1"
    } else if d == 2 {
        "2"
    } else if d == 3 {
        "3"
    } else if d == 4 {
        "4"
    } else if d == 5 {
        "5"
    } else if d == 6 {
        "6"
    } else if d == 7 {
        "7"
    } else if d == 8 {
        "8"
    } else {
        "9"
    };
    assert(s@ =~= seq![digit_char(d as int)]);
    s
}

/// Writes `n` as a decimal numeral.
pub fn decimal_string(n: u64) -> (s: String)
    ensures
        s@ == decimal(n as nat),
    decreases n,
{
    if n < 10 {
        String::from_str(digit_str(n))
    } else {
        let front = decimal_string(n / 10);
        let digit = digit_str(n % 10);
        assert(front@ + digit@ =~= front@.push(digit_char((n % 10) as int)));
        front.concat(digit)
    }
}

/// Whether `a` and `b` are the same text.
pub fn same_text(a: &str, b: &str) -> (same: bool)
    ensures
        same == (a@ == b@),
{
    String::from_str(a) == String::from_str(b)
}

/// The views of the strings of `v`, in order.
pub open spec fn texts(v: Seq<String>) -> Seq<Seq<char>> {
    v.map_values(|s: String| s@)
}

/// What is left of `text` when the ending `suffix` is taken off; `None` where
/// `text` does not end with `suffix`.
pub open spec fn without_suffix(text: Seq<char>, suffix: Seq<char>) -> Option<Seq<char>> {
    if suffix.is_suffix_of(text) {
        Some(text.take(text.len() - suffix.len()))
    } else {
        None
    }
}

/// Taking an ending off a text to which it was appended gives the text back.
pub proof fn lemma_without_suffix_of_concat(stem: Seq<char>, suffix: Seq<char>)
    ensures
        without_suffix(stem + suffix, suffix) == Some(stem),
{
    let text = stem + suffix;
    assert(text.subrange(text.len() - suffix.len(), text.len() as int) =~= suffix);
    assert(text.take(text.len() - suffix.len()) =~= stem);
}

/// Takes the ending `suffix` off `text`, if `text` ends with it.
pub fn strip_suffix(text: &str, suffix: &str) -> (stem: Option<String>)
    ensures
        match stem {
            Some(s) => without_suffix(text@, suffix@) == Some(s@),
            None => without_suffix(text@, suffix@) is None,
        },
{
    let t = chars_of(text);
    let e = chars_of(suffix);
    if e.len() > t.len() {
        return None;
    }
    let skip = t.len() - e.len();
    let mut i: usize = 0;
    while i < e.len()
        invariant
            i <= e.len(),
            skip + e.len() == t.len(),
            t@ == text@,
            e@ == suffix@,
            forall|k: int| 0 <= k < i ==> t@[skip + k] == e@[k],
        decreases e.len() - i,
    {
        if t[skip + i] != e[i] {
            proof {
                if suffix@.is_suffix_of(text@) {
                    let tail = text@.subrange(text@.len() - suffix@.len(), text@.len() as int);
                    assert(tail[i as int] == e@[i as int]);
                }
            }
            return None;
        }
        i += 1;
    }
    assert(text@.subrange(text@.len() - suffix@.len(), text@.len() as int) =~= suffix@);
    let stem = text.substring_char(0, skip);
    assert(text@.take(skip as int) =~= text@.subrange(0, skip as int));
    Some(String::from_str(stem))
}

} // verus!

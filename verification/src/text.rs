//! Small operations on text: prefixes, splitting and decimal numbers.
use vstd::prelude::*;

verus! {

/// `mark` stands at position `i` of `s` and nowhere before it.
pub open spec fn first_at(s: Seq<char>, mark: char, i: int) -> bool {
    &&& 0 <= i < s.len()
    &&& s[i] == mark
    &&& forall|j: int| 0 <= j < i ==> s[j] != mark
}

/// What stands before and after the first `mark` in `s`, if there is one.
pub open spec fn split_at_first(s: Seq<char>, mark: char) -> Option<(Seq<char>, Seq<char>)> {
    if exists|i: int| first_at(s, mark, i) {
        let i = choose|i: int| first_at(s, mark, i);
        Some((s.take(i), s.skip(i + 1)))
    } else {
        None
    }
}

/// A position that `first_at` accepts is where the text is split.
pub proof fn lemma_split_at_first(s: Seq<char>, mark: char, i: int)
    requires
        first_at(s, mark, i),
    ensures
        split_at_first(s, mark) == Some((s.take(i), s.skip(i + 1))),
{
    let k = choose|k: int| first_at(s, mark, k);
    assert(first_at(s, mark, k));
    assert(k == i);
}

/// Text without the mark is not split.
pub proof fn lemma_no_split(s: Seq<char>, mark: char)
    requires
        forall|j: int| 0 <= j < s.len() ==> s[j] != mark,
    ensures
        split_at_first(s, mark) is None,
{
}

/// The rest of `s` behind `prefix`, if `s` starts with it.
pub(crate) fn strip_prefix<'a>(s: &'a str, prefix: &str) -> (rest: Option<&'a str>)
    ensures
        match rest {
            Some(rest) => prefix@.is_prefix_of(s@) && rest@ == s@.skip(prefix@.len() as int),
            None => !prefix@.is_prefix_of(s@),
        },
{
    let n: usize = s.unicode_len();
    let m: usize = prefix.unicode_len();
    if n < m {
        return None;
    }
    let mut i: usize = 0;
    while i < m
        invariant
            i <= m <= n,
            n == s@.len(),
            m == prefix@.len(),
            forall|j: int| 0 <= j < i ==> s@[j] == prefix@[j],
        decreases m - i,
    {
        if s.get_char(i) != prefix.get_char(i) {
            assert(s@.subrange(0, m as int)[i as int] != prefix@[i as int]);
            return None;
        }
        i = i + 1;
    }
    assert(s@.subrange(0, m as int) =~= prefix@);
    let rest = s.substring_char(m, n);
    assert(rest@ =~= s@.skip(m as int));
    Some(rest)
}

/// Splits `s` at the first `mark`.
pub(crate) fn split_once<'a>(s: &'a str, mark: char) -> (parts: Option<(&'a str, &'a str)>)
    ensures
        match parts {
            Some((before, after)) => split_at_first(s@, mark) == Some((before@, after@)),
            None => split_at_first(s@, mark) is None,
        },
{
    let n: usize = s.unicode_len();
    let mut i: usize = 0;
    let mut found = false;
    for c in it: s.chars()
        invariant
            n == s@.len(),
            it.seq() == s@,
            found ==> first_at(s@, mark, i as int),
            !found ==> i == it.index() && forall|j: int| 0 <= j < i ==> s@[j] != mark,
    {
        if !found {
            if c == mark {
                found = true;
            } else {
                i = i + 1;
            }
        }
    }
    if !found {
        proof {
            lemma_no_split(s@, mark);
        }
        return None;
    }
    proof {
        lemma_split_at_first(s@, mark, i as int);
    }
    let before = s.substring_char(0, i);
    let after = s.substring_char(i + 1, n);
    assert(before@ =~= s@.take(i as int));
    assert(after@ =~= s@.skip(i + 1));
    Some((before, after))
}

/// The decimal digit for `d`.
pub open spec fn digit_text(d: nat) -> Seq<char> {
    if d == 0 {
        "0"@
    } else if d == 1 {
        "1"@
    } else if d == 2 {
        "2"@
    } else if d == 3 {
        "3"@
    } else if d == 4 {
        "4"@
    } else if d == 5 {
        "5"@
    } else if d == 6 {
        "6"@
    } else if d == 7 {
        "7"@
    } else if d == 8 {
        "8"@
    } else {
        "9"@
    }
}

/// `n` written in decimal, without leading zeros.
pub open spec fn decimal_text(n: nat) -> Seq<char>
    decreases n,
{
    if n < 10 {
        digit_text(n)
    } else {
        decimal_text(n / 10) + digit_text(n % 10)
    }
}

fn digit(d: usize) -> (text: &'static str)
    requires
        d < 10,
    ensures
        text@ == digit_text(d as nat),
{
    match d {
        0 => "0",
        1 => "1",
        2 => "2",
        3 => "3",
        4 => "4",
        5 => "5",
        6 => "6",
        7 => "7",
        8 => "8",
        _ => "9",
    }
}

/// Writes `n` in decimal.
pub(crate) fn decimal(n: usize) -> (text: String)
    ensures
        text@ == decimal_text(n as nat),
    decreases n,
{
    if n < 10 {
        digit(n).to_string()
    } else {
        decimal(n / 10).concat(digit(n % 10))
    }
}

} // verus!

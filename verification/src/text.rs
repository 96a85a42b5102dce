//! Plain text building blocks: decimal numbers and fields separated by a character.
use vstd::prelude::*;

verus! {

/// The character of the decimal digit `d`.
pub open spec fn digit(d: nat) -> char {
    (48 + d) as char
}

/// `n` in decimal, without leading zeros.
pub open spec fn decimal(n: nat) -> Seq<char>
    decreases n,
{
    if n < 10 {
        seq![digit(n)]
    } else {
        decimal(n / 10).push(digit(n % 10))
    }
}

fn digit_str(d: u64) -> (s: &'static str)
    requires
        d < 10,
    ensures
        s@ == seq![digit(d as nat)],
{
    proof {
        reveal_strlit("0");
        reveal_strlit("1");
        reveal_strlit("2");
        reveal_strlit("3");
        reveal_strlit("4");
        reveal_strlit("5");
        reveal_strlit("6");
        reveal_strlit("7");
        reveal_strlit("8");
        reveal_strlit("9");
    }
    match d {
        0 => "0",
        1 => "1",
        2 => "2",
        3 => "3",
        4 => "4",
        5 => "5",
        6 => "6",
        7 => "7",
        8 => "8",
        _ => "9",
    }
}

/// Appends `n` in decimal.
pub fn push_decimal(out: &mut String, n: u64)
    ensures
        final(out)@ == old(out)@ + decimal(n as nat),
    decreases n,
{
    if n >= 10 {
        push_decimal(out, n / 10);
    }
    out.append(digit_str(n % 10));
    assert(out@ =~= old(out)@ + decimal(n as nat));
}

/// `n` in decimal.
pub fn to_decimal(n: u64) -> (s: String)
    ensures
        s@ == decimal(n as nat),
{
    let mut s = String::new();
    push_decimal(&mut s, n);
    assert(s@ =~= decimal(n as nat));
    s
}

/// A decimal number is never empty and consists of digits.
pub proof fn law_decimal_is_digits(n: nat)
    ensures
        decimal(n).len() > 0,
        forall|i: int| 0 <= i < decimal(n).len() ==> '0' <= #[trigger] decimal(n)[i] <= '9',
    decreases n,
{
    if n >= 10 {
        law_decimal_is_digits(n / 10);
    }
}

/// Different numbers have different decimal forms.
pub proof fn law_decimal_is_injective(a: nat, b: nat)
    requires
        decimal(a) == decimal(b),
    ensures
        a == b,
    decreases a,
{
    law_decimal_is_digits(a / 10);
    law_decimal_is_digits(b / 10);
    assert(decimal(a).last() == digit(a % 10));
    assert(decimal(b).last() == digit(b % 10));
    if a >= 10 && b >= 10 {
        assert(decimal(a).drop_last() =~= decimal(a / 10));
        assert(decimal(b).drop_last() =~= decimal(b / 10));
        law_decimal_is_injective(a / 10, b / 10);
    }
}

/// The first position at or after `from` where `s` holds `c`, or the length of `s`.
pub open spec fn next_index(s: Seq<char>, c: char, from: int) -> int
    decreases s.len() - from,
{
    if from >= s.len() {
        s.len() as int
    } else if s[from] == c {
        from
    } else {
        next_index(s, c, from + 1)
    }
}

/// A search from within `s` stays within `s`.
pub proof fn lemma_next_index_bounds(s: Seq<char>, c: char, from: int)
    requires
        0 <= from <= s.len(),
    ensures
        from <= next_index(s, c, from) <= s.len(),
    decreases s.len() - from,
{
    if from < s.len() && s[from] != c {
        lemma_next_index_bounds(s, c, from + 1);
    }
}

/// The second of the fields into which `sep` splits `s`, if there is one.
pub open spec fn second_field(s: Seq<char>, sep: char) -> Option<Seq<char>> {
    let first = next_index(s, sep, 0);
    if first >= s.len() {
        None
    } else {
        Some(s.subrange(first + 1, next_index(s, sep, first + 1)))
    }
}

/// The characters of `s`.
pub fn chars_of(s: &str) -> (chars: Vec<char>)
    ensures
        chars@ == s@,
{
    let mut chars: Vec<char> = Vec::new();
    for c in it: s.chars()
        invariant
            chars@ == it.seq().take(it.index()),
            it.seq() == s@,
    {
        chars.push(c);
        assert(chars@ =~= it.seq().take(it.index() + 1));
    }
    assert(chars@ =~= s@);
    chars
}

/// Whether `a` and `b` hold the same characters.
pub fn same_text(a: &str, b: &str) -> (same: bool)
    ensures
        same == (a@ == b@),
{
    let left: Vec<char> = chars_of(a);
    let right: Vec<char> = chars_of(b);
    if left.len() != right.len() {
        return false;
    }
    let mut i: usize = 0;
    while i < left.len()
        invariant
            i <= left@.len() == right@.len(),
            left@ == a@,
            right@ == b@,
            forall|k: int| 0 <= k < i ==> left@[k] == right@[k],
        decreases left@.len() - i,
    {
        if left[i] != right[i] {
            return false;
        }
        i += 1;
    }
    assert(a@ =~= b@);
    true
}

fn find_from(chars: &Vec<char>, c: char, from: usize) -> (at: usize)
    requires
        from <= chars@.len(),
    ensures
        at == next_index(chars@, c, from as int),
        from <= at <= chars@.len(),
{
    let mut i: usize = from;
    while i < chars.len() && chars[i] != c
        invariant
            from <= i <= chars@.len(),
            next_index(chars@, c, from as int) == next_index(chars@, c, i as int),
        decreases chars@.len() - i,
    {
        i += 1;
    }
    i
}

/// The second of the fields into which `sep` splits `s`.
pub fn second_field_of(s: &str, sep: char) -> (field: Option<String>)
    ensures
        match second_field(s@, sep) {
            Some(f) => field is Some && field->Some_0@ == f,
            None => field is None,
        },
{
    let chars: Vec<char> = chars_of(s);
    let first: usize = find_from(&chars, sep, 0);
    if first >= chars.len() {
        return None;
    }
    let second: usize = find_from(&chars, sep, first + 1);
    Some(s.substring_char(first + 1, second).to_string())
}

/// The number that decimal digits stand for.
pub open spec fn number_in(digits: Seq<char>) -> int
    decreases digits.len(),
{
    if digits.len() == 0 {
        0
    } else {
        10 * number_in(digits.drop_last()) + (digits.last() as int - 48)
    }
}

/// A decimal number stands for the number that was written, without leading zeros.
pub proof fn law_decimal_stands_for_its_number(n: nat)
    ensures
        number_in(decimal(n)) == n,
        decimal(n).len() > 1 ==> decimal(n)[0] != '0',
    decreases n,
{
    let digits = decimal(n);
    law_decimal_is_digits(n);
    assert(digits.last() as int == 48 + n % 10);
    if n >= 10 {
        law_decimal_stands_for_its_number(n / 10);
        law_decimal_is_digits(n / 10);
        assert(digits.drop_last() =~= decimal(n / 10));
        assert(digits[0] == decimal(n / 10)[0]);
        if n < 100 {
            assert(decimal(n / 10)[0] as int == 48 + n / 10);
        } else {
            assert(decimal(n / 10).len() > 1) by {
                law_decimal_is_digits(n / 100);
            }
        }
    } else {
        assert(digits.drop_last() =~= Seq::empty());
        assert(number_in(digits.drop_last()) == 0);
    }
}

/// A search ends at the first place from its start on that holds the character, or at the end
/// where there is none.
pub proof fn law_search_finds_the_first(s: Seq<char>, c: char, from: int, at: int)
    requires
        0 <= from <= at <= s.len(),
        forall|i: int| from <= i < at ==> s[i] != c,
        at < s.len() ==> s[at] == c,
    ensures
        next_index(s, c, from) == at,
    decreases at - from,
{
    if from < at {
        law_search_finds_the_first(s, c, from + 1, at);
    }
}

/// The second field is what stands between the first separator and the next one or the end; there
/// is none exactly where there is no separator.
pub proof fn law_second_field_stands_behind_the_separator(
    first: Seq<char>,
    sep: char,
    field: Seq<char>,
    rest: Seq<char>,
)
    requires
        !first.contains(sep),
        !field.contains(sep),
        rest.len() == 0 || rest[0] == sep,
    ensures
        second_field(first, sep) is None,
        second_field(first + seq![sep] + field + rest, sep) == Some(field),
{
    law_search_finds_the_first(first, sep, 0, first.len() as int);
    let s = first + seq![sep] + field + rest;
    let a = first.len() as int;
    let b = a + 1 + field.len();
    assert forall|i: int| 0 <= i < a implies s[i] != sep by {
        assert(s[i] == first[i]);
    }
    assert(s[a] == sep);
    law_search_finds_the_first(s, sep, 0, a);
    assert forall|i: int| a + 1 <= i < b implies s[i] != sep by {
        assert(s[i] == field[i - a - 1]);
    }
    if rest.len() > 0 {
        assert(s[b] == rest[0]);
    }
    law_search_finds_the_first(s, sep, a + 1, b);
    assert(s.subrange(a + 1, b) =~= field);
}

} // verus!

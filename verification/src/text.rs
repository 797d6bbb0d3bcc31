//! Small text helpers: comparison, decimal rendering and substring search, each
//! stated over the sequence of characters that a string holds.

use vstd::prelude::*;

verus! {

/// The decimal digit for a value below ten.
pub open spec fn digit(d: nat) -> char {
    if d == 0 {
        '0'
    } else if d == 1 {
        '1'
    } else if d == 2 {
        '2'
    } else if d == 3 {
        '3'
    } else if d == 4 {
        '4'
    } else if d == 5 {
        '5'
    } else if d == 6 {
        '6'
    } else if d == 7 {
        '7'
    } else if d == 8 {
        '8'
    } else {
        '9'
    }
}

/// `n` written in base ten, most significant digit first, without leading zeros.
pub open spec fn decimal(n: nat) -> Seq<char>
    decreases n,
{
    if n < 10 {
        seq![digit(n)]
    } else {
        decimal(n / 10).push(digit(n % 10))
    }
}

/// `n` written in base ten, with a leading minus sign when it is negative.
pub open spec fn signed_decimal(n: int) -> Seq<char> {
    if n < 0 {
        seq!['-'] + decimal((-n) as nat)
    } else {
        decimal(n as nat)
    }
}

/// Whether `needle` occurs in `haystack` starting at `at`.
pub open spec fn occurs_at(haystack: Seq<char>, needle: Seq<char>, at: int) -> bool {
    &&& 0 <= at
    &&& at + needle.len() <= haystack.len()
    &&& haystack.subrange(at, at + needle.len()) == needle
}

/// Whether `needle` occurs anywhere in `haystack`.
pub open spec fn contains_text(haystack: Seq<char>, needle: Seq<char>) -> bool {
    exists|at: int| occurs_at(haystack, needle, at)
}

/// Character-wise equality of two strings.
pub fn same_text(a: &str, b: &str) -> (same: bool)
    ensures
        same == (a@ == b@),
{
    let left: String = a.to_owned();
    let right: String = b.to_owned();
    left == right
}

fn digit_text(d: u64) -> (s: &'static str)
    requires
        d < 10,
    ensures
        s@ == seq![digit(d as nat)],
{
    proof {
        reveal_strlit("0");
        reveal_strlit("1");
        reveal_strlit("2");
        reveal_strlit("3");
        reveal_strlit("4");
        reveal_strlit("5");
        reveal_strlit("6");
        reveal_strlit("7");
        reveal_strlit("8");
        reveal_strlit("9");
    }
    let s: &'static str = if d == 0 {
        "0"
    } else if d == 1 {
        "1"
    } else if d == 2 {
        "2"
    } else if d == 3 {
        "3"
    } else if d == 4 {
        "4"
    } else if d == 5 {
        "5"
    } else if d == 6 {
        "6"
    } else if d == 7 {
        "7"
    } else if d == 8 {
        "8"
    } else {
        "9"
    };
    assert(s@ =~= seq![digit(d as nat)]);
    s
}

/// Renders `n` in base ten.
pub fn decimal_text(n: u64) -> (s: String)
    ensures
        s@ == decimal(n as nat),
    decreases n,
{
    if n < 10 {
        String::from_str(digit_text(n))
    } else {
        let head: String = decimal_text(n / 10);
        let s: String = head.concat(digit_text(n % 10));
        assert(s@ =~= decimal(n as nat));
        s
    }
}

/// Renders `n` in base ten, with a leading minus sign when it is negative.
pub fn signed_decimal_text(n: i64) -> (s: String)
    ensures
        s@ == signed_decimal(n as int),
{
    if n < 0 {
        let magnitude: u64 = (-(n as i128)) as u64;
        let digits: String = decimal_text(magnitude);
        proof {
            reveal_strlit("-");
        }
        let s: String = String::from_str("-").concat(digits.as_str());
        assert(s@ =~= signed_decimal(n as int));
        s
    } else {
        decimal_text(n as u64)
    }
}

/// Whether `needle` occurs in `haystack`.
pub fn contains_substring(haystack: &str, needle: &str) -> (found: bool)
    ensures
        found == contains_text(haystack@, needle@),
{
    let h: usize = haystack.unicode_len();
    let n: usize = needle.unicode_len();
    if n > h {
        return false;
    }
    let mut at: usize = 0;
    while at <= h - n
        invariant
            h == haystack@.len(),
            n == needle@.len(),
            n <= h,
            at <= h - n + 1,
            forall|i: int| 0 <= i < at ==> !occurs_at(haystack@, needle@, i),
        decreases h - n + 1 - at,
    {
        let mut k: usize = 0;
        while k < n && haystack.get_char(at + k) == needle.get_char(k)
            invariant
                h == haystack@.len(),
                n == needle@.len(),
                at + n <= h,
                k <= n,
                forall|i: int| 0 <= i < k ==> haystack@[at + i] == needle@[i],
            decreases n - k,
        {
            k = k + 1;
        }
        if k == n {
            assert(haystack@.subrange(at as int, at + n) =~= needle@);
            assert(occurs_at(haystack@, needle@, at as int));
            return true;
        }
        proof {
            let sub = haystack@.subrange(at as int, at + n);
            assert(sub[k as int] == haystack@[at + k]);
        }
        at = at + 1;
    }
    false
}

/// Whether a character has the Unicode property `White_Space`.
pub open spec fn white_space(c: char) -> bool {
    let code = c as u32;
    ||| 0x09 <= code <= 0x0d
    ||| code == 0x20
    ||| code == 0x85
    ||| code == 0xa0
    ||| code == 0x1680
    ||| 0x2000 <= code <= 0x200a
    ||| code == 0x2028
    ||| code == 0x2029
    ||| code == 0x202f
    ||| code == 0x205f
    ||| code == 0x3000
}

/// Whether a text holds nothing but white space.
pub open spec fn blank(text: Seq<char>) -> bool {
    forall|i: int| 0 <= i < text.len() ==> white_space(#[trigger] text[i])
}

/// Whether a character has the Unicode property `White_Space`.
pub fn is_white_space(c: char) -> (white: bool)
    ensures
        white == white_space(c),
{
    let code: u32 = c as u32;
    (0x09 <= code && code <= 0x0d) || code == 0x20 || code == 0x85 || code == 0xa0 || code
        == 0x1680 || (0x2000 <= code && code <= 0x200a) || code == 0x2028 || code == 0x2029
        || code == 0x202f || code == 0x205f || code == 0x3000
}

/// Whether a text holds nothing but white space.
pub fn is_blank(text: &str) -> (is_blank: bool)
    ensures
        is_blank == blank(text@),
{
    let n: usize = text.unicode_len();
    let mut i: usize = 0;
    while i < n
        invariant
            n == text@.len(),
            i <= n,
            forall|k: int| 0 <= k < i ==> white_space(#[trigger] text@[k]),
        decreases n - i,
    {
        if !is_white_space(text.get_char(i)) {
            assert(!white_space(text@[i as int]));
            return false;
        }
        i = i + 1;
    }
    true
}

/// The number that a row of decimal digits stands for.
pub open spec fn value_of(digits: Seq<char>) -> int
    decreases digits.len(),
{
    if digits.len() == 0 {
        0
    } else {
        value_of(digits.drop_last()) * 10 + (digits.last() as int - '0' as int)
    }
}

/// A number that is written in base ten reads as that number, in digits only and without
/// a zero in front. So different numbers are written differently.
pub proof fn law_numbers_read_as_written(n: nat)
    ensures
        value_of(decimal(n)) == n,
        decimal(n).len() > 0,
        decimal(n)[0] == '0' ==> n == 0,
        forall|i: int| 0 <= i < decimal(n).len() ==> '0' <= (#[trigger] decimal(n)[i]) <= '9',
    decreases n,
{
    reveal_with_fuel(value_of, 2);
    if n < 10 {
        assert(decimal(n).drop_last() =~= Seq::empty());
    } else {
        law_numbers_read_as_written(n / 10);
        assert(decimal(n).drop_last() =~= decimal(n / 10));
    }
}

/// A negative number is written as its magnitude after a minus sign, and any other number
/// without one.
pub proof fn law_signs_read_as_written(n: int)
    ensures
        signed_decimal(n).len() > 0,
        signed_decimal(n)[0] == '-' <==> n < 0,
        n < 0 ==> value_of(signed_decimal(n).skip(1)) == -n,
        n >= 0 ==> value_of(signed_decimal(n)) == n,
{
    if n < 0 {
        law_numbers_read_as_written((-n) as nat);
        assert(signed_decimal(n).skip(1) =~= decimal((-n) as nat));
    } else {
        law_numbers_read_as_written(n as nat);
    }
}

/// A text is found wherever it stands in another, and only where it stands.
pub proof fn law_a_text_is_found_where_it_stands(
    before: Seq<char>,
    needle: Seq<char>,
    after: Seq<char>,
    haystack: Seq<char>,
)
    ensures
        contains_text(before + needle + after, needle),
        contains_text(haystack, needle) ==> exists|at: int|
            0 <= at <= haystack.len() && haystack == #[trigger] haystack.take(at) + needle
                + haystack.skip(at + needle.len()),
        haystack.len() < needle.len() ==> !contains_text(haystack, needle),
{
    let all = before + needle + after;
    let at = before.len() as int;
    assert(all.subrange(at, at + needle.len()) =~= needle);
    assert(occurs_at(all, needle, at));
    if contains_text(haystack, needle) {
        let at = choose|at: int| occurs_at(haystack, needle, at);
        assert(haystack =~= haystack.take(at) + haystack.subrange(at, at + needle.len())
            + haystack.skip(at + needle.len()));
    }
}

/// A text is blank exactly if each part of it is; anything that is visible in plain
/// writing keeps it from being blank, and blanks and line breaks do not.
pub proof fn law_blank_is_nothing_to_read(first: Seq<char>, second: Seq<char>, c: char)
    ensures
        blank(first + second) <==> blank(first) && blank(second),
        blank(Seq::empty()),
        '!' <= c <= '~' ==> !blank(first.push(c)),
        c == ' ' || c == '\t' || c == '\n' || c == '\r' ==> (blank(first.push(c)) <==> blank(first)),
{
    let all = first + second;
    if blank(all) {
        assert forall|i: int| 0 <= i < first.len() implies white_space(#[trigger] first[i]) by {
            assert(all[i] == first[i]);
        }
        assert forall|i: int| 0 <= i < second.len() implies white_space(#[trigger] second[i]) by {
            assert(all[first.len() + i] == second[i]);
        }
    }
    let longer = first.push(c);
    assert(longer[first.len() as int] == c);
    if blank(longer) {
        assert forall|i: int| 0 <= i < first.len() implies white_space(#[trigger] first[i]) by {
            assert(longer[i] == first[i]);
        }
    }
}

/// Twenty-five characters are white space: five controls, the space, and what else is
/// listed as such for other scripts and for typesetting.
pub proof fn law_white_space_is_a_short_list(c: char)
    ensures
        white_space(c) <==> seq![
            0x09u32, 0x0a, 0x0b, 0x0c, 0x0d, 0x20, 0x85, 0xa0, 0x1680, 0x2000, 0x2001, 0x2002,
            0x2003, 0x2004, 0x2005, 0x2006, 0x2007, 0x2008, 0x2009, 0x200a, 0x2028, 0x2029, 0x202f,
            0x205f, 0x3000,
        ].contains(c as u32),
{
    let listed = seq![
        0x09u32, 0x0a, 0x0b, 0x0c, 0x0d, 0x20, 0x85, 0xa0, 0x1680, 0x2000, 0x2001, 0x2002, 0x2003,
        0x2004, 0x2005, 0x2006, 0x2007, 0x2008, 0x2009, 0x200a, 0x2028, 0x2029, 0x202f, 0x205f,
        0x3000,
    ];
    let code = c as u32;
    if white_space(c) {
        let at: int = if code <= 0x0d {
            code - 0x09
        } else if code == 0x20 {
            5
        } else if code == 0x85 {
            6
        } else if code == 0xa0 {
            7
        } else if code == 0x1680 {
            8
        } else if code <= 0x200a {
            code - 0x2000 + 9
        } else if code == 0x2028 {
            20
        } else if code == 0x2029 {
            21
        } else if code == 0x202f {
            22
        } else if code == 0x205f {
            23
        } else {
            24
        };
        assert(listed[at] == code);
    }
}

} // verus!

//! Reading text: blanks, letter case and numbers.

use vstd::prelude::*;

verus! {

/// `String::push`: a character more at the end.
pub assume_specification[ String::push ](s: &mut String, c: char)
    ensures
        final(s)@ == old(s)@.push(c),
;

/// The characters that stand between words.
pub open spec fn is_blank(c: char) -> bool {
    let n = c as u32;
    ||| 0x9 <= n <= 0xd
    ||| n == 0x20
    ||| n == 0x85
    ||| n == 0xa0
    ||| n == 0x1680
    ||| 0x2000 <= n <= 0x200a
    ||| n == 0x2028
    ||| n == 0x2029
    ||| n == 0x202f
    ||| n == 0x205f
    ||| n == 0x3000
}

fn blank(c: char) -> (r: bool)
    ensures
        r == is_blank(c),
{
    let n: u32 = c as u32;
    (0x9 <= n && n <= 0xd) || n == 0x20 || n == 0x85 || n == 0xa0 || n == 0x1680 || (0x2000 <= n
        && n
        <= 0x200a) || n == 0x2028 || n == 0x2029 || n == 0x202f || n == 0x205f || n == 0x3000
}

/// Text without the blanks before it.
pub open spec fn trimmed_start(s: Seq<char>) -> Seq<char>
    decreases s.len(),
{
    if s.len() > 0 && is_blank(s[0]) {
        trimmed_start(s.skip(1))
    } else {
        s
    }
}

/// Text without the blanks behind it.
pub open spec fn trimmed_end(s: Seq<char>) -> Seq<char>
    decreases s.len(),
{
    if s.len() > 0 && is_blank(s.last()) {
        trimmed_end(s.drop_last())
    } else {
        s
    }
}

/// Text without the blanks around it.
pub open spec fn trimmed(s: Seq<char>) -> Seq<char> {
    trimmed_end(trimmed_start(s))
}

/// A character, or its small form where it is a capital of the Latin alphabet.
pub open spec fn lowered_char(c: char) -> char {
    if 'A' as u32 <= c as u32 <= 'Z' as u32 {
        (c as u32 + 32) as char
    } else {
        c
    }
}

/// Text with the capitals of the Latin alphabet made small.
pub open spec fn lowered(s: Seq<char>) -> Seq<char> {
    s.map_values(|c: char| lowered_char(c))
}

/// The places `from .. to` of a text.
pub fn part(s: &str, from: usize, to: usize) -> (r: String)
    requires
        from <= to <= s@.len(),
    ensures
        r@ == s@.subrange(from as int, to as int),
{
    let mut out = String::new();
    let mut i: usize = from;
    while i < to
        invariant
            from <= i <= to,
            to <= s@.len(),
            out@ == s@.subrange(from as int, i as int),
        decreases to - i,
    {
        let c = s.get_char(i);
        out.push(c);
        proof {
            assert(out@ =~= s@.subrange(from as int, i + 1));
        }
        i = i + 1;
    }
    out
}

/// Text without the blanks around it.
pub fn trim(s: &str) -> (r: String)
    ensures
        r@ == trimmed(s@),
{
    let n: usize = s.unicode_len();
    let mut from: usize = 0;
    proof {
        assert(s@.skip(0) =~= s@);
    }
    while from < n && blank(s.get_char(from))
        invariant
            from <= n,
            n == s@.len(),
            trimmed_start(s@) == trimmed_start(s@.skip(from as int)),
        decreases n - from,
    {
        proof {
            assert(s@.skip(from as int).skip(1) =~= s@.skip(from + 1));
            assert(s@.skip(from as int)[0] == s@[from as int]);
        }
        from = from + 1;
    }
    let ghost rest = s@.skip(from as int);
    proof {
        if from < n {
            assert(rest[0] == s@[from as int]);
        }
        assert(trimmed_start(s@) == rest);
        assert(s@.subrange(from as int, n as int) =~= rest);
    }
    let mut to: usize = n;
    while to > from && blank(s.get_char(to - 1))
        invariant
            from <= to <= n,
            n == s@.len(),
            trimmed_end(rest) == trimmed_end(s@.subrange(from as int, to as int)),
        decreases to,
    {
        proof {
            let now = s@.subrange(from as int, to as int);
            assert(now.drop_last() =~= s@.subrange(from as int, to - 1));
            assert(now.last() == s@[to - 1]);
        }
        to = to - 1;
    }
    proof {
        let now = s@.subrange(from as int, to as int);
        if to > from {
            assert(now.last() == s@[to - 1]);
        }
        assert(trimmed_end(now) == now);
    }
    part(s, from, to)
}

fn lower_char(c: char) -> (r: char)
    ensures
        r == lowered_char(c),
{
    let n: u32 = c as u32;
    if 'A' as u32 <= n && n <= 'Z' as u32 {
        (n as u8 + 32) as char
    } else {
        c
    }
}

/// Text with the capitals of the Latin alphabet made small.
pub fn lower(s: &str) -> (r: String)
    ensures
        r@ == lowered(s@),
{
    let n: usize = s.unicode_len();
    let mut out = String::new();
    let mut i: usize = 0;
    while i < n
        invariant
            i <= n,
            n == s@.len(),
            out@ == lowered(s@.take(i as int)),
        decreases n - i,
    {
        let c = s.get_char(i);
        out.push(lower_char(c));
        proof {
            assert(out@ =~= lowered(s@.take(i + 1)));
        }
        i = i + 1;
    }
    proof {
        assert(s@.take(n as int) =~= s@);
    }
    out
}

/// Whether a text begins with another.
pub open spec fn begins_with(s: Seq<char>, prefix: Seq<char>) -> bool {
    prefix.len() <= s.len() && s.take(prefix.len() as int) == prefix
}

/// Whether a text begins with another.
pub fn starts_with(s: &str, prefix: &str) -> (r: bool)
    ensures
        r == begins_with(s@, prefix@),
{
    let n: usize = prefix.unicode_len();
    if n > s.unicode_len() {
        return false;
    }
    let mut i: usize = 0;
    while i < n
        invariant
            i <= n,
            n == prefix@.len(),
            n <= s@.len(),
            forall|j: int| 0 <= j < i ==> s@[j] == prefix@[j],
        decreases n - i,
    {
        if s.get_char(i) != prefix.get_char(i) {
            proof {
                assert(s@.take(n as int)[i as int] != prefix@[i as int]);
            }
            return false;
        }
        i = i + 1;
    }
    proof {
        assert(s@.take(n as int) =~= prefix@);
    }
    true
}

/// Whether a character is a decimal digit.
pub open spec fn is_digit(c: char) -> bool {
    '0' as u32 <= c as u32 <= '9' as u32
}

/// The number that decimal digits stand for.
pub open spec fn number(s: Seq<char>) -> nat
    decreases s.len(),
{
    if s.len() == 0 {
        0
    } else {
        number(s.drop_last()) * 10 + (s.last() as u32 - '0' as u32) as nat
    }
}

/// The digits of a number, after a plus sign where it has one.
pub open spec fn digits_of(s: Seq<char>) -> Seq<char> {
    if s.len() > 0 && s[0] == '+' {
        s.skip(1)
    } else {
        s
    }
}

/// The number that a text stands for, if it is one that a machine integer can
/// hold.
pub open spec fn parsed(s: Seq<char>) -> Option<usize> {
    let digits = digits_of(s);
    if digits.len() > 0 && (forall|k: int| 0 <= k < digits.len() ==> is_digit(#[trigger] digits[k]))
        && number(digits) <= usize::MAX {
        Some(number(digits) as usize)
    } else {
        None
    }
}

proof fn lemma_prefix_number(s: Seq<char>, k: int)
    requires
        0 <= k <= s.len(),
    ensures
        number(s.take(k)) <= number(s),
    decreases s.len(),
{
    if k < s.len() {
        lemma_prefix_number(s.drop_last(), k);
        assert(s.drop_last().take(k) =~= s.take(k));
        assert(number(s) >= number(s.drop_last()));
    } else {
        assert(s.take(k) =~= s);
    }
}

/// Reads a number in decimal.
pub fn parse_number(s: &str) -> (r: Option<usize>)
    ensures
        r == parsed(s@),
{
    let n: usize = s.unicode_len();
    let from: usize = if n > 0 && s.get_char(0) == '+' {
        1
    } else {
        0
    };
    let ghost digits = digits_of(s@);
    proof {
        assert(digits =~= s@.skip(from as int));
        assert(digits.take(0) =~= Seq::<char>::empty());
    }
    if from == n {
        return None;
    }
    let mut total: usize = 0;
    let mut i: usize = from;
    while i < n
        invariant
            from <= i <= n,
            n == s@.len(),
            digits == digits_of(s@),
            digits == s@.skip(from as int),
            total == number(digits.take(i - from)),
            forall|k: int| 0 <= k < i - from ==> is_digit(#[trigger] digits[k]),
        decreases n - i,
    {
        let c = s.get_char(i);
        let code: u32 = c as u32;
        let ghost at = i - from;
        proof {
            assert(digits[at] == c);
            assert(digits.take(at + 1).drop_last() =~= digits.take(at));
            assert(digits.take(at + 1).last() == c);
            lemma_prefix_number(digits, at + 1);
        }
        if code < '0' as u32 || code > '9' as u32 {
            return None;
        }
        let next = match total.checked_mul(10) {
            Some(t) => t.checked_add((code - '0' as u32) as usize),
            None => None,
        };
        match next {
            Some(t) => {
                total = t;
            },
            None => {
                return None;
            },
        }
        i = i + 1;
    }
    proof {
        assert(digits.take(n - from) =~= digits);
    }
    Some(total)
}

} // verus!

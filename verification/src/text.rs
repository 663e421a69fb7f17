//! Message text: decimal numbers, lists of sizes, and joining.

use vstd::prelude::*;

verus! {

/// The character of a decimal digit.
pub open spec fn digit_char(d: nat) -> char {
    if d == 0 {
        '0'
    } else if d == 1 {
        '1'
    } else if d == 2 {
        '2'
    } else if d == 3 {
        '3'
    } else if d == 4 {
        '4'
    } else if d == 5 {
        '5'
    } else if d == 6 {
        '6'
    } else if d == 7 {
        '7'
    } else if d == 8 {
        '8'
    } else {
        '9'
    }
}

/// The decimal form of a number, without leading zeros.
pub open spec fn decimal(n: nat) -> Seq<char>
    decreases n,
{
    if n < 10 {
        seq![digit_char(n)]
    } else {
        decimal(n / 10).push(digit_char(n % 10))
    }
}

/// The decimal form of a number that may be negative.
pub open spec fn signed_decimal(n: int) -> Seq<char> {
    if n < 0 {
        "-"@ + decimal((-n) as nat)
    } else {
        decimal(n as nat)
    }
}

/// Sizes separated by a comma and a blank, from position `from` on.
pub open spec fn sizes_tail(dims: Seq<usize>, from: int) -> Seq<char>
    decreases dims.len() - from,
{
    if from >= dims.len() || from < 0 {
        Seq::empty()
    } else if from == 0 {
        decimal(dims[0] as nat) + sizes_tail(dims, 1)
    } else {
        ", "@ + decimal(dims[from] as nat) + sizes_tail(dims, from + 1)
    }
}

/// A list of sizes in square brackets.
pub open spec fn sizes_text(dims: Seq<usize>) -> Seq<char> {
    "["@ + sizes_tail(dims, 0) + "]"@
}

fn digit(d: u64) -> (r: &'static str)
    requires
        d < 10,
    ensures
        r@ == seq![digit_char(d as nat)],
{
    proof {
        reveal_strlit("0");
        reveal_strlit("1");
        reveal_strlit("2");
        reveal_strlit("3");
        reveal_strlit("4");
        reveal_strlit("5");
        reveal_strlit("6");
        reveal_strlit("7");
        reveal_strlit("8");
        reveal_strlit("9");
    }
    if d == 0 {
        "0"
    } else if d == 1 {
        "1"
    } else if d == 2 {
        "2"
    } else if d == 3 {
        "3"
    } else if d == 4 {
        "4"
    } else if d == 5 {
        "5"
    } else if d == 6 {
        "6"
    } else if d == 7 {
        "7"
    } else if d == 8 {
        "8"
    } else {
        "9"
    }
}

/// Writes a number in decimal.
pub fn decimal_text(n: u64) -> (r: String)
    ensures
        r@ == decimal(n as nat),
    decreases n,
{
    if n < 10 {
        String::from_str(digit(n))
    } else {
        let mut head = decimal_text(n / 10);
        head.append(digit(n % 10));
        head
    }
}

/// Writes a number that may be negative in decimal.
pub fn signed_text(n: i64) -> (r: String)
    requires
        n > i64::MIN,
    ensures
        r@ == signed_decimal(n as int),
{
    if n < 0 {
        join("-", decimal_text((-n) as u64).as_str())
    } else {
        decimal_text(n as u64)
    }
}

/// Writes a list of sizes in square brackets.
pub fn dims_text(dims: &[usize]) -> (r: String)
    ensures
        r@ == sizes_text(dims@),
{
    let mut out = String::from_str("[");
    let mut i: usize = 0;
    while i < dims.len()
        invariant
            i <= dims@.len(),
            out@ + sizes_tail(dims@, i as int) == "["@ + sizes_tail(dims@, 0),
        decreases dims@.len() - i,
    {
        let ghost before = out@;
        if i > 0 {
            out.append(", ");
        }
        out.append(decimal_text(dims[i] as u64).as_str());
        proof {
            let d = decimal(dims@[i as int] as nat);
            let rest = sizes_tail(dims@, i + 1);
            if i > 0 {
                assert(out@ + rest =~= before + (", "@ + d + rest));
            } else {
                assert(out@ + rest =~= before + (d + rest));
            }
        }
        i = i + 1;
    }
    proof {
        assert(out@ + sizes_tail(dims@, i as int) =~= out@);
    }
    out.append("]");
    out
}

/// Joins two pieces of text.
pub fn join(a: &str, b: &str) -> (r: String)
    ensures
        r@ == a@ + b@,
{
    let mut out = String::from_str(a);
    out.append(b);
    out
}

/// Text around one number.
pub fn with_number(a: &str, n: usize, b: &str) -> (r: String)
    ensures
        r@ == a@ + decimal(n as nat) + b@,
{
    let mut out = String::from_str(a);
    out.append(decimal_text(n as u64).as_str());
    out.append(b);
    out
}

/// Text around two numbers.
pub fn with_numbers(a: &str, n: usize, b: &str, m: usize, c: &str) -> (r: String)
    ensures
        r@ == a@ + decimal(n as nat) + b@ + decimal(m as nat) + c@,
{
    let mut out = with_number(a, n, b);
    out.append(decimal_text(m as u64).as_str());
    out.append(c);
    out
}

/// Text followed by a list of sizes.
pub fn with_dims(a: &str, dims: &[usize]) -> (r: String)
    ensures
        r@ == a@ + sizes_text(dims@),
{
    let mut out = String::from_str(a);
    out.append(dims_text(dims).as_str());
    out
}

/// Whether two texts are the same.
pub fn same_text(a: &str, b: &str) -> (r: bool)
    ensures
        r == (a@ == b@),
{
    let n: usize = a.unicode_len();
    if n != b.unicode_len() {
        return false;
    }
    let mut i: usize = 0;
    while i < n
        invariant
            i <= n,
            n == a@.len(),
            n == b@.len(),
            forall|k: int| 0 <= k < i ==> a@[k] == b@[k],
        decreases n - i,
    {
        if a.get_char(i) != b.get_char(i) {
            return false;
        }
        i = i + 1;
    }
    proof {
        assert(a@ =~= b@);
    }
    true
}

} // verus!

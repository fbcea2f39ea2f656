use vstd::prelude::*;

verus! {

/// The character for one decimal digit.
pub open spec fn digit_char(d: int) -> char {
    if d == 0 {
        '0'
    } else if d == 1 {
        '1'
    } else if d == 2 {
        '2'
    } else if d == 3 {
        '3'
    } else if d == 4 {
        '4'
    } else if d == 5 {
        '5'
    } else if d == 6 {
        '6'
    } else if d == 7 {
        '7'
    } else if d == 8 {
        '8'
    } else {
        '9'
    }
}

/// The decimal digits of a positive number, most significant first; empty
/// for zero and below.
pub open spec fn spec_digits(n: int) -> Seq<char>
    decreases n,
{
    if n <= 0 {
        seq![]
    } else {
        spec_digits(n / 10) + seq![digit_char(n % 10)]
    }
}

/// The decimal representation of a number.
pub open spec fn spec_u64_str(n: u64) -> Seq<char> {
    if n == 0 {
        seq!['0']
    } else {
        spec_digits(n as int)
    }
}

fn digit_to_char(d: u64) -> (c: char)
    requires
        d < 10,
    ensures
        c == digit_char(d as int),
{
    if d == 0 {
        '0'
    } else if d == 1 {
        '1'
    } else if d == 2 {
        '2'
    } else if d == 3 {
        '3'
    } else if d == 4 {
        '4'
    } else if d == 5 {
        '5'
    } else if d == 6 {
        '6'
    } else if d == 7 {
        '7'
    } else if d == 8 {
        '8'
    } else {
        '9'
    }
}

/// Formats a number in decimal.
pub fn u64_to_string(n: u64) -> (r: String)
    ensures
        r@ == spec_u64_str(n),
{
    let mut digits: Vec<char> = Vec::new();
    if n == 0 {
        digits.push('0');
        proof {
            assert(digits@ =~= spec_u64_str(n));
        }
        return crate::strutil::string_from_chars(&digits);
    }
    let mut m = n;
    while m > 0
        invariant
            spec_digits(n as int) == spec_digits(m as int) + digits@,
        decreases m,
    {
        let ghost d0 = digits@;
        let c = digit_to_char(m % 10);
        digits.insert(0, c);
        proof {
            assert(digits@ =~= seq![digit_char(m as int % 10)] + d0);
            assert(spec_digits(m as int) == spec_digits(m as int / 10) + seq![digit_char(
                m as int % 10,
            )]);
            assert(spec_digits(m as int / 10) + digits@ =~= (spec_digits(m as int / 10)
                + seq![digit_char(m as int % 10)]) + d0);
        }
        m = m / 10;
    }
    proof {
        assert(spec_digits(0int) =~= Seq::<char>::empty());
        assert(digits@ =~= spec_digits(n as int));
    }
    crate::strutil::string_from_chars(&digits)
}

} // verus!

//! The endpoint's two configuration values, read from its environment: the
//! port to listen on and the path of the database file, each with its
//! default.

use vstd::prelude::*;
use crate::json::is_digit;

verus! {

/// The port used when the environment names none, or names one that does
/// not read as a number.
pub const DEFAULT_PORT: u32 = 3000;

/// The path used when the environment names none.
pub open spec fn spec_default_db_path() -> Seq<char> {
    "./db.sqlite"@
}

/// The digit's value; zero for a character that is no digit.
pub open spec fn dec_digit(c: char) -> int {
    if is_digit(c) {
        c as int - '0' as int
    } else {
        0
    }
}

/// The decimal value of `s`, read left to right.
pub open spec fn spec_dec_value(s: Seq<char>) -> int
    decreases s.len(),
{
    if s.len() == 0 {
        0
    } else {
        10 * spec_dec_value(s.subrange(0, s.len() - 1)) + dec_digit(s[s.len() - 1])
    }
}

/// The digits of a port value, after an optional leading plus sign.
pub open spec fn spec_port_digits(s: Seq<char>) -> Seq<char> {
    if s.len() > 0 && s[0] == '+' {
        s.subrange(1, s.len() as int)
    } else {
        s
    }
}

/// Whether `s` reads as a port number: an optional plus sign, then one or
/// more digits, with a value that fits.
pub open spec fn spec_is_port_number(s: Seq<char>) -> bool {
    let digits = spec_port_digits(s);
    digits.len() > 0 && (forall|k: int| 0 <= k < digits.len() ==> is_digit(#[trigger] digits[k]))
        && spec_dec_value(digits) <= u32::MAX
}

/// The port `s` names: its value when it reads as a number, else the
/// default.
pub open spec fn spec_port_of(s: Seq<char>) -> int {
    if spec_is_port_number(s) {
        spec_dec_value(spec_port_digits(s))
    } else {
        DEFAULT_PORT as int
    }
}

proof fn lemma_dec_value_grows(s: Seq<char>, k: int)
    requires
        0 <= k <= s.len(),
    ensures
        0 <= spec_dec_value(s.subrange(0, k)) <= spec_dec_value(s),
    decreases s.len(),
{
    if s.len() == 0 {
        assert(s.subrange(0, 0) =~= s);
    } else {
        let fore = s.subrange(0, s.len() - 1);
        lemma_dec_value_grows(fore, if k <= fore.len() {
            k
        } else {
            fore.len() as int
        });
        if k < s.len() {
            assert(fore.subrange(0, k) =~= s.subrange(0, k));
        } else {
            assert(s.subrange(0, k) =~= s);
        }
    }
}

/// The port the environment names, read as the listener uses it: the value
/// of the variable when it reads as a number, the default when the variable
/// is absent or reads as anything else.
#[verifier::loop_isolation(false)]
pub fn port_or_default(v: Option<&Vec<char>>) -> (r: u32)
    ensures
        match v {
            Some(s) => r as int == spec_port_of(s@),
            None => r == DEFAULT_PORT,
        },
{
    let s = match v {
        Some(s) => s,
        None => {
            return DEFAULT_PORT;
        },
    };
    let start: usize = if s.len() > 0 && s[0] == '+' {
        1
    } else {
        0
    };
    let ghost digits = spec_port_digits(s@);
    proof {
        assert(digits =~= s@.subrange(start as int, s@.len() as int));
    }
    if start >= s.len() {
        return DEFAULT_PORT;
    }
    let mut acc: u64 = 0;
    let mut k = start;
    while k < s.len()
        invariant
            start <= k <= s@.len(),
            start < s@.len(),
            digits == spec_port_digits(s@),
            digits =~= s@.subrange(start as int, s@.len() as int),
            acc <= u32::MAX,
            acc as int == spec_dec_value(s@.subrange(start as int, k as int)),
            forall|m: int| start <= m < k ==> is_digit(#[trigger] s@[m]),
        decreases s@.len() - k,
    {
        let c = s[k];
        if !('0' <= c && c <= '9') {
            proof {
                assert(digits[k - start] == s@[k as int]);
                assert(!spec_is_port_number(s@));
            }
            return DEFAULT_PORT;
        }
        acc = acc * 10 + (c as u64 - 48);
        k = k + 1;
        proof {
            let taken = s@.subrange(start as int, k as int);
            assert(taken.subrange(0, taken.len() - 1) =~= s@.subrange(
                start as int,
                k - 1int,
            ));
            assert(taken[taken.len() - 1] == c);
            assert(acc as int == spec_dec_value(taken));
        }
        if acc > u32::MAX as u64 {
            proof {
                let taken = s@.subrange(start as int, k as int);
                assert(taken =~= digits.subrange(0, k - start as int));
                lemma_dec_value_grows(digits, k - start as int);
                assert(!spec_is_port_number(s@));
            }
            return DEFAULT_PORT;
        }
    }
    proof {
        assert(s@.subrange(start as int, k as int) =~= digits);
        assert(forall|m: int|
            0 <= m < digits.len() ==> is_digit(#[trigger] digits[m]) && digits[m] == s@[m
                + start]);
        assert(spec_is_port_number(s@));
    }
    acc as u32
}

/// The database path the environment names, or the default.
pub fn db_path_or_default(v: Option<String>) -> (r: String)
    ensures
        match v {
            Some(s) => r@ == s@,
            None => r@ == spec_default_db_path(),
        },
{
    match v {
        Some(s) => s,
        None => String::from_str("./db.sqlite"),
    }
}

} // verus!

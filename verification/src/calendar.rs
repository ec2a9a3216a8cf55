//! Conversion between the radiocarbon BP timescale and proleptic BC/AD
//! calendar years, together with a verified decimal rendering of a year.

use vstd::prelude::*;
use vstd::string::StringExecFns;

verus! {

/// A proleptic calendar year: negative values are years BC, the rest AD.
#[derive(Debug, Clone, Copy, PartialEq, Eq)]
pub struct YearInBCOrAD(pub i32);

/// Converts a year on the BP scale ("before present", with present fixed at
/// calendar year 1950) to a BC/AD calendar year.
pub fn bp_to_bcad(bp: u32) -> (y: YearInBCOrAD)
    requires
        bp <= i32::MAX,
    ensures
        y.0 == 1950 - bp,
{
    YearInBCOrAD(1950 - (bp as i32))
}

/// The character for a single decimal digit.
pub open spec fn digit_char(d: nat) -> char {
    if d == 0 {
        '0'
    } else if d == 1 {
        '1'
    } else if d == 2 {
        '2'
    } else if d == 3 {
        '3'
    } else if d == 4 {
        '4'
    } else if d == 5 {
        '5'
    } else if d == 6 {
        '6'
    } else if d == 7 {
        '7'
    } else if d == 8 {
        '8'
    } else {
        '9'
    }
}

/// The decimal representation of `n`, most significant digit first.
pub open spec fn dec_digits(n: nat) -> Seq<char>
    decreases n,
{
    if n < 10 {
        seq![digit_char(n)]
    } else {
        dec_digits(n / 10).push(digit_char(n % 10))
    }
}

/// How a year is rendered: "BC" with the magnitude for years before year 1,
/// "AD" with the year itself otherwise.
pub open spec fn spec_year_string(y: int) -> Seq<char> {
    if y < 0 {
        "BC "@ + dec_digits((-y) as nat)
    } else {
        "AD "@ + dec_digits(y as nat)
    }
}

/// The single-character string for one decimal digit.
fn digit_str(d: u32) -> (s: &'static str)
    requires
        d < 10,
    ensures
        s@ == seq![digit_char(d as nat)],
{
    proof {
        reveal_strlit("0");
        reveal_strlit("1");
        reveal_strlit("2");
        reveal_strlit("3");
        reveal_strlit("4");
        reveal_strlit("5");
        reveal_strlit("6");
        reveal_strlit("7");
        reveal_strlit("8");
        reveal_strlit("9");
        assert("0"@ =~= seq!['0']);
        assert("1"@ =~= seq!['1']);
        assert("2"@ =~= seq!['2']);
        assert("3"@ =~= seq!['3']);
        assert("4"@ =~= seq!['4']);
        assert("5"@ =~= seq!['5']);
        assert("6"@ =~= seq!['6']);
        assert("7"@ =~= seq!['7']);
        assert("8"@ =~= seq!['8']);
        assert("9"@ =~= seq!['9']);
    }
    if d == 0 {
        "0"
    } else if d == 1 {
        "1"
    } else if d == 2 {
        "2"
    } else if d == 3 {
        "3"
    } else if d == 4 {
        "4"
    } else if d == 5 {
        "5"
    } else if d == 6 {
        "6"
    } else if d == 7 {
        "7"
    } else if d == 8 {
        "8"
    } else {
        "9"
    }
}

/// The decimal digits held in `ds` (least significant first), read back
/// most significant first.
spec fn digits_reversed(ds: Seq<u32>) -> Seq<char> {
    Seq::new(ds.len(), |k: int| digit_char(ds[ds.len() - 1 - k] as nat))
}

/// Renders `n` in decimal.
pub fn u32_to_dec_string(n: u32) -> (s: String)
    ensures
        s@ == dec_digits(n as nat),
{
    let mut digits: Vec<u32> = Vec::new();
    let mut m: u32 = n;
    while m >= 10
        invariant
            dec_digits(n as nat) =~= dec_digits(m as nat) + digits_reversed(digits@),
            forall|k: int| 0 <= k < digits@.len() ==> digits@[k] < 10,
        decreases m,
    {
        let ghost m0 = m as nat;
        let ghost ds0 = digits@;
        let d = m % 10;
        digits.push(d);
        m = m / 10;
        proof {
            assert(dec_digits(m0) == dec_digits(m0 / 10).push(digit_char(m0 % 10)));
            assert(digits_reversed(ds0.push(d)) =~= seq![digit_char(d as nat)]
                + digits_reversed(ds0));
            assert(dec_digits(m0 / 10).push(digit_char(m0 % 10)) + digits_reversed(ds0)
                =~= dec_digits(m0 / 10) + (seq![digit_char(m0 % 10)] + digits_reversed(ds0)));
            assert(dec_digits(n as nat) =~= dec_digits(m as nat) + digits_reversed(digits@));
        }
    }
    let ghost dsb = digits@;
    digits.push(m);
    proof {
        assert(dec_digits(m as nat) =~= seq![digit_char(m as nat)]);
        assert(digits_reversed(dsb.push(m)) =~= seq![digit_char(m as nat)]
            + digits_reversed(dsb));
        assert(dec_digits(n as nat) =~= digits_reversed(digits@));
    }
    let mut s = String::new();
    let mut i: usize = digits.len();
    while i > 0
        invariant
            i <= digits@.len(),
            forall|k: int| 0 <= k < digits@.len() ==> digits@[k] < 10,
            dec_digits(n as nat) =~= digits_reversed(digits@),
            s@ =~= digits_reversed(digits@).take(digits@.len() - i),
        decreases i,
    {
        i = i - 1;
        let c = digit_str(digits[i]);
        s.append(c);
        proof {
            assert(digits_reversed(digits@)[digits@.len() - 1 - i] == digit_char(
                digits@[i as int] as nat,
            ));
            assert(s@ =~= digits_reversed(digits@).take(digits@.len() - i));
        }
    }
    proof {
        assert(digits_reversed(digits@).take(digits@.len() - 0) =~= digits_reversed(digits@));
    }
    s
}

impl YearInBCOrAD {
    /// Renders the year for display: "BC <magnitude>" for negative years,
    /// "AD <year>" otherwise.
    pub fn to_display_string(&self) -> (s: String)
        ensures
            s@ == spec_year_string(self.0 as int),
    {
        if self.0 < 0 {
            let mag: u32 = (-(self.0 as i64)) as u32;
            let num = u32_to_dec_string(mag);
            let mut s = String::from_str("BC ");
            s.append(num.as_str());
            s
        } else {
            let num = u32_to_dec_string(self.0 as u32);
            let mut s = String::from_str("AD ");
            s.append(num.as_str());
            s
        }
    }
}

} // verus!

//! Small shared utilities: date-string conversion and volume formatting.

use vstd::prelude::*;

verus! {

/// Turns a compact `YYYYMMDD` date string into the dashed `YYYY-MM-DD` form
/// used by the historical-data provider.
pub fn convert_date_to_fugle_format(date: &str) -> (r: String)
    requires
        date.is_ascii(),
        date@.len() >= 8,
    ensures
        r@ == date@.subrange(0, 4) + "-"@ + date@.subrange(4, 6) + "-"@ + date@.subrange(6, 8),
{
    let y = date.substring_ascii(0, 4);
    let mo = date.substring_ascii(4, 6);
    let d = date.substring_ascii(6, 8);
    let mut r = y.to_owned();
    r.append("-");
    r.append(mo);
    r.append("-");
    r.append(d);
    r
}

/// `s` with every dash removed.
pub open spec fn spec_without_dashes(s: Seq<char>) -> Seq<char>
    decreases s.len(),
{
    if s.len() == 0 {
        Seq::empty()
    } else {
        let rest = spec_without_dashes(s.drop_last());
        if s.last() == '-' {
            rest
        } else {
            rest.push(s.last())
        }
    }
}

/// Turns a dashed `YYYY-MM-DD` date string back into the compact `YYYYMMDD`
/// form by dropping every dash.
pub fn convert_fugle_date_to_yyyymmdd(date: &str) -> (r: String)
    ensures
        r@ == spec_without_dashes(date@),
{
    let n = date.unicode_len();
    let mut r = String::new();
    let mut i: usize = 0;
    proof {
        assert(date@.take(0) =~= Seq::<char>::empty());
    }
    while i < n
        invariant
            n == date@.len(),
            i <= n,
            r@ == spec_without_dashes(date@.take(i as int)),
        decreases n - i,
    {
        proof {
            assert(date@.take(i as int + 1).drop_last() =~= date@.take(i as int));
        }
        if date.get_char(i) != '-' {
            let piece = date.substring_char(i, i + 1);
            proof {
                assert(r@ + piece@ =~= r@.push(date@[i as int]));
            }
            r.append(piece);
        }
        i = i + 1;
    }
    proof {
        assert(date@.take(n as int) =~= date@);
    }
    r
}

/// The decimal digit character for `d`, which must be below ten.
pub open spec fn spec_digit(d: nat) -> char {
    if d == 0 {
        '0'
    } else if d == 1 {
        '1'
    } else if d == 2 {
        '2'
    } else if d == 3 {
        '3'
    } else if d == 4 {
        '4'
    } else if d == 5 {
        '5'
    } else if d == 6 {
        '6'
    } else if d == 7 {
        '7'
    } else if d == 8 {
        '8'
    } else {
        '9'
    }
}

/// The decimal expansion of `n`, most significant digit first, no leading
/// zeros except for zero itself.
pub open spec fn spec_dec_str(n: nat) -> Seq<char>
    decreases n,
{
    if n < 10 {
        seq![spec_digit(n)]
    } else {
        spec_dec_str(n / 10).push(spec_digit(n % 10))
    }
}

/// Digit groups of three, counted from the right, separated by commas.
pub open spec fn spec_group_commas(s: Seq<char>) -> Seq<char>
    decreases s.len(),
{
    if s.len() <= 3 {
        s
    } else {
        spec_group_commas(s.take(s.len() - 3)) + seq![','] + s.skip(s.len() - 3)
    }
}

/// The one-character string for the decimal digit `d`.
fn digit_str(d: u64) -> (r: &'static str)
    requires
        d < 10,
    ensures
        r@ == seq![spec_digit(d as nat)],
{
    proof {
        reveal_strlit("0");
        reveal_strlit("1");
        reveal_strlit("2");
        reveal_strlit("3");
        reveal_strlit("4");
        reveal_strlit("5");
        reveal_strlit("6");
        reveal_strlit("7");
        reveal_strlit("8");
        reveal_strlit("9");
    }
    let r = if d == 0 {
        "0"
    } else if d == 1 {
        "1"
    } else if d == 2 {
        "2"
    } else if d == 3 {
        "3"
    } else if d == 4 {
        "4"
    } else if d == 5 {
        "5"
    } else if d == 6 {
        "6"
    } else if d == 7 {
        "7"
    } else if d == 8 {
        "8"
    } else {
        "9"
    };
    proof {
        assert(r@ =~= seq![spec_digit(d as nat)]);
    }
    r
}

/// The decimal expansion of `value` as a string.
fn dec_str(value: u64) -> (r: String)
    ensures
        r@ == spec_dec_str(value as nat),
    decreases value,
{
    if value < 10 {
        digit_str(value).to_owned()
    } else {
        let mut s = dec_str(value / 10);
        s.append(digit_str(value % 10));
        proof {
            assert(s@ =~= spec_dec_str((value / 10) as nat).push(
                spec_digit((value % 10) as nat),
            ));
        }
        s
    }
}

/// Regroups a digit string with a comma before every block of three digits,
/// counted from the right.
fn group_commas(s: &str) -> (r: String)
    ensures
        r@ == spec_group_commas(s@),
    decreases s@.len(),
{
    let n = s.unicode_len();
    if n <= 3 {
        s.to_owned()
    } else {
        let head = s.substring_char(0, n - 3);
        let tail = s.substring_char(n - 3, n);
        let mut r = group_commas(head);
        proof {
            reveal_strlit(",");
            assert(","@ =~= seq![',']);
            assert(head@ =~= s@.take(s@.len() - 3));
            assert(tail@ =~= s@.skip(s@.len() - 3));
        }
        r.append(",");
        r.append(tail);
        proof {
            assert(r@ =~= spec_group_commas(s@.take(s@.len() - 3)) + seq![','] + s@.skip(
                s@.len() - 3,
            ));
        }
        r
    }
}

/// Renders `value` in decimal with commas every three digits.
pub fn format_commas(value: u64) -> (r: String)
    ensures
        r@ == spec_group_commas(spec_dec_str(value as nat)),
{
    let digits = dec_str(value);
    group_commas(digits.as_str())
}

/// Renders a share count as thousands, comma-grouped.
pub fn str_volume(volume: u64) -> (r: String)
    ensures
        r@ == spec_group_commas(spec_dec_str((volume / 1000) as nat)),
{
    format_commas(volume / 1000)
}

/// Character-for-character string equality.
pub fn str_eq(a: &str, b: &str) -> (r: bool)
    ensures
        r == (a@ == b@),
{
    let na = a.unicode_len();
    let nb = b.unicode_len();
    if na != nb {
        return false;
    }
    let mut i: usize = 0;
    while i < na
        invariant
            na == a@.len(),
            na == b@.len(),
            i <= na,
            forall|k: int| 0 <= k < i ==> a@[k] == b@[k],
        decreases na - i,
    {
        if a.get_char(i) != b.get_char(i) {
            return false;
        }
        i = i + 1;
    }
    proof {
        assert(a@ =~= b@);
    }
    true
}

} // verus!

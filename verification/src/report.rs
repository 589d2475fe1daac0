use vstd::prelude::*;
use vstd::string::StringExecFns;
use crate::sweep::TimingRecord;

verus! {

/// The decimal digit character for `d`.
pub open spec fn spec_digit_char(d: int) -> char {
    if d == 0 {
        '0'
    } else if d == 1 {
        '1'
    } else if d == 2 {
        '2'
    } else if d == 3 {
        '3'
    } else if d == 4 {
        '4'
    } else if d == 5 {
        '5'
    } else if d == 6 {
        '6'
    } else if d == 7 {
        '7'
    } else if d == 8 {
        '8'
    } else {
        '9'
    }
}

/// The decimal rendering of `n`: most significant digit first, no sign, no
/// leading zeros, and a single `'0'` for zero.
pub open spec fn spec_decimal(n: nat) -> Seq<char>
    decreases n,
{
    if n < 10 {
        seq![spec_digit_char(n as int)]
    } else {
        spec_decimal(n / 10).push(spec_digit_char((n % 10) as int))
    }
}

/// The header line of the benchmark's output table.
pub open spec fn spec_header_line() -> Seq<char> {
    "nb_atoms,runtime_micros\n"@
}

/// One data line of the output table: the particle count and the average
/// per-step runtime, separated by a comma and ended by a newline.
pub open spec fn spec_record_line(nb_atoms: nat, micros: nat) -> Seq<char> {
    spec_decimal(nb_atoms) + ","@ + spec_decimal(micros) + "\n"@
}

fn digit_str(d: u128) -> (r: &'static str)
    requires
        d < 10,
    ensures
        r@ == seq![spec_digit_char(d as int)],
{
    let r: &'static str = if d == 0 {
        "0"
    } else if d == 1 {
        "1"
    } else if d == 2 {
        "2"
    } else if d == 3 {
        "3"
    } else if d == 4 {
        "4"
    } else if d == 5 {
        "5"
    } else if d == 6 {
        "6"
    } else if d == 7 {
        "7"
    } else if d == 8 {
        "8"
    } else {
        "9"
    };
    proof {
        reveal_strlit("0");
        reveal_strlit("1");
        reveal_strlit("2");
        reveal_strlit("3");
        reveal_strlit("4");
        reveal_strlit("5");
        reveal_strlit("6");
        reveal_strlit("7");
        reveal_strlit("8");
        reveal_strlit("9");
        assert(r@ =~= seq![spec_digit_char(d as int)]);
    }
    r
}

/// Appends the decimal rendering of `n` to `s`.
fn push_decimal(s: &mut String, n: u128)
    ensures
        final(s)@ == old(s)@ + spec_decimal(n as nat),
    decreases n,
{
    if n < 10 {
        s.append(digit_str(n));
        proof {
            assert(s@ =~= old(s)@ + spec_decimal(n as nat));
        }
    } else {
        push_decimal(s, n / 10);
        s.append(digit_str(n % 10));
        proof {
            assert(s@ =~= old(s)@ + spec_decimal(n as nat));
        }
    }
}

/// The header line of the output table, as written before any record.
pub fn header_line() -> (r: String)
    ensures
        r@ == spec_header_line(),
{
    String::from_str("nb_atoms,runtime_micros\n")
}

/// One timing record, rendered as its line of the output table.
pub fn record_line(rec: &TimingRecord) -> (r: String)
    ensures
        r@ == spec_record_line(rec.nb_atoms as nat, rec.runtime_micros as nat),
{
    let mut s = String::new();
    push_decimal(&mut s, rec.nb_atoms as u128);
    s.append(",");
    push_decimal(&mut s, rec.runtime_micros);
    s.append("\n");
    proof {
        assert(s@ =~= spec_record_line(rec.nb_atoms as nat, rec.runtime_micros as nat));
    }
    s
}

} // verus!

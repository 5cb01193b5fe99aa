//! Decimal rendering and parsing of identifiers: project ids inside
//! guest markers and user ids inside peer-service URLs.
use vstd::prelude::*;

use crate::hex::{hex_char, hex_val};

verus! {

pub open spec fn is_dec_digit(c: char) -> bool {
    48 <= c as u32 && c as u32 <= 57
}

pub open spec fn all_dec(s: Seq<char>) -> bool {
    forall|i: int| 0 <= i < s.len() ==> is_dec_digit(#[trigger] s[i])
}

/// The numeric value of a run of decimal digit characters.
pub open spec fn dec_num(s: Seq<char>) -> nat
    decreases s.len(),
{
    if s.len() == 0 {
        0
    } else {
        dec_num(s.drop_last()) * 10 + hex_val(s.last())
    }
}

/// `n` rendered in decimal without leading zeroes.
pub open spec fn dec_of(n: nat) -> Seq<char>
    decreases n,
{
    if n < 10 {
        seq![hex_char(n)]
    } else {
        dec_of(n / 10) + seq![hex_char(n % 10)]
    }
}

/// `x` rendered in decimal, with a leading minus sign when negative.
pub open spec fn dec_i32(x: i32) -> Seq<char> {
    if x >= 0 {
        dec_of(x as nat)
    } else {
        seq!['-'] + dec_of((-(x as int)) as nat)
    }
}

/// A prefix of a digit run never exceeds the whole run in value.
pub proof fn lemma_dec_num_prefix(s: Seq<char>, i: int)
    requires
        0 <= i <= s.len(),
    ensures
        dec_num(s.subrange(0, i)) <= dec_num(s),
    decreases s.len(),
{
    if i == s.len() {
        assert(s.subrange(0, i) =~= s);
    } else {
        lemma_dec_num_prefix(s.drop_last(), i);
        assert(s.drop_last().subrange(0, i) =~= s.subrange(0, i));
    }
}

/// Appends `n` in decimal to `out`.
pub fn append_dec(out: &mut String, n: u64)
    ensures
        final(out)@ == old(out)@ + dec_of(n as nat),
    decreases n,
{
    if n < 10 {
        crate::hex::push_hex_digit(out, n as u8);
    } else {
        append_dec(out, n / 10);
        crate::hex::push_hex_digit(out, (n % 10) as u8);
        proof {
            assert(out@ =~= old(out)@ + dec_of(n as nat));
        }
    }
}

/// Appends `x` in decimal to `out`, minus sign included.
pub fn append_dec_i32(out: &mut String, x: i32)
    ensures
        final(out)@ == old(out)@ + dec_i32(x),
{
    if x >= 0 {
        append_dec(out, x as u64);
    } else {
        proof {
            reveal_strlit("-");
        }
        out.append("-");
        let m: i64 = -(x as i64);
        append_dec(out, m as u64);
        proof {
            assert(out@ =~= old(out)@ + dec_i32(x));
        }
    }
}

} // verus!

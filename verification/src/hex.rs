//! Fixed-width lowercase hexadecimal rendering and parsing of integers,
//! the textual backbone of the token payload format.
use vstd::prelude::*;

verus! {

/// The lowercase hexadecimal digit for a nibble value.
pub open spec fn hex_char(d: nat) -> char {
    if d == 0 {
        '0'
    } else if d == 1 {
        '1'
    } else if d == 2 {
        '2'
    } else if d == 3 {
        '3'
    } else if d == 4 {
        '4'
    } else if d == 5 {
        '5'
    } else if d == 6 {
        '6'
    } else if d == 7 {
        '7'
    } else if d == 8 {
        '8'
    } else if d == 9 {
        '9'
    } else if d == 10 {
        'a'
    } else if d == 11 {
        'b'
    } else if d == 12 {
        'c'
    } else if d == 13 {
        'd'
    } else if d == 14 {
        'e'
    } else {
        'f'
    }
}

pub open spec fn is_hex_digit(c: char) -> bool {
    (48 <= c as u32 && c as u32 <= 57) || (97 <= c as u32 && c as u32 <= 102)
}

/// The nibble value of a hexadecimal digit character.
pub open spec fn hex_val(c: char) -> nat {
    if 48 <= c as u32 && c as u32 <= 57 {
        (c as u32 - 48) as nat
    } else if 97 <= c as u32 && c as u32 <= 102 {
        (c as u32 - 87) as nat
    } else {
        0
    }
}

/// `n` rendered in exactly `w` hexadecimal digits, most significant first
/// (only the low `w` nibbles of `n` are rendered).
pub open spec fn hex_of_width(n: nat, w: nat) -> Seq<char>
    decreases w,
{
    if w == 0 {
        Seq::empty()
    } else {
        hex_of_width(n / 16, (w - 1) as nat) + seq![hex_char(n % 16)]
    }
}

/// The numeric value of a sequence of hexadecimal digit characters.
pub open spec fn hex_num(s: Seq<char>) -> nat
    decreases s.len(),
{
    if s.len() == 0 {
        0
    } else {
        hex_num(s.drop_last()) * 16 + hex_val(s.last())
    }
}

pub open spec fn all_hex(s: Seq<char>) -> bool {
    forall|i: int| 0 <= i < s.len() ==> is_hex_digit(#[trigger] s[i])
}

/// 16 to the power `w`.
pub open spec fn pow16(w: nat) -> nat
    decreases w,
{
    if w == 0 {
        1
    } else {
        16 * pow16((w - 1) as nat)
    }
}

pub proof fn lemma_hex_char_val(d: nat)
    requires
        d < 16,
    ensures
        is_hex_digit(hex_char(d)),
        hex_val(hex_char(d)) == d,
{
}

pub proof fn lemma_hex_of_width_len_all_hex(n: nat, w: nat)
    ensures
        hex_of_width(n, w).len() == w,
        all_hex(hex_of_width(n, w)),
    decreases w,
{
    if w > 0 {
        lemma_hex_of_width_len_all_hex(n / 16, (w - 1) as nat);
        lemma_hex_char_val(n % 16);
        assert forall|i: int| 0 <= i < w implies is_hex_digit(#[trigger] hex_of_width(n, w)[i]) by {
            if i < w - 1 {
                assert(hex_of_width(n, w)[i] == hex_of_width(n / 16, (w - 1) as nat)[i]);
            }
        }
    }
}

pub proof fn lemma_pow16_monotone(a: nat, b: nat)
    requires
        a <= b,
    ensures
        pow16(a) <= pow16(b),
        pow16(a) >= 1,
    decreases b,
{
    if b > 0 {
        if a == b {
            lemma_pow16_monotone((a - 1) as nat, (b - 1) as nat);
        } else {
            lemma_pow16_monotone(a, (b - 1) as nat);
        }
    }
}

pub proof fn lemma_hex_num_bound(s: Seq<char>)
    ensures
        hex_num(s) < pow16(s.len()),
    decreases s.len(),
{
    if s.len() > 0 {
        lemma_hex_num_bound(s.drop_last());
        assert(hex_val(s.last()) < 16);
        assert(hex_num(s.drop_last()) * 16 <= (pow16((s.len() - 1) as nat) - 1) * 16) by (nonlinear_arith)
            requires
                hex_num(s.drop_last()) <= pow16((s.len() - 1) as nat) - 1,
        ;
    }
}

/// Rendering `n` in `w` digits and reading the digits back yields `n`,
/// provided `n` fits in `w` digits.
pub proof fn lemma_hex_round_trip(n: nat, w: nat)
    requires
        n < pow16(w),
    ensures
        hex_num(hex_of_width(n, w)) == n,
    decreases w,
{
    if w == 0 {
        assert(n == 0);
    } else {
        let s = hex_of_width(n, w);
        let prefix = hex_of_width(n / 16, (w - 1) as nat);
        lemma_hex_of_width_len_all_hex(n / 16, (w - 1) as nat);
        assert(s.drop_last() =~= prefix);
        assert(s.last() == hex_char(n % 16));
        lemma_hex_char_val(n % 16);
        assert(n / 16 < pow16((w - 1) as nat)) by (nonlinear_arith)
            requires
                n < 16 * pow16((w - 1) as nat),
        ;
        lemma_hex_round_trip(n / 16, (w - 1) as nat);
        assert(hex_num(s) == (n / 16) * 16 + n % 16);
    }
}

/// Appends the single hexadecimal digit `d` to `out`.
pub fn push_hex_digit(out: &mut String, d: u8)
    requires
        d < 16,
    ensures
        final(out)@ == old(out)@ + seq![hex_char(d as nat)],
{
    proof {
        reveal_strlit("0");
        reveal_strlit("1");
        reveal_strlit("2");
        reveal_strlit("3");
        reveal_strlit("4");
        reveal_strlit("5");
        reveal_strlit("6");
        reveal_strlit("7");
        reveal_strlit("8");
        reveal_strlit("9");
        reveal_strlit("a");
        reveal_strlit("b");
        reveal_strlit("c");
        reveal_strlit("d");
        reveal_strlit("e");
        reveal_strlit("f");
    }
    match d {
        0 => out.append("0"),
        1 => out.append("1"),
        2 => out.append("2"),
        3 => out.append("3"),
        4 => out.append("4"),
        5 => out.append("5"),
        6 => out.append("6"),
        7 => out.append("7"),
        8 => out.append("8"),
        9 => out.append("9"),
        10 => out.append("a"),
        11 => out.append("b"),
        12 => out.append("c"),
        13 => out.append("d"),
        14 => out.append("e"),
        _ => out.append("f"),
    }
    proof {
        assert(out@ =~= old(out)@ + seq![hex_char(d as nat)]);
    }
}

/// Appends `n` rendered in exactly `w` hexadecimal digits to `out`.
pub fn append_hex(out: &mut String, n: u64, w: u8)
    ensures
        final(out)@ == old(out)@ + hex_of_width(n as nat, w as nat),
    decreases w,
{
    if w > 0 {
        append_hex(out, n / 16, w - 1);
        push_hex_digit(out, (n % 16) as u8);
        proof {
            assert(out@ =~= old(out)@ + hex_of_width(n as nat, w as nat));
        }
    } else {
        proof {
            assert(out@ =~= old(out)@ + hex_of_width(n as nat, 0));
        }
    }
}

/// The nibble value of `c`, or `None` if `c` is not a hexadecimal digit.
pub fn parse_hex_digit(c: char) -> (r: Option<u8>)
    ensures
        r is Some <==> is_hex_digit(c),
        r is Some ==> r->Some_0 as nat == hex_val(c),
{
    let u = c as u32;
    if 48 <= u && u <= 57 {
        Some((u - 48) as u8)
    } else if 97 <= u && u <= 102 {
        Some((u - 87) as u8)
    } else {
        None
    }
}

/// Reads the `w` hexadecimal digits of `s` starting at `pos`; `None` if
/// any of those characters is not a hexadecimal digit.
pub fn parse_hex(s: &str, pos: usize, w: usize) -> (r: Option<u64>)
    requires
        pos + w <= s@.len(),
        pos + w <= usize::MAX,
        w <= 16,
    ensures
        r is Some <==> all_hex(s@.subrange(pos as int, pos + w)),
        r is Some ==> r->Some_0 as nat == hex_num(s@.subrange(pos as int, pos + w)),
{
    let ghost whole = s@.subrange(pos as int, pos + w);
    let mut acc: u64 = 0;
    let mut i: usize = 0;
    while i < w
        invariant
            i <= w,
            pos + w <= s@.len(),
            pos + w <= usize::MAX,
            w <= 16,
            whole == s@.subrange(pos as int, pos + w),
            all_hex(s@.subrange(pos as int, pos + i)),
            acc as nat == hex_num(s@.subrange(pos as int, pos + i)),
        decreases w - i,
    {
        let c = s.get_char(pos + i);
        proof {
            assert(s@[pos + i] == whole[i as int]);
        }
        match parse_hex_digit(c) {
            None => {
                proof {
                    assert(!all_hex(whole));
                }
                return None;
            },
            Some(d) => {
                let ghost prefix = s@.subrange(pos as int, pos + i);
                proof {
                    lemma_hex_num_bound(prefix);
                    lemma_pow16_monotone(prefix.len(), 15);
                    assert(pow16(15) * 16 == pow16(16));
                    assert(acc * 16 <= (pow16(15) - 1) * 16) by (nonlinear_arith)
                        requires
                            acc <= pow16(15) - 1,
                    ;
                    reveal_with_fuel(pow16, 17);
                    assert(pow16(16) == 0x10000000000000000);
                }
                acc = acc * 16 + (d as u64);
                proof {
                    let next = s@.subrange(pos as int, pos + i + 1);
                    assert(next.drop_last() =~= prefix);
                    assert(next.last() == c);
                }
                i = i + 1;
            },
        }
    }
    proof {
        assert(s@.subrange(pos as int, pos + i) =~= whole);
    }
    Some(acc)
}

} // verus!

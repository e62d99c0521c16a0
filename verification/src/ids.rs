//! Numeric text: decimal rendering of `u64` values and the canonical
//! hexadecimal form of 128-bit subscription identifiers, together with
//! their parsers and round-trip lemmas.

use vstd::prelude::*;

verus! {

/// ASCII decimal digit.
pub open spec fn is_dec_digit(b: u8) -> bool {
    48 <= b <= 57
}

/// ASCII lowercase hexadecimal digit.
pub open spec fn is_hex_digit(b: u8) -> bool {
    (48 <= b <= 57) || (97 <= b <= 102)
}

/// The decimal digits of `v`, most significant first.
pub open spec fn dec_digits(v: u64) -> Seq<u8>
    decreases v,
{
    if v < 10 {
        seq![(48 + v) as u8]
    } else {
        dec_digits(v / 10) + seq![(48 + v % 10) as u8]
    }
}

/// The number a digit string denotes, read most significant first.
pub open spec fn dec_val(s: Seq<u8>) -> nat
    decreases s.len(),
{
    if s.len() == 0 {
        0
    } else {
        dec_val(s.drop_last()) * 10 + (if is_dec_digit(s.last()) {
            (s.last() - 48) as nat
        } else {
            0
        })
    }
}

pub open spec fn all_dec_digits(s: Seq<u8>) -> bool {
    forall|i: int| 0 <= i < s.len() ==> is_dec_digit(#[trigger] s[i])
}

/// What a digit run parses to: every byte a digit, at least one, value in range.
pub open spec fn dec_parse(s: Seq<u8>) -> Option<u64> {
    if s.len() > 0 && all_dec_digits(s) && dec_val(s) <= u64::MAX {
        Some(dec_val(s) as u64)
    } else {
        None
    }
}

pub proof fn lemma_dec_digits_are_digits(v: u64)
    ensures
        all_dec_digits(dec_digits(v)),
        dec_digits(v).len() >= 1,
    decreases v,
{
    if v >= 10 {
        lemma_dec_digits_are_digits(v / 10);
    }
}

/// Rendering then reading a decimal number gives the number back.
pub proof fn lemma_dec_round_trip(v: u64)
    ensures
        dec_val(dec_digits(v)) == v,
        dec_parse(dec_digits(v)) == Some(v),
    decreases v,
{
    lemma_dec_digits_are_digits(v);
    if v < 10 {
        let s = dec_digits(v);
        assert(s.drop_last() =~= Seq::<u8>::empty());
        assert(dec_val(s.drop_last()) == 0);
        assert(s.last() == (48 + v) as u8);
        assert(is_dec_digit(s.last()));
        assert(dec_val(s) == v);
    } else {
        lemma_dec_round_trip(v / 10);
        let s = dec_digits(v);
        assert(s.drop_last() =~= dec_digits(v / 10));
        assert(dec_val(s) == (v / 10) * 10 + v % 10);
        assert((v / 10) * 10 + v % 10 == v) by (nonlinear_arith);
    }
}

/// Appends the decimal digits of `v`.
pub fn push_dec(out: &mut Vec<u8>, v: u64)
    ensures
        final(out)@ == old(out)@ + dec_digits(v),
    decreases v,
{
    if v < 10 {
        out.push((48 + v as u8));
    } else {
        push_dec(out, v / 10);
        out.push(48 + (v % 10) as u8);
    }
}

/// Reads the digit run `bytes[from..to]` as a decimal number.
pub fn parse_dec(bytes: &Vec<u8>, from: usize, to: usize) -> (r: Option<u64>)
    requires
        from <= to <= bytes@.len(),
    ensures
        r == dec_parse(bytes@.subrange(from as int, to as int)),
{
    if from == to {
        assert(bytes@.subrange(from as int, to as int).len() == 0);
        return None;
    }
    let ghost s = bytes@.subrange(from as int, to as int);
    let mut acc: u64 = 0;
    let mut i: usize = from;
    while i < to
        invariant
            from <= i <= to <= bytes@.len(),
            s == bytes@.subrange(from as int, to as int),
            all_dec_digits(s.subrange(0, i - from)),
            acc == dec_val(s.subrange(0, i - from)),
        decreases to - i,
    {
        let b = bytes[i];
        if b < 48 || b > 57 {
            assert(s[i - from] == b);
            assert(!all_dec_digits(s));
            return None;
        }
        let d = b - 48;
        let acc10 = match acc.checked_mul(10) {
            Some(x) => x,
            None => {
                assert(s.subrange(0, i + 1 - from).drop_last() =~= s.subrange(0, i - from));
                assert(dec_val(s.subrange(0, i + 1 - from)) > u64::MAX);
                proof { lemma_dec_val_prefix_le(s, i + 1 - from as int); }
                return None;
            },
        };
        let acc2 = match acc10.checked_add(d as u64) {
            Some(x) => x,
            None => {
                assert(s.subrange(0, i + 1 - from).drop_last() =~= s.subrange(0, i - from));
                assert(dec_val(s.subrange(0, i + 1 - from)) > u64::MAX);
                proof { lemma_dec_val_prefix_le(s, i + 1 - from as int); }
                return None;
            },
        };
        assert(s.subrange(0, i + 1 - from).drop_last() =~= s.subrange(0, i - from));
        assert(s.subrange(0, i + 1 - from).last() == b);
        acc = acc2;
        i = i + 1;
    }
    assert(s.subrange(0, to - from) =~= s);
    Some(acc)
}

/// A later digit never shrinks the value: a prefix reads at most the whole.
proof fn lemma_dec_val_prefix_le(s: Seq<u8>, n: int)
    requires
        0 <= n <= s.len(),
    ensures
        dec_val(s.subrange(0, n)) <= dec_val(s),
    decreases s.len() - n,
{
    if n < s.len() {
        let t = s.subrange(0, n + 1);
        assert(t.drop_last() =~= s.subrange(0, n));
        assert(dec_val(s.subrange(0, n)) * 10 >= dec_val(s.subrange(0, n))) by (nonlinear_arith);
        lemma_dec_val_prefix_le(s, n + 1);
        assert(s.subrange(0, s.len() as int) =~= s);
    } else {
        assert(s.subrange(0, s.len() as int) =~= s);
    }
}

/// A digit run without a leading zero renders back to itself.
pub proof fn lemma_dec_render_parse(s: Seq<u8>)
    requires
        s.len() >= 1,
        all_dec_digits(s),
        s.len() == 1 || s[0] != 48,
        dec_val(s) <= u64::MAX,
    ensures
        dec_digits(dec_val(s) as u64) == s,
    decreases s.len(),
{
    if s.len() == 1 {
        assert(s.drop_last() =~= Seq::<u8>::empty());
        assert(dec_val(Seq::<u8>::empty()) == 0);
        assert(s.last() == s[0]);
        assert(is_dec_digit(s[0]));
        assert(dec_val(s) == (s[0] - 48) as nat);
        assert(dec_digits(dec_val(s) as u64) =~= s);
    } else {
        let sp = s.drop_last();
        let d = s.last();
        assert(all_dec_digits(sp));
        assert(sp[0] == s[0]);
        lemma_dec_val_positive(sp);
        let vp = dec_val(sp);
        let dv = (d - 48) as nat;
        assert(dec_val(s) == vp * 10 + dv);
        assert(vp * 10 + dv >= 10) by (nonlinear_arith)
            requires
                vp >= 1,
        ;
        assert(vp <= dec_val(s)) by (nonlinear_arith)
            requires
                dec_val(s) == vp * 10 + dv,
        ;
        lemma_dec_render_parse(sp);
        let v = dec_val(s) as u64;
        assert((vp * 10 + dv) / 10 == vp && (vp * 10 + dv) % 10 == dv) by (nonlinear_arith)
            requires
                dv < 10,
        ;
        assert(v / 10 == vp && v % 10 == dv);
        assert(dec_digits(v) == dec_digits(vp as u64) + seq![(48 + v % 10) as u8]);
        assert(dec_digits(v) =~= s);
    }
}

/// A digit run whose first digit is not zero denotes a positive number.
pub proof fn lemma_dec_val_positive(s: Seq<u8>)
    requires
        s.len() >= 1,
        all_dec_digits(s),
        s[0] != 48,
    ensures
        dec_val(s) >= 1,
    decreases s.len(),
{
    if s.len() == 1 {
        assert(dec_val(s.drop_last()) == 0);
    } else {
        let sp = s.drop_last();
        assert(sp[0] == s[0]);
        lemma_dec_val_positive(sp);
        assert(dec_val(sp) * 10 >= 10) by (nonlinear_arith)
            requires
                dec_val(sp) >= 1,
        ;
    }
}

/// A hexadecimal run renders back to itself at its own width.
pub proof fn lemma_hex_render_parse(s: Seq<u8>)
    requires
        all_hex_digits(s),
        s.len() <= 32,
    ensures
        hex_val(s) < pow16(s.len()),
        hex_digits(hex_val(s) as u128, s.len()) == s,
    decreases s.len(),
{
    if s.len() == 0 {
        assert(hex_digits(0, 0) =~= s);
    } else {
        let sp = s.drop_last();
        let d = s.last();
        assert(all_hex_digits(sp));
        lemma_hex_render_parse(sp);
        let vp = hex_val(sp);
        let dv = hex_digit_val(d);
        assert(dv < 16);
        assert(hex_val(s) == vp * 16 + dv);
        lemma_pow16_pos((s.len() - 1) as nat);
        assert(vp * 16 + dv < 16 * pow16((s.len() - 1) as nat)) by (nonlinear_arith)
            requires
                vp < pow16((s.len() - 1) as nat),
                dv < 16,
        ;
        lemma_pow16_bound(s.len() as nat);
        lemma_pow16_mono(s.len() as nat, 32);
        assert(hex_val(s) < 0x1_0000_0000_0000_0000_0000_0000_0000_0000);
        let v = hex_val(s) as u128;
        assert(v == vp * 16 + dv);
        assert((vp * 16 + dv) / 16 == vp && (vp * 16 + dv) % 16 == dv) by (nonlinear_arith)
            requires
                dv < 16,
        ;
        assert(v / 16 == vp && v % 16 == dv);
        assert(is_hex_digit(d));
        assert(hex_digit((v % 16) as u8) == d);
        assert(hex_digits(v, s.len()) == hex_digits(vp as u128, (s.len() - 1) as nat) + seq![
            hex_digit((v % 16) as u8),
        ]);
        assert(hex_digits(v, s.len()) =~= s);
    }
}

/// A multi-digit rendering never starts with zero.
pub proof fn lemma_dec_no_leading_zero(v: u64)
    ensures
        dec_digits(v).len() >= 2 ==> dec_digits(v)[0] != 48,
    decreases v,
{
    if v >= 10 {
        let w = v / 10;
        lemma_dec_no_leading_zero(w);
        lemma_dec_digits_are_digits(w);
        assert(dec_digits(v)[0] == dec_digits(w)[0]);
        if w < 10 {
            assert(w >= 1);
            assert(dec_digits(w) =~= seq![(48 + w) as u8]);
            assert(dec_digits(w)[0] == (48 + w) as u8);
        } else {
            lemma_dec_digits_are_digits(w / 10);
            assert(dec_digits(w).len() >= 2);
        }
    }
}

/// The full 32-digit rendering of a 128-bit value reads back to the
/// value itself.
pub proof fn lemma_uuid_value(v: u128)
    ensures
        hex_val(hex_digits(v, 32)) == v,
{
    lemma_hex_round_trip(v, 32);
    let m: nat = 0x1_0000_0000_0000_0000_0000_0000_0000_0000nat;
    assert(pow16(32) == m) by {
        reveal_with_fuel(pow16, 33);
    }
    vstd::arithmetic::div_mod::lemma_small_mod(v as nat, m);
}

/// Sixteen to the power `n`.
pub open spec fn pow16(n: nat) -> nat
    decreases n,
{
    if n == 0 {
        1
    } else {
        16 * pow16((n - 1) as nat)
    }
}

/// The ASCII byte of one hexadecimal digit, lowercase.
pub open spec fn hex_digit(n: u8) -> u8 {
    if n < 10 {
        (48 + n) as u8
    } else {
        (87 + n) as u8
    }
}

/// The low `n` hexadecimal digits of `v`, most significant first.
pub open spec fn hex_digits(v: u128, n: nat) -> Seq<u8>
    decreases n,
{
    if n == 0 {
        Seq::empty()
    } else {
        hex_digits(v / 16, (n - 1) as nat) + seq![hex_digit((v % 16) as u8)]
    }
}

/// The value a lowercase hexadecimal digit denotes.
pub open spec fn hex_digit_val(b: u8) -> nat {
    if 48 <= b <= 57 {
        (b - 48) as nat
    } else if 97 <= b <= 102 {
        (b - 87) as nat
    } else {
        0
    }
}

pub open spec fn hex_val(s: Seq<u8>) -> nat
    decreases s.len(),
{
    if s.len() == 0 {
        0
    } else {
        hex_val(s.drop_last()) * 16 + hex_digit_val(s.last())
    }
}

pub open spec fn all_hex_digits(s: Seq<u8>) -> bool {
    forall|i: int| 0 <= i < s.len() ==> is_hex_digit(#[trigger] s[i])
}

pub proof fn lemma_hex_digits_are_digits(v: u128, n: nat)
    ensures
        all_hex_digits(hex_digits(v, n)),
        hex_digits(v, n).len() == n,
    decreases n,
{
    if n > 0 {
        lemma_hex_digits_are_digits(v / 16, (n - 1) as nat);
    }
}

/// Rendering then reading `n` hexadecimal digits recovers `v` modulo 16^n.
pub proof fn lemma_hex_round_trip(v: u128, n: nat)
    ensures
        hex_val(hex_digits(v, n)) == (v as nat) % pow16(n),
    decreases n,
{
    lemma_pow16_pos(n);
    if n == 0 {
        assert((v as nat) % 1 == 0) by (nonlinear_arith);
    } else {
        lemma_hex_round_trip(v / 16, (n - 1) as nat);
        lemma_pow16_pos((n - 1) as nat);
        let s = hex_digits(v, n);
        assert(s.drop_last() =~= hex_digits(v / 16, (n - 1) as nat));
        assert(hex_digit_val(hex_digit((v % 16) as u8)) == v % 16);
        let p = pow16((n - 1) as nat) as int;
        vstd::arithmetic::div_mod::lemma_mod_breakdown(v as int, 16, p);
        assert((v as int) % (16 * p) == 16 * (((v as int) / 16) % p) + (v as int) % 16);
        assert((v / 16) as int == (v as int) / 16);
        assert((v % 16) as int == (v as int) % 16);
        assert(((v / 16) as nat) % pow16((n - 1) as nat) == ((v as int) / 16) % p);
        assert(hex_val(s) == (((v as int) / 16) % p) * 16 + (v as int) % 16);
        assert(pow16(n) as int == 16 * p);
    }
}

pub proof fn lemma_pow16_pos(n: nat)
    ensures
        pow16(n) >= 1,
    decreases n,
{
    if n > 0 {
        lemma_pow16_pos((n - 1) as nat);
    }
}

/// Appends the low `n` hexadecimal digits of `v`, lowercase.
pub fn push_hex(out: &mut Vec<u8>, v: u128, n: u32)
    ensures
        final(out)@ == old(out)@ + hex_digits(v, n as nat),
    decreases n,
{
    if n == 0 {
        assert(out@ =~= old(out)@ + hex_digits(v, 0));
    } else {
        push_hex(out, v / 16, n - 1);
        let d = (v % 16) as u8;
        if d < 10 {
            out.push(48 + d);
        } else {
            out.push(87 + d);
        }
        assert(out@ =~= old(out)@ + hex_digits(v, n as nat));
    }
}

/// Reads `bytes[from..to]` as lowercase hexadecimal; `None` on any other byte.
pub fn parse_hex(bytes: &Vec<u8>, from: usize, to: usize) -> (r: Option<u128>)
    requires
        from <= to <= bytes@.len(),
        to - from <= 32,
    ensures
        match r {
            Some(v) => all_hex_digits(bytes@.subrange(from as int, to as int)) && v == hex_val(
                bytes@.subrange(from as int, to as int),
            ),
            None => !all_hex_digits(bytes@.subrange(from as int, to as int)),
        },
{
    let ghost s = bytes@.subrange(from as int, to as int);
    let mut acc: u128 = 0;
    let mut i: usize = from;
    while i < to
        invariant
            from <= i <= to <= bytes@.len(),
            to - from <= 32,
            s == bytes@.subrange(from as int, to as int),
            all_hex_digits(s.subrange(0, i - from)),
            acc == hex_val(s.subrange(0, i - from)),
            acc < pow16((i - from) as nat),
        decreases to - i,
    {
        let b = bytes[i];
        let d: u8 = if 48 <= b && b <= 57 {
            b - 48
        } else if 97 <= b && b <= 102 {
            b - 87
        } else {
            assert(s[i - from] == b);
            assert(!all_hex_digits(s));
            return None;
        };
        proof {
            lemma_pow16_bound((i - from) as nat);
            lemma_pow16_bound((i + 1 - from) as nat);
            assert(acc * 16 + d < pow16((i + 1 - from) as nat)) by (nonlinear_arith)
                requires
                    acc < pow16((i - from) as nat),
                    d < 16,
                    pow16((i + 1 - from) as nat) == 16 * pow16((i - from) as nat),
            ;
        }
        let acc2 = acc * 16 + d as u128;
        assert(s.subrange(0, i + 1 - from).drop_last() =~= s.subrange(0, i - from));
        assert(s.subrange(0, i + 1 - from).last() == b);
        acc = acc2;
        i = i + 1;
    }
    assert(s.subrange(0, to - from) =~= s);
    Some(acc)
}

/// 16^n fits a `u128` while `n` is at most 32.
proof fn lemma_pow16_bound(n: nat)
    ensures
        n <= 32 ==> pow16(n) <= 0x1_0000_0000_0000_0000_0000_0000_0000_0000,
        pow16((n + 1) as nat) == 16 * pow16(n),
{
    lemma_pow16_mono(n, 32);
    assert(pow16(32) == 0x1_0000_0000_0000_0000_0000_0000_0000_0000) by {
        reveal_with_fuel(pow16, 33);
    }
}

proof fn lemma_pow16_mono(a: nat, b: nat)
    ensures
        a <= b ==> pow16(a) <= pow16(b),
    decreases b,
{
    if a < b {
        lemma_pow16_mono(a, (b - 1) as nat);
        lemma_pow16_pos((b - 1) as nat);
    }
}

} // verus!

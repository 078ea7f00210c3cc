//! Fixed-width lowercase hexadecimal digits.

use vstd::prelude::*;

verus! {

/// Value of one hexadecimal digit, or -1 when `c` is no digit.
pub open spec fn digit_value(c: char) -> int {
    if '0' <= c && c <= '9' {
        c as int - '0' as int
    } else if 'a' <= c && c <= 'f' {
        c as int - 'a' as int + 10
    } else if 'A' <= c && c <= 'F' {
        c as int - 'A' as int + 10
    } else {
        -1
    }
}

/// A lowercase hexadecimal digit.
pub open spec fn is_lower_hex(c: char) -> bool {
    ('0' <= c && c <= '9') || ('a' <= c && c <= 'f')
}

pub open spec fn all_lower_hex(s: Seq<char>) -> bool {
    forall|i: int| 0 <= i < s.len() ==> is_lower_hex(#[trigger] s[i])
}

/// The lowercase digit for `d` in `0..16`.
pub open spec fn digit_char(d: int) -> char {
    if d < 10 {
        ('0' as int + d) as char
    } else {
        ('a' as int + d - 10) as char
    }
}

/// Value of a digit string, most significant digit first.
pub open spec fn hex_value(s: Seq<char>) -> nat
    decreases s.len(),
{
    if s.len() == 0 {
        0
    } else {
        hex_value(s.drop_last()) * 16 + digit_value(s.last()) as nat
    }
}

/// The `n` lowest digits of `v`, most significant first, zero-padded.
pub open spec fn hex_fixed(v: nat, n: nat) -> Seq<char>
    decreases n,
{
    if n == 0 {
        Seq::empty()
    } else {
        hex_fixed(v / 16, (n - 1) as nat).push(digit_char((v % 16) as int))
    }
}

pub open spec fn pow16(n: nat) -> nat
    decreases n,
{
    if n == 0 {
        1
    } else {
        16 * pow16((n - 1) as nat)
    }
}

pub proof fn lemma_digit_char(d: int)
    requires
        0 <= d < 16,
    ensures
        is_lower_hex(digit_char(d)),
        digit_value(digit_char(d)) == d,
{
}

pub proof fn lemma_hex_fixed_shape(v: nat, n: nat)
    ensures
        hex_fixed(v, n).len() == n,
        all_lower_hex(hex_fixed(v, n)),
    decreases n,
{
    if n > 0 {
        lemma_hex_fixed_shape(v / 16, (n - 1) as nat);
        lemma_digit_char((v % 16) as int);
    }
}

pub proof fn lemma_hex_value_bound(s: Seq<char>)
    requires
        all_lower_hex(s),
    ensures
        hex_value(s) < pow16(s.len()),
    decreases s.len(),
{
    if s.len() > 0 {
        let p = s.drop_last();
        assert(all_lower_hex(p)) by {
            assert forall|i: int| 0 <= i < p.len() implies is_lower_hex(#[trigger] p[i]) by {
                assert(p[i] == s[i]);
            }
        }
        lemma_hex_value_bound(p);
        assert(is_lower_hex(s[s.len() - 1]));
        let a = hex_value(p);
        let d = digit_value(s.last());
        let b = pow16(p.len());
        assert(a * 16 + d < 16 * b) by (nonlinear_arith)
            requires
                a < b,
                0 <= d < 16,
        ;
    }
}

/// Writing `v` with `n` digits and reading the digits back gives `v`.
pub proof fn lemma_hex_round_trip(v: nat, n: nat)
    requires
        v < pow16(n),
    ensures
        hex_value(hex_fixed(v, n)) == v,
    decreases n,
{
    if n > 0 {
        let m = (n - 1) as nat;
        let b = pow16(m);
        assert(v / 16 < b) by (nonlinear_arith)
            requires
                v < 16 * b,
        ;
        lemma_hex_round_trip(v / 16, m);
        lemma_digit_char((v % 16) as int);
        let s = hex_fixed(v, n);
        assert(s.drop_last() =~= hex_fixed(v / 16, m));
    }
}

pub proof fn lemma_pow16_32()
    ensures
        pow16(32) == 0x1_0000_0000_0000_0000_0000_0000_0000_0000,
        pow16(16) == 0x1_0000_0000_0000_0000,
        pow16(2) == 0x100,
{
    reveal_with_fuel(pow16, 33);
}

/// The lowercase digit for `d`.
pub fn digit_to_char(d: u8) -> (c: char)
    requires
        d < 16,
    ensures
        c == digit_char(d as int),
{
    if d < 10 {
        (d + 48) as char
    } else {
        (d + 87) as char
    }
}

/// Appends the `n` lowest hexadecimal digits of `v` to `out`.
pub fn push_hex(out: &mut Vec<char>, v: u128, n: usize)
    ensures
        final(out)@ == old(out)@ + hex_fixed(v as nat, n as nat),
{
    let mut digits: Vec<char> = Vec::new();
    let mut x: u128 = v;
    let mut k: usize = 0;
    while k < n
        invariant
            k <= n,
            hex_fixed(v as nat, n as nat) == hex_fixed(x as nat, (n - k) as nat) + digits@,
        decreases n - k,
    {
        let d = (x % 16) as u8;
        let c = digit_to_char(d);
        proof {
            let m = (n - k - 1) as nat;
            assert(hex_fixed(x as nat, (n - k) as nat) == hex_fixed((x / 16) as nat, m).push(c));
            assert(hex_fixed((x / 16) as nat, m).push(c) + digits@ =~= hex_fixed(
                (x / 16) as nat,
                m,
            ) + seq![c].add(digits@));
        }
        digits.insert(0, c);
        x = x / 16;
        k = k + 1;
    }
    assert(digits@ =~= hex_fixed(v as nat, n as nat));
    let mut j: usize = 0;
    let ghost start = out@;
    while j < digits.len()
        invariant
            j <= digits@.len(),
            out@ == start + digits@.subrange(0, j as int),
        decreases digits@.len() - j,
    {
        out.push(digits[j]);
        j = j + 1;
        assert(out@ =~= start + digits@.subrange(0, j as int));
    }
    assert(digits@.subrange(0, j as int) =~= digits@);
}

/// Reads the `len` characters of `s` from `from` as lowercase hexadecimal.
pub fn parse_lower_hex(s: &str, from: usize, len: usize) -> (r: Option<u128>)
    requires
        from + len <= s@.len(),
        from + len <= usize::MAX,
        len <= 32,
    ensures
        r.is_some() == all_lower_hex(s@.subrange(from as int, from + len)),
        r.is_some() ==> r.unwrap() as nat == hex_value(s@.subrange(from as int, from + len)),
{
    let ghost t = s@.subrange(from as int, from + len);
    let mut acc: u128 = 0;
    let mut k: usize = 0;
    while k < len
        invariant
            k <= len <= 32,
            from + len <= s@.len(),
            from + len <= usize::MAX,
            t == s@.subrange(from as int, from + len),
            all_lower_hex(t.subrange(0, k as int)),
            acc as nat == hex_value(t.subrange(0, k as int)),
        decreases len - k,
    {
        let c = s.get_char(from + k);
        assert(c == t[k as int]);
        if !(('0' <= c && c <= '9') || ('a' <= c && c <= 'f')) {
            assert(!all_lower_hex(t));
            return None;
        }
        let d: u128 = if c <= '9' {
            (c as u32 - 48) as u128
        } else {
            (c as u32 - 87) as u128
        };
        let ghost p = t.subrange(0, k as int);
        let ghost q = t.subrange(0, k + 1);
        proof {
            lemma_hex_value_bound(p);
            assert(q.drop_last() =~= p);
            assert(pow16(k as nat) <= pow16(31)) by {
                lemma_pow16_mono(k as nat, 31);
            }
            lemma_pow16_32();
            reveal_with_fuel(pow16, 33);
            assert(acc * 16 + d < 0x1_0000_0000_0000_0000_0000_0000_0000_0000) by (nonlinear_arith)
                requires
                    acc < pow16(k as nat),
                    pow16(k as nat) <= pow16(31),
                    pow16(31) * 16 == 0x1_0000_0000_0000_0000_0000_0000_0000_0000,
                    d < 16,
            ;
            assert forall|i: int| 0 <= i < q.len() implies is_lower_hex(#[trigger] q[i]) by {
                if i < k {
                    assert(q[i] == p[i]);
                }
            }
        }
        acc = acc * 16 + d;
        k = k + 1;
    }
    assert(t.subrange(0, len as int) =~= t);
    Some(acc)
}

pub proof fn lemma_pow16_mono(a: nat, b: nat)
    requires
        a <= b,
    ensures
        pow16(a) <= pow16(b),
    decreases b,
{
    if a < b {
        lemma_pow16_mono(a, (b - 1) as nat);
    }
}

} // verus!

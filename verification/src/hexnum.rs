//! Fixed-width hexadecimal codec for 64-bit numbers.
//!
//! Numeric fields are written as exactly sixteen lowercase hex digits, so
//! every `u64` has one canonical textual form and every sixteen-digit hex
//! string denotes exactly one `u64`.

use vstd::arithmetic::div_mod::lemma_fundamental_div_mod;
use vstd::arithmetic::div_mod::lemma_fundamental_div_mod_converse;
use vstd::prelude::*;

verus! {

/// The ASCII digit for one nibble: `0`..`9` then `a`..`f`.
pub open spec fn hex_digit(d: u8) -> u8 {
    if d < 10 {
        (48 + d) as u8
    } else {
        (87 + d) as u8
    }
}

/// Sixteen to the power `k`.
pub open spec fn pow16(k: nat) -> nat
    decreases k,
{
    if k == 0 {
        1
    } else {
        16 * pow16((k - 1) as nat)
    }
}

/// The `width` least significant nibbles of `n`, most significant first.
pub open spec fn hex_enc(n: nat, width: nat) -> Seq<u8>
    decreases width,
{
    if width == 0 {
        Seq::empty()
    } else {
        hex_enc(n / 16, (width - 1) as nat) + seq![hex_digit((n % 16) as u8)]
    }
}

/// The canonical sixteen-digit form of a `u64`.
pub open spec fn hex16(n: u64) -> Seq<u8> {
    hex_enc(n as nat, 16)
}

pub proof fn lemma_hex_enc_len(n: nat, width: nat)
    ensures
        hex_enc(n, width).len() == width,
    decreases width,
{
    if width > 0 {
        lemma_hex_enc_len(n / 16, (width - 1) as nat);
    }
}

/// Every character of an encoding is a lowercase hex digit.
pub proof fn lemma_hex_enc_chars(n: nat, width: nat)
    ensures
        forall|k: int|
            0 <= k < hex_enc(n, width).len() ==> (48 <= #[trigger] hex_enc(n, width)[k] <= 57 || 97
                <= hex_enc(n, width)[k] <= 102),
    decreases width,
{
    if width > 0 {
        lemma_hex_enc_chars(n / 16, (width - 1) as nat);
        lemma_hex_enc_len(n / 16, (width - 1) as nat);
        assert(0 <= n % 16 < 16);
        assert forall|k: int| 0 <= k < hex_enc(n, width).len() implies (48 <= #[trigger] hex_enc(
            n,
            width,
        )[k] <= 57 || 97 <= hex_enc(n, width)[k] <= 102) by {
            if k < width - 1 {
                assert(hex_enc(n, width)[k] == hex_enc(n / 16, (width - 1) as nat)[k]);
            } else {
                assert(hex_enc(n, width)[k] == hex_digit((n % 16) as u8));
            }
        }
    }
}

pub proof fn lemma_pow16_increases(i: nat, j: nat)
    requires
        i <= j,
    ensures
        pow16(i) <= pow16(j),
    decreases j,
{
    if i < j {
        lemma_pow16_increases(i, (j - 1) as nat);
    }
}

/// Two numbers below `16^width` with the same encoding are equal.
pub proof fn lemma_hex_enc_injective(n: nat, m: nat, width: nat)
    requires
        n < pow16(width),
        m < pow16(width),
        hex_enc(n, width) == hex_enc(m, width),
    ensures
        n == m,
    decreases width,
{
    if width == 0 {
        assert(n == 0 && m == 0);
    } else {
        let w1 = (width - 1) as nat;
        lemma_hex_enc_len(n / 16, w1);
        lemma_hex_enc_len(m / 16, w1);
        let en = hex_enc(n, width);
        let em = hex_enc(m, width);
        assert(en[width - 1] == hex_digit((n % 16) as u8));
        assert(em[width - 1] == hex_digit((m % 16) as u8));
        assert(n % 16 == m % 16) by {
            let dn = (n % 16) as u8;
            let dm = (m % 16) as u8;
            assert(hex_digit(dn) == hex_digit(dm));
            assert(dn < 16 && dm < 16);
        }
        assert(hex_enc(n / 16, w1) =~= hex_enc(m / 16, w1)) by {
            assert forall|k: int| 0 <= k < w1 implies #[trigger] hex_enc(n / 16, w1)[k] == hex_enc(
                m / 16,
                w1,
            )[k] by {
                assert(hex_enc(n / 16, w1)[k] == en[k]);
                assert(hex_enc(m / 16, w1)[k] == em[k]);
            }
        }
        assert(n / 16 < pow16(w1) && m / 16 < pow16(w1)) by (nonlinear_arith)
            requires
                n < 16 * pow16(w1),
                m < 16 * pow16(w1),
        ;
        lemma_hex_enc_injective(n / 16, m / 16, w1);
        lemma_fundamental_div_mod(n as int, 16);
        lemma_fundamental_div_mod(m as int, 16);
    }
}

/// `16^16` is one more than `u64::MAX`.
pub proof fn lemma_pow16_16()
    ensures
        pow16(16) == 0x10000000000000000,
{
    reveal_with_fuel(pow16, 17);
    assert(pow16(16) == 0x10000000000000000);
}

fn hex_digit_exec(d: u8) -> (r: u8)
    requires
        d < 16,
    ensures
        r == hex_digit(d),
{
    if d < 10 {
        48 + d
    } else {
        87 + d
    }
}

fn encode_hex_rec(n: u64, width: usize) -> (r: Vec<u8>)
    ensures
        r@ == hex_enc(n as nat, width as nat),
    decreases width,
{
    if width == 0 {
        Vec::new()
    } else {
        let mut r = encode_hex_rec(n / 16, width - 1);
        let d = (n % 16) as u8;
        r.push(hex_digit_exec(d));
        assert(r@ =~= hex_enc((n / 16) as nat, (width - 1) as nat) + seq![hex_digit(d)]);
        assert((n as nat) / 16 == (n / 16) as nat);
        assert((n as nat) % 16 == (n % 16) as nat);
        r
    }
}

/// Writes `n` as its canonical sixteen-digit hex form.
pub fn encode_hex16(n: u64) -> (r: Vec<u8>)
    ensures
        r@ == hex16(n),
{
    encode_hex_rec(n, 16)
}

/// Reads the sixteen hex digits of `b` at `from`. Returns `Some(n)` exactly
/// when those bytes are the canonical form of `n`, and `None` when no `u64`
/// encodes to them.
pub fn parse_hex16(b: &[u8], from: usize) -> (r: Option<u64>)
    requires
        from + 16 <= b@.len(),
    ensures
        match r {
            Some(n) => b@.subrange(from as int, from as int + 16) == hex16(n),
            None => forall|m: u64| hex16(m) != b@.subrange(from as int, from as int + 16),
        },
{
    let ghost sub = b@.subrange(from as int, from as int + 16);
    let blen = b.len();
    let mut acc: u64 = 0;
    let mut i: usize = 0;
    proof {
        lemma_pow16_16();
        assert(hex_enc(0, 0) =~= sub.subrange(0, 0));
    }
    while i < 16
        invariant
            from + 16 <= b@.len(),
            blen == b@.len(),
            i <= 16,
            sub == b@.subrange(from as int, from as int + 16),
            acc < pow16(i as nat),
            hex_enc(acc as nat, i as nat) == sub.subrange(0, i as int),
            pow16(16) == 0x10000000000000000,
        decreases 16 - i,
    {
        let c = b[from + i];
        let d: u8 = if 48 <= c && c <= 57 {
            c - 48
        } else if 97 <= c && c <= 102 {
            c - 87
        } else {
            proof {
                assert forall|m: u64| hex16(m) != sub by {
                    lemma_hex_enc_chars(m as nat, 16);
                    lemma_hex_enc_len(m as nat, 16);
                    if hex16(m) == sub {
                        assert(hex16(m)[i as int] == sub[i as int]);
                        assert(sub[i as int] == c);
                    }
                }
            }
            return None;
        };
        assert(d < 16 && hex_digit(d) == c);
        proof {
            lemma_pow16_increases(i as nat, 15nat);
            assert(pow16(16nat) == 16 * pow16(15nat));
            assert(acc * 16 + (d as u64) < 0x10000000000000000) by (nonlinear_arith)
                requires
                    acc < pow16(15nat),
                    16 * pow16(15nat) == 0x10000000000000000,
                    d < 16,
            ;
            assert(16 * pow16(i as nat) == pow16((i + 1) as nat));
            assert(acc * 16 + (d as u64) < 16 * pow16(i as nat)) by (nonlinear_arith)
                requires
                    acc < pow16(i as nat),
                    d < 16,
            ;
        }
        let next: u64 = acc * 16 + (d as u64);
        proof {
            lemma_fundamental_div_mod_converse(next as int, 16, acc as int, d as int);
            assert(hex_enc(next as nat, (i + 1) as nat) == hex_enc(acc as nat, i as nat) + seq![
                hex_digit(d),
            ]);
            assert(hex_enc(next as nat, (i + 1) as nat) =~= sub.subrange(0, i as int + 1)) by {
                lemma_hex_enc_len(acc as nat, i as nat);
                assert(sub.subrange(0, i as int + 1) =~= sub.subrange(0, i as int) + seq![
                    sub[i as int],
                ]);
                assert(sub[i as int] == c);
            }
        }
        acc = next;
        i += 1;
    }
    proof {
        assert(sub.subrange(0, 16) =~= sub);
        assert(hex16(acc) == sub);
        assert forall|m: u64| hex16(m) == sub implies m == acc by {
            lemma_hex_enc_injective(m as nat, acc as nat, 16);
        }
    }
    Some(acc)
}

} // verus!

//! Deterministic authentication tokens for registered devices.
//!
//! A token is derived from the device's identifier and a process-wide
//! secret: the secret folds to a 64-bit mixing key, and the token spells
//! the identifier blended with that key as sixteen lowercase hexadecimal
//! digits. The derivation is reproducible only with the secret, and under
//! one secret distinct identifiers always yield distinct tokens.

use crate::snowflake::{IdGenerator, Snowflake};
use vstd::prelude::*;

verus! {

/// One folding step of the secret into the mixing key, with wrapping
/// 64-bit arithmetic.
pub open spec fn mix_step(acc: u64, b: u8) -> u64 {
    vstd::wrapping::u64_specs::wrapping_add(
        vstd::wrapping::u64_specs::wrapping_mul(acc, 31),
        b as u64,
    )
}

/// The mixing key a secret folds to.
pub open spec fn key_of(secret: Seq<u8>) -> u64
    decreases secret.len(),
{
    if secret.len() == 0 {
        0
    } else {
        mix_step(key_of(secret.drop_last()), secret.last())
    }
}

/// The lowercase hexadecimal digit for a value below sixteen.
pub open spec fn hex_char(d: u64) -> char
    recommends
        d < 16,
{
    if d == 0 {
        '0'
    } else if d == 1 {
        '1'
    } else if d == 2 {
        '2'
    } else if d == 3 {
        '3'
    } else if d == 4 {
        '4'
    } else if d == 5 {
        '5'
    } else if d == 6 {
        '6'
    } else if d == 7 {
        '7'
    } else if d == 8 {
        '8'
    } else if d == 9 {
        '9'
    } else if d == 10 {
        'a'
    } else if d == 11 {
        'b'
    } else if d == 12 {
        'c'
    } else if d == 13 {
        'd'
    } else if d == 14 {
        'e'
    } else {
        'f'
    }
}

/// The nibble of `v` at digit position `i`, counting from the most
/// significant of sixteen.
pub open spec fn nibble(v: u64, i: int) -> u64
    recommends
        0 <= i < 16,
{
    (v >> ((60 - 4 * i) as u64)) & 0xf
}

/// The sixteen-digit lowercase hexadecimal rendering of a 64-bit value.
pub open spec fn hex16(v: u64) -> Seq<char> {
    Seq::new(16, |i: int| hex_char(nibble(v, i)))
}

/// What a device's token spells: the identifier blended with the
/// secret's mixing key.
pub open spec fn token_chars(id: u64, key: u64) -> Seq<char> {
    hex16(id ^ key)
}

/// Folds the shared secret into the 64-bit mixing key.
#[verifier::loop_isolation(false)]
pub fn derive_key(secret: &[u8]) -> (k: u64)
    ensures
        k == key_of(secret@),
{
    let mut acc: u64 = 0;
    let n = secret.len();
    let mut i: usize = 0;
    proof {
        assert(secret@.take(0) =~= Seq::<u8>::empty());
    }
    while i < n
        invariant
            i <= n,
            acc == key_of(secret@.take(i as int)),
        decreases n - i,
    {
        acc = acc.wrapping_mul(31).wrapping_add(secret[i] as u64);
        proof {
            assert(secret@.take(i + 1).drop_last() =~= secret@.take(i as int));
            assert(secret@.take(i + 1).last() == secret@[i as int]);
        }
        i = i + 1;
    }
    proof {
        assert(secret@.take(n as int) =~= secret@);
    }
    acc
}

/// The one-character rendering of a hexadecimal digit.
fn hex_digit_str(d: u64) -> (r: &'static str)
    requires
        d < 16,
    ensures
        r@ == seq![hex_char(d)],
{
    if d == 0 {
        proof {
            reveal_strlit("0");
            assert("0"@ =~= seq![hex_char(d)]);
        }
        "0"
    } else if d == 1 {
        proof {
            reveal_strlit("1");
            assert("1"@ =~= seq![hex_char(d)]);
        }
        "1"
    } else if d == 2 {
        proof {
            reveal_strlit("2");
            assert("2"@ =~= seq![hex_char(d)]);
        }
        "2"
    } else if d == 3 {
        proof {
            reveal_strlit("3");
            assert("3"@ =~= seq![hex_char(d)]);
        }
        "3"
    } else if d == 4 {
        proof {
            reveal_strlit("4");
            assert("4"@ =~= seq![hex_char(d)]);
        }
        "4"
    } else if d == 5 {
        proof {
            reveal_strlit("5");
            assert("5"@ =~= seq![hex_char(d)]);
        }
        "5"
    } else if d == 6 {
        proof {
            reveal_strlit("6");
            assert("6"@ =~= seq![hex_char(d)]);
        }
        "6"
    } else if d == 7 {
        proof {
            reveal_strlit("7");
            assert("7"@ =~= seq![hex_char(d)]);
        }
        "7"
    } else if d == 8 {
        proof {
            reveal_strlit("8");
            assert("8"@ =~= seq![hex_char(d)]);
        }
        "8"
    } else if d == 9 {
        proof {
            reveal_strlit("9");
            assert("9"@ =~= seq![hex_char(d)]);
        }
        "9"
    } else if d == 10 {
        proof {
            reveal_strlit("a");
            assert("a"@ =~= seq![hex_char(d)]);
        }
        "a"
    } else if d == 11 {
        proof {
            reveal_strlit("b");
            assert("b"@ =~= seq![hex_char(d)]);
        }
        "b"
    } else if d == 12 {
        proof {
            reveal_strlit("c");
            assert("c"@ =~= seq![hex_char(d)]);
        }
        "c"
    } else if d == 13 {
        proof {
            reveal_strlit("d");
            assert("d"@ =~= seq![hex_char(d)]);
        }
        "d"
    } else if d == 14 {
        proof {
            reveal_strlit("e");
            assert("e"@ =~= seq![hex_char(d)]);
        }
        "e"
    } else {
        proof {
            reveal_strlit("f");
            assert("f"@ =~= seq![hex_char(d)]);
        }
        "f"
    }
}

/// Renders the sixteen hexadecimal digits of a value, high nibble first.
#[verifier::loop_isolation(false)]
fn hex16_string(v: u64) -> (s: String)
    ensures
        s@ == hex16(v),
{
    let mut s = String::new();
    let mut i: usize = 0;
    proof {
        assert(s@ =~= hex16(v).take(0));
    }
    while i < 16
        invariant
            i <= 16,
            s@ == hex16(v).take(i as int),
        decreases 16 - i,
    {
        let sh: u64 = 60 - 4 * (i as u64);
        let d: u64 = (v >> sh) & 0xf;
        proof {
            assert((v >> sh) & 0xfu64 < 16) by (bit_vector);
            assert(d == nibble(v, i as int));
        }
        s.append(hex_digit_str(d));
        proof {
            assert(hex16(v).take(i + 1) =~= hex16(v).take(i as int) + seq![
                hex_char(nibble(v, i as int)),
            ]);
        }
        i = i + 1;
    }
    proof {
        assert(hex16(v).take(16) =~= hex16(v));
    }
    s
}

/// Derives the opaque authentication token for an identifier.
pub fn generate_token(id: Snowflake, secret: &[u8]) -> (t: String)
    ensures
        t@ == token_chars(id.raw, key_of(secret@)),
{
    let key = derive_key(secret);
    hex16_string(id.id() ^ key)
}

/// A masked nibble is always below sixteen.
proof fn lemma_nibble_bound(v: u64, sh: u64)
    by (bit_vector)
    ensures
        (v >> sh) & 0xf < 16,
{
}

/// Law: under one secret, distinct identifiers spell distinct tokens.
pub proof fn lemma_token_injective(id1: u64, id2: u64, key: u64)
    requires
        id1 != id2,
    ensures
        token_chars(id1, key) != token_chars(id2, key),
{
    let v1 = id1 ^ key;
    let v2 = id2 ^ key;
    assert((id1 ^ key) != (id2 ^ key)) by (bit_vector)
        requires
            id1 != id2,
    ;
    if hex16(v1) == hex16(v2) {
        assert forall|i: int| 0 <= i < 16 implies nibble(v1, i) == nibble(v2, i) by {
            assert(hex16(v1)[i] == hex16(v2)[i]);
            lemma_nibble_bound(v1, (60 - 4 * i) as u64);
            lemma_nibble_bound(v2, (60 - 4 * i) as u64);
            assert(hex_char(nibble(v1, i)) == hex_char(nibble(v2, i)));
        }
        assert(nibble(v1, 0) == (v1 >> 60u64) & 0xf);
        assert(nibble(v1, 1) == (v1 >> 56u64) & 0xf);
        assert(nibble(v1, 2) == (v1 >> 52u64) & 0xf);
        assert(nibble(v1, 3) == (v1 >> 48u64) & 0xf);
        assert(nibble(v1, 4) == (v1 >> 44u64) & 0xf);
        assert(nibble(v1, 5) == (v1 >> 40u64) & 0xf);
        assert(nibble(v1, 6) == (v1 >> 36u64) & 0xf);
        assert(nibble(v1, 7) == (v1 >> 32u64) & 0xf);
        assert(nibble(v1, 8) == (v1 >> 28u64) & 0xf);
        assert(nibble(v1, 9) == (v1 >> 24u64) & 0xf);
        assert(nibble(v1, 10) == (v1 >> 20u64) & 0xf);
        assert(nibble(v1, 11) == (v1 >> 16u64) & 0xf);
        assert(nibble(v1, 12) == (v1 >> 12u64) & 0xf);
        assert(nibble(v1, 13) == (v1 >> 8u64) & 0xf);
        assert(nibble(v1, 14) == (v1 >> 4u64) & 0xf);
        assert(nibble(v1, 15) == (v1 >> 0u64) & 0xf);
        assert(nibble(v2, 0) == (v2 >> 60u64) & 0xf);
        assert(nibble(v2, 1) == (v2 >> 56u64) & 0xf);
        assert(nibble(v2, 2) == (v2 >> 52u64) & 0xf);
        assert(nibble(v2, 3) == (v2 >> 48u64) & 0xf);
        assert(nibble(v2, 4) == (v2 >> 44u64) & 0xf);
        assert(nibble(v2, 5) == (v2 >> 40u64) & 0xf);
        assert(nibble(v2, 6) == (v2 >> 36u64) & 0xf);
        assert(nibble(v2, 7) == (v2 >> 32u64) & 0xf);
        assert(nibble(v2, 8) == (v2 >> 28u64) & 0xf);
        assert(nibble(v2, 9) == (v2 >> 24u64) & 0xf);
        assert(nibble(v2, 10) == (v2 >> 20u64) & 0xf);
        assert(nibble(v2, 11) == (v2 >> 16u64) & 0xf);
        assert(nibble(v2, 12) == (v2 >> 12u64) & 0xf);
        assert(nibble(v2, 13) == (v2 >> 8u64) & 0xf);
        assert(nibble(v2, 14) == (v2 >> 4u64) & 0xf);
        assert(nibble(v2, 15) == (v2 >> 0u64) & 0xf);
        assert(false) by (bit_vector)
            requires
                v1 != v2,
                (v1 >> 60u64) & 0xf == (v2 >> 60u64) & 0xf,
                (v1 >> 56u64) & 0xf == (v2 >> 56u64) & 0xf,
                (v1 >> 52u64) & 0xf == (v2 >> 52u64) & 0xf,
                (v1 >> 48u64) & 0xf == (v2 >> 48u64) & 0xf,
                (v1 >> 44u64) & 0xf == (v2 >> 44u64) & 0xf,
                (v1 >> 40u64) & 0xf == (v2 >> 40u64) & 0xf,
                (v1 >> 36u64) & 0xf == (v2 >> 36u64) & 0xf,
                (v1 >> 32u64) & 0xf == (v2 >> 32u64) & 0xf,
                (v1 >> 28u64) & 0xf == (v2 >> 28u64) & 0xf,
                (v1 >> 24u64) & 0xf == (v2 >> 24u64) & 0xf,
                (v1 >> 20u64) & 0xf == (v2 >> 20u64) & 0xf,
                (v1 >> 16u64) & 0xf == (v2 >> 16u64) & 0xf,
                (v1 >> 12u64) & 0xf == (v2 >> 12u64) & 0xf,
                (v1 >> 8u64) & 0xf == (v2 >> 8u64) & 0xf,
                (v1 >> 4u64) & 0xf == (v2 >> 4u64) & 0xf,
                (v1 >> 0u64) & 0xf == (v2 >> 0u64) & 0xf,
        ;
    }
    assert(token_chars(id1, key) == hex16(v1));
    assert(token_chars(id2, key) == hex16(v2));
}

/// Law: any two identifiers one generator ever issued wear distinct
/// tokens under one secret — registering twice, even under the same
/// display name, never repeats a token.
pub proof fn lemma_registration_tokens_distinct(g: IdGenerator, i: int, j: int, key: u64)
    requires
        g.wf(),
        0 <= i < j < g.issued().len(),
    ensures
        token_chars(g.issued()[i], key) != token_chars(g.issued()[j], key),
{
    g.lemma_issued_ids_unique();
    lemma_token_injective(g.issued()[i], g.issued()[j], key);
}

} // verus!

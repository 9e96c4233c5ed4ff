//! Opaque entity identifiers.
//!
//! An identifier is a 96-bit value, rendered to clients as 24 lowercase hex
//! characters. The store mints identifiers from a counter; request paths carry
//! them as hex strings, which are parsed and validated here.

use vstd::prelude::*;

verus! {

/// A 96-bit entity identifier, split into a 32-bit high part and a 64-bit low
/// part. Its canonical text form is 24 lowercase hex characters: 8 for `hi`
/// followed by 16 for `lo`.
#[derive(Clone, Copy, PartialEq, Eq, Structural, Debug, Hash)]
pub struct EntityId {
    pub hi: u32,
    pub lo: u64,
}

/// The hex digits accepted in an identifier: lowercase only.
pub open spec fn is_hex_digit(c: char) -> bool {
    ('0' <= c && c <= '9') || ('a' <= c && c <= 'f')
}

/// Numeric value of one hex digit.
pub open spec fn hex_digit_val(c: char) -> int {
    if '0' <= c && c <= '9' {
        c as int - '0' as int
    } else {
        c as int - 'a' as int + 10
    }
}

/// Value of a big-endian hex digit string.
pub open spec fn hex_seq_val(s: Seq<char>) -> int
    decreases s.len(),
{
    if s.len() == 0 {
        0
    } else {
        hex_seq_val(s.drop_last()) * 16 + hex_digit_val(s.last())
    }
}

pub open spec fn all_hex_digits(s: Seq<char>) -> bool {
    forall|i: int| 0 <= i < s.len() ==> is_hex_digit(#[trigger] s[i])
}

/// 16^n.
pub open spec fn pow16(n: nat) -> int
    decreases n,
{
    if n == 0 {
        1
    } else {
        16 * pow16((n - 1) as nat)
    }
}

/// The identifier denoted by 24 hex digits.
pub open spec fn id_of_hex(s: Seq<char>) -> EntityId {
    EntityId {
        hi: hex_seq_val(s.subrange(0, 8)) as u32,
        lo: hex_seq_val(s.subrange(8, 24)) as u64,
    }
}

/// What parsing an identifier string yields: the id when the string is
/// exactly 24 lowercase hex digits, nothing otherwise.
pub open spec fn parse_id_spec(s: Seq<char>) -> Option<EntityId> {
    if s.len() == 24 && all_hex_digits(s) {
        Some(id_of_hex(s))
    } else {
        None
    }
}

/// Numeric value of one hex digit character, or `None` for any other
/// character.
fn hex_digit_value(c: char) -> (r: Option<u8>)
    ensures
        r is Some <==> is_hex_digit(c),
        r is Some ==> r.unwrap() as int == hex_digit_val(c) && r.unwrap() < 16,
{
    let v = c as u32;
    if v >= '0' as u32 && v <= '9' as u32 {
        Some((v - '0' as u32) as u8)
    } else if v >= 'a' as u32 && v <= 'f' as u32 {
        Some((v - 'a' as u32 + 10) as u8)
    } else {
        None
    }
}

/// Parses a 24-hex-digit identifier string; `None` on any malformed input.
pub fn parse_entity_id(s: &str) -> (r: Option<EntityId>)
    ensures
        r == parse_id_spec(s@),
{
    let n = s.unicode_len();
    if n != 24 {
        return None;
    }
    let mut acc: u64 = 0;
    let mut i: usize = 0;
    while i < 8
        invariant
            s@.len() == 24,
            0 <= i <= 8,
            all_hex_digits(s@.subrange(0, i as int)),
            acc == hex_seq_val(s@.subrange(0, i as int)),
            0 <= acc < pow16(i as nat),
        decreases 8 - i,
    {
        let c = s.get_char(i);
        match hex_digit_value(c) {
            None => {
                assert(!is_hex_digit(s@[i as int]));
                return None;
            },
            Some(d) => {
                proof {
                    lemma_pow16_consts();
                    lemma_pow16_mono(i as nat, 8);
                    let pre = s@.subrange(0, i as int);
                    let ext = s@.subrange(0, i as int + 1);
                    assert(ext.drop_last() =~= pre);
                    assert(ext.last() == s@[i as int]);
                }
                acc = acc * 16 + (d as u64);
                i = i + 1;
            },
        }
    }
    proof {
        lemma_pow16_consts();
    }
    let hi: u32 = acc as u32;
    let mut lo: u64 = 0;
    let mut j: usize = 8;
    while j < 24
        invariant
            s@.len() == 24,
            8 <= j <= 24,
            all_hex_digits(s@.subrange(0, 8)),
            all_hex_digits(s@.subrange(8, j as int)),
            hi == hex_seq_val(s@.subrange(0, 8)),
            lo == hex_seq_val(s@.subrange(8, j as int)),
            0 <= lo < pow16((j - 8) as nat),
        decreases 24 - j,
    {
        let c = s.get_char(j);
        match hex_digit_value(c) {
            None => {
                assert(!is_hex_digit(s@[j as int]));
                return None;
            },
            Some(d) => {
                proof {
                    lemma_pow16_consts();
                    lemma_pow16_mono((j - 8) as nat, 15);
                    let pre = s@.subrange(8, j as int);
                    let ext = s@.subrange(8, j as int + 1);
                    assert(ext.drop_last() =~= pre);
                    assert(ext.last() == s@[j as int]);
                }
                lo = lo * 16 + (d as u64);
                j = j + 1;
            },
        }
    }
    proof {
        assert(forall|k: int| 0 <= k < 8 ==> is_hex_digit(#[trigger] s@[k])) by {
            assert(forall|k: int| 0 <= k < 8 ==> s@[k] == s@.subrange(0, 8)[k]);
        }
        assert(forall|k: int| 8 <= k < 24 ==> is_hex_digit(#[trigger] s@[k])) by {
            assert(forall|k: int| 8 <= k < 24 ==> s@[k] == s@.subrange(8, 24)[k - 8]);
        }
        assert(s@.subrange(0, 8) =~= s@.subrange(0, 24).subrange(0, 8));
        assert(s@.subrange(0, 24) =~= s@);
    }
    Some(EntityId { hi, lo })
}

proof fn lemma_pow16_consts()
    ensures
        pow16(8) == 0x1_0000_0000,
        pow16(15) == 0x1000_0000_0000_0000,
        pow16(16) == 0x1_0000_0000_0000_0000,
{
    reveal_with_fuel(pow16, 17);
}

proof fn lemma_pow16_mono(m: nat, n: nat)
    requires
        m <= n,
    ensures
        pow16(m) <= pow16(n),
        pow16(m) >= 1,
    decreases n,
{
    if m < n {
        lemma_pow16_mono(m, (n - 1) as nat);
    } else if n > 0 {
        lemma_pow16_mono((m - 1) as nat, (n - 1) as nat);
    }
}

} // verus!

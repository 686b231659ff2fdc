//! Reservation identifiers.
//!
//! Persisted reservations are addressed by UUID strings in the canonical
//! hyphenated form. The store mints one fresh id per insert from an
//! insertion counter; minted ids are well-formed and never repeat.

use vstd::prelude::*;

use crate::text::push_char;

verus! {

/// A character is a hexadecimal digit.
pub open spec fn is_hex_char(c: char) -> bool {
    ||| ('0' as u32) <= (c as u32) && (c as u32) <= ('9' as u32)
    ||| ('a' as u32) <= (c as u32) && (c as u32) <= ('f' as u32)
    ||| ('A' as u32) <= (c as u32) && (c as u32) <= ('F' as u32)
}

/// A position at which the canonical hyphenated form carries a hyphen.
pub open spec fn is_hyphen_pos(i: int) -> bool {
    i == 8 || i == 13 || i == 18 || i == 23
}

/// The text has the shape of a canonical hyphenated UUID: 36 characters,
/// hyphens at the four fixed positions, hexadecimal digits everywhere
/// else.
pub open spec fn is_uuid_text(s: Seq<char>) -> bool {
    &&& s.len() == 36
    &&& forall|i: int| 0 <= i < 36 && is_hyphen_pos(i) ==> #[trigger] s[i] == '-'
    &&& forall|i: int| 0 <= i < 36 && !is_hyphen_pos(i) ==> is_hex_char(#[trigger] s[i])
}

/// Decides whether a caller-supplied reservation id is a well-formed UUID
/// in the canonical hyphenated form.
pub fn is_valid_reservation_id(s: &str) -> (r: bool)
    ensures
        r == is_uuid_text(s@),
{
    let n = s.unicode_len();
    if n != 36 {
        return false;
    }
    let mut i: usize = 0;
    while i < 36
        invariant
            s@.len() == 36,
            i <= 36,
            forall|j: int| 0 <= j < i && is_hyphen_pos(j) ==> #[trigger] s@[j] == '-',
            forall|j: int| 0 <= j < i && !is_hyphen_pos(j) ==> is_hex_char(#[trigger] s@[j]),
        decreases 36 - i,
    {
        let c = s.get_char(i);
        let u = c as u32;
        if i == 8 || i == 13 || i == 18 || i == 23 {
            if c != '-' {
                return false;
            }
        } else {
            let hex = (('0' as u32) <= u && u <= ('9' as u32)) || (('a' as u32) <= u && u <= (
            'f' as u32)) || (('A' as u32) <= u && u <= ('F' as u32));
            if !hex {
                return false;
            }
        }
        i += 1;
    }
    true
}

/// The hexadecimal digit character of a value below sixteen.
pub open spec fn hex_char_of(d: u64) -> char {
    if d == 0 {
        '0'
    } else if d == 1 {
        '1'
    } else if d == 2 {
        '2'
    } else if d == 3 {
        '3'
    } else if d == 4 {
        '4'
    } else if d == 5 {
        '5'
    } else if d == 6 {
        '6'
    } else if d == 7 {
        '7'
    } else if d == 8 {
        '8'
    } else if d == 9 {
        '9'
    } else if d == 10 {
        'a'
    } else if d == 11 {
        'b'
    } else if d == 12 {
        'c'
    } else if d == 13 {
        'd'
    } else if d == 14 {
        'e'
    } else {
        'f'
    }
}

/// The low nibble selected by index `i` of a 64-bit value, most
/// significant nibble first.
pub open spec fn nibble(n: u64, i: int) -> u64 {
    (n >> (((15 - i) * 4) as u64)) & 0xf
}

/// The sixteen hexadecimal digits of a 64-bit value, most significant
/// first.
pub open spec fn hex16(n: u64) -> Seq<char> {
    Seq::new(16, |i: int| hex_char_of(nibble(n, i)))
}

/// The canonical UUID text minted for insertion counter `n`: a zero upper
/// half followed by the sixteen digits of `n`.
pub open spec fn uuid_text_of(n: u64) -> Seq<char> {
    "00000000-0000-0000-"@ + hex16(n).subrange(0, 4) + "-"@ + hex16(n).subrange(4, 16)
}

/// A nibble is always below sixteen.
proof fn lemma_nibble_bound(x: u64)
    ensures
        x & 0xf < 16,
{
    assert(x & 0xf < 16) by (bit_vector);
}

/// Distinct values below sixteen have distinct digit characters.
proof fn lemma_hex_char_injective(d1: u64, d2: u64)
    requires
        d1 < 16,
        d2 < 16,
        hex_char_of(d1) == hex_char_of(d2),
    ensures
        d1 == d2,
{
}

/// The digit character of a value below sixteen is a hexadecimal digit.
proof fn lemma_hex_char_is_hex(d: u64)
    requires
        d < 16,
    ensures
        is_hex_char(hex_char_of(d)),
{
}

/// Minted ids are well-formed canonical UUID text.
pub proof fn lemma_uuid_text_wf(n: u64)
    ensures
        is_uuid_text(uuid_text_of(n)),
{
    reveal_strlit("00000000-0000-0000-");
    reveal_strlit("-");
    let s = uuid_text_of(n);
    assert(s.len() == 36);
    assert forall|i: int| 0 <= i < 36 && is_hyphen_pos(i) implies #[trigger] s[i] == '-' by {
        assert(s[8] == '-');
        assert(s[13] == '-');
        assert(s[18] == '-');
        assert(s[23] == '-');
    }
    assert forall|i: int| 0 <= i < 36 && !is_hyphen_pos(i) implies is_hex_char(#[trigger] s[i]) by {
        if i < 19 {
            assert(s[i] == "00000000-0000-0000-"@[i]);
            assert(is_hex_char('0'));
        } else if i < 23 {
            assert(s[i] == hex16(n)[i - 19]);
            lemma_nibble_bound(n >> (((15 - (i - 19)) * 4) as u64));
            lemma_hex_char_is_hex(nibble(n, i - 19));
        } else {
            assert(s[i] == hex16(n)[i - 20]);
            lemma_nibble_bound(n >> (((15 - (i - 20)) * 4) as u64));
            lemma_hex_char_is_hex(nibble(n, i - 20));
        }
    }
}

/// Two distinct insertion counters mint distinct id texts.
pub proof fn lemma_uuid_text_injective(a: u64, b: u64)
    requires
        uuid_text_of(a) == uuid_text_of(b),
    ensures
        a == b,
{
    reveal_strlit("00000000-0000-0000-");
    reveal_strlit("-");
    assert forall|i: int| 0 <= i < 16 implies nibble(a, i) == nibble(b, i) by {
        let sa = uuid_text_of(a);
        let sb = uuid_text_of(b);
        let pos = if i < 4 {
            19 + i
        } else {
            20 + i
        };
        assert(sa[pos] == hex16(a)[i]);
        assert(sb[pos] == hex16(b)[i]);
        assert(hex_char_of(nibble(a, i)) == hex_char_of(nibble(b, i)));
        lemma_nibble_bound(a >> (((15 - i) * 4) as u64));
        lemma_nibble_bound(b >> (((15 - i) * 4) as u64));
        lemma_hex_char_injective(nibble(a, i), nibble(b, i));
    }
    assert((a >> 60u64) & 0xf == (b >> 60u64) & 0xf) by {
        assert(nibble(a, 0) == nibble(b, 0));
    }
    assert((a >> 56u64) & 0xf == (b >> 56u64) & 0xf) by {
        assert(nibble(a, 1) == nibble(b, 1));
    }
    assert((a >> 52u64) & 0xf == (b >> 52u64) & 0xf) by {
        assert(nibble(a, 2) == nibble(b, 2));
    }
    assert((a >> 48u64) & 0xf == (b >> 48u64) & 0xf) by {
        assert(nibble(a, 3) == nibble(b, 3));
    }
    assert((a >> 44u64) & 0xf == (b >> 44u64) & 0xf) by {
        assert(nibble(a, 4) == nibble(b, 4));
    }
    assert((a >> 40u64) & 0xf == (b >> 40u64) & 0xf) by {
        assert(nibble(a, 5) == nibble(b, 5));
    }
    assert((a >> 36u64) & 0xf == (b >> 36u64) & 0xf) by {
        assert(nibble(a, 6) == nibble(b, 6));
    }
    assert((a >> 32u64) & 0xf == (b >> 32u64) & 0xf) by {
        assert(nibble(a, 7) == nibble(b, 7));
    }
    assert((a >> 28u64) & 0xf == (b >> 28u64) & 0xf) by {
        assert(nibble(a, 8) == nibble(b, 8));
    }
    assert((a >> 24u64) & 0xf == (b >> 24u64) & 0xf) by {
        assert(nibble(a, 9) == nibble(b, 9));
    }
    assert((a >> 20u64) & 0xf == (b >> 20u64) & 0xf) by {
        assert(nibble(a, 10) == nibble(b, 10));
    }
    assert((a >> 16u64) & 0xf == (b >> 16u64) & 0xf) by {
        assert(nibble(a, 11) == nibble(b, 11));
    }
    assert((a >> 12u64) & 0xf == (b >> 12u64) & 0xf) by {
        assert(nibble(a, 12) == nibble(b, 12));
    }
    assert((a >> 8u64) & 0xf == (b >> 8u64) & 0xf) by {
        assert(nibble(a, 13) == nibble(b, 13));
    }
    assert((a >> 4u64) & 0xf == (b >> 4u64) & 0xf) by {
        assert(nibble(a, 14) == nibble(b, 14));
    }
    assert((a >> 0u64) & 0xf == (b >> 0u64) & 0xf) by {
        assert(nibble(a, 15) == nibble(b, 15));
    }
    assert(a == b) by (bit_vector)
        requires
            (a >> 60u64) & 0xf == (b >> 60u64) & 0xf,
            (a >> 56u64) & 0xf == (b >> 56u64) & 0xf,
            (a >> 52u64) & 0xf == (b >> 52u64) & 0xf,
            (a >> 48u64) & 0xf == (b >> 48u64) & 0xf,
            (a >> 44u64) & 0xf == (b >> 44u64) & 0xf,
            (a >> 40u64) & 0xf == (b >> 40u64) & 0xf,
            (a >> 36u64) & 0xf == (b >> 36u64) & 0xf,
            (a >> 32u64) & 0xf == (b >> 32u64) & 0xf,
            (a >> 28u64) & 0xf == (b >> 28u64) & 0xf,
            (a >> 24u64) & 0xf == (b >> 24u64) & 0xf,
            (a >> 20u64) & 0xf == (b >> 20u64) & 0xf,
            (a >> 16u64) & 0xf == (b >> 16u64) & 0xf,
            (a >> 12u64) & 0xf == (b >> 12u64) & 0xf,
            (a >> 8u64) & 0xf == (b >> 8u64) & 0xf,
            (a >> 4u64) & 0xf == (b >> 4u64) & 0xf,
            (a >> 0u64) & 0xf == (b >> 0u64) & 0xf,
    ;
}

/// The exec form of one hexadecimal digit character.
fn hex_char(d: u64) -> (c: char)
    requires
        d < 16,
    ensures
        c == hex_char_of(d),
{
    if d == 0 {
        '0'
    } else if d == 1 {
        '1'
    } else if d == 2 {
        '2'
    } else if d == 3 {
        '3'
    } else if d == 4 {
        '4'
    } else if d == 5 {
        '5'
    } else if d == 6 {
        '6'
    } else if d == 7 {
        '7'
    } else if d == 8 {
        '8'
    } else if d == 9 {
        '9'
    } else if d == 10 {
        'a'
    } else if d == 11 {
        'b'
    } else if d == 12 {
        'c'
    } else if d == 13 {
        'd'
    } else if d == 14 {
        'e'
    } else {
        'f'
    }
}

/// Mints the canonical UUID text for insertion counter `n`.
pub(crate) fn make_uuid(n: u64) -> (r: String)
    ensures
        r@ == uuid_text_of(n),
{
    proof {
        reveal_strlit("00000000-0000-0000-");
        reveal_strlit("-");
    }
    let mut s: String = "00000000-0000-0000-".to_owned();
    let mut i: usize = 0;
    while i < 4
        invariant
            i <= 4,
            s@ =~= "00000000-0000-0000-"@ + hex16(n).subrange(0, i as int),
        decreases 4 - i,
    {
        let shift: u64 = (15 - i as u64) * 4;
        let d: u64 = (n >> shift) & 0xf;
        proof {
            lemma_nibble_bound(n >> shift);
            assert(hex16(n)[i as int] == hex_char_of(nibble(n, i as int)));
            assert(nibble(n, i as int) == d);
        }
        let c = hex_char(d);
        push_char(&mut s, c);
        proof {
            assert(hex16(n).subrange(0, i + 1) =~= hex16(n).subrange(0, i as int).push(
                hex16(n)[i as int],
            ));
        }
        i += 1;
    }
    s.append("-");
    let ghost mid = "00000000-0000-0000-"@ + hex16(n).subrange(0, 4) + "-"@;
    assert(s@ =~= mid);
    let mut i: usize = 4;
    while i < 16
        invariant
            4 <= i <= 16,
            s@ =~= mid + hex16(n).subrange(4, i as int),
        decreases 16 - i,
    {
        let shift: u64 = (15 - i as u64) * 4;
        let d: u64 = (n >> shift) & 0xf;
        proof {
            lemma_nibble_bound(n >> shift);
            assert(hex16(n)[i as int] == hex_char_of(nibble(n, i as int)));
            assert(nibble(n, i as int) == d);
        }
        let c = hex_char(d);
        push_char(&mut s, c);
        proof {
            assert(hex16(n).subrange(4, i + 1) =~= hex16(n).subrange(4, i as int).push(
                hex16(n)[i as int],
            ));
        }
        i += 1;
    }
    proof {
        assert(s@ =~= uuid_text_of(n));
    }
    s
}

} // verus!

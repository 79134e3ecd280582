//! Wire format of identifiers: UUID text.
//!
//! The broker payloads and the HTTP bodies write a 128-bit identifier
//! as hexadecimal text, either hyphenated (8-4-4-4-12) or as 32 plain
//! digits, with either letter case accepted on input. Output is the
//! canonical lowercase hyphenated form.

use vstd::prelude::*;
use vstd::arithmetic::div_mod::{lemma_mod_breakdown, lemma_small_mod};

verus! {

/// Numeric value of one hexadecimal digit, or -1 for any other char.
pub open spec fn hex_val(c: char) -> int {
    let u = c as u32;
    if 48 <= u && u <= 57 {
        u - 48
    } else if 97 <= u && u <= 102 {
        u - 97 + 10
    } else if 65 <= u && u <= 70 {
        u - 65 + 10
    } else {
        -1
    }
}

pub open spec fn is_hex(c: char) -> bool {
    hex_val(c) >= 0
}

pub open spec fn all_hex(s: Seq<char>) -> bool {
    forall|i: int| 0 <= i < s.len() ==> is_hex(s[i])
}

/// Value of a big-endian string of hex digits.
pub open spec fn hex_seq_val(s: Seq<char>) -> int
    decreases s.len(),
{
    if s.len() == 0 {
        0
    } else {
        16 * hex_seq_val(s.drop_last()) + hex_val(s.last())
    }
}

pub open spec fn pow16(k: nat) -> int
    decreases k,
{
    if k == 0 {
        1
    } else {
        16 * pow16((k - 1) as nat)
    }
}

pub proof fn lemma_pow16_pos(k: nat)
    ensures
        pow16(k) >= 1,
    decreases k,
{
    if k > 0 {
        lemma_pow16_pos((k - 1) as nat);
    }
}

pub proof fn lemma_pow16_mono(a: nat, b: nat)
    requires
        a <= b,
    ensures
        pow16(a) <= pow16(b),
    decreases b,
{
    if a < b {
        lemma_pow16_mono(a, (b - 1) as nat);
        lemma_pow16_pos((b - 1) as nat);
    }
}

/// 16^32 is exactly the count of 128-bit values.
pub proof fn lemma_pow16_32()
    ensures
        pow16(32) == 0x100000000000000000000000000000000,
{
    reveal_with_fuel(pow16, 33);
}

/// A string of hex digits names a value below 16^len.
pub proof fn lemma_hex_seq_val_bound(s: Seq<char>)
    requires
        all_hex(s),
    ensures
        0 <= hex_seq_val(s) < pow16(s.len()),
    decreases s.len(),
{
    if s.len() > 0 {
        assert(all_hex(s.drop_last())) by {
            assert(forall|i: int|
                0 <= i < s.len() - 1 ==> s.drop_last()[i] == s[i]);
        }
        lemma_hex_seq_val_bound(s.drop_last());
        assert(is_hex(s.last()));
        assert(hex_val(s.last()) <= 15);
    }
}

/// The 32 digit positions of hyphenated UUID text.
pub open spec fn strip_hyphens(s: Seq<char>) -> Seq<char> {
    s.subrange(0, 8) + s.subrange(9, 13) + s.subrange(14, 18) + s.subrange(19, 23) + s.subrange(
        24,
        36,
    )
}

pub open spec fn is_uuid_hyphenated(s: Seq<char>) -> bool {
    s.len() == 36 && s[8] == '-' && s[13] == '-' && s[18] == '-' && s[23] == '-' && all_hex(
        strip_hyphens(s),
    )
}

pub open spec fn is_uuid_simple(s: Seq<char>) -> bool {
    s.len() == 32 && all_hex(s)
}

/// The identifier named by UUID text, hyphenated or plain; `None` for
/// anything else.
pub open spec fn spec_parse_uuid(s: Seq<char>) -> Option<u128> {
    if is_uuid_hyphenated(s) {
        Some(hex_seq_val(strip_hyphens(s)) as u128)
    } else if is_uuid_simple(s) {
        Some(hex_seq_val(s) as u128)
    } else {
        None
    }
}

/// Value of one hex digit char at run time.
fn hex_digit_val(c: char) -> (r: Option<u8>)
    ensures
        match r {
            Some(d) => is_hex(c) && d as int == hex_val(c),
            None => !is_hex(c),
        },
{
    let u = c as u32;
    if 48 <= u && u <= 57 {
        Some((u - 48) as u8)
    } else if 97 <= u && u <= 102 {
        Some((u - 97 + 10) as u8)
    } else if 65 <= u && u <= 70 {
        Some((u - 65 + 10) as u8)
    } else {
        None
    }
}

/// Value of 32 hex digit chars, or `None` if one is not a digit.
fn hex32_val(s: &str) -> (r: Option<u128>)
    requires
        s@.len() == 32,
    ensures
        match r {
            Some(v) => all_hex(s@) && v as int == hex_seq_val(s@),
            None => !all_hex(s@),
        },
{
    let mut acc: u128 = 0;
    let mut i: usize = 0;
    proof {
        assert(s@.subrange(0, 0) =~= Seq::<char>::empty());
    }
    while i < 32
        invariant
            s@.len() == 32,
            i <= 32,
            all_hex(s@.subrange(0, i as int)),
            acc as int == hex_seq_val(s@.subrange(0, i as int)),
        decreases 32 - i,
    {
        let c = s.get_char(i);
        proof {
            assert(s@.subrange(0, i as int + 1).drop_last() =~= s@.subrange(0, i as int));
            assert(s@.subrange(0, i as int + 1).last() == s@[i as int]);
            lemma_hex_seq_val_bound(s@.subrange(0, i as int));
            lemma_pow16_mono(i as nat, 31);
            lemma_pow16_32();
            assert(pow16(32) == 16 * pow16(31));
        }
        match hex_digit_val(c) {
            Some(d) => {
                acc = acc * 16 + (d as u128);
            },
            None => {
                return None;
            },
        }
        i += 1;
    }
    proof {
        assert(s@.subrange(0, 32) =~= s@);
    }
    Some(acc)
}

/// Parse UUID text into the identifier it names.
pub fn parse_uuid(s: &str) -> (r: Option<u128>)
    ensures
        r == spec_parse_uuid(s@),
{
    let n = s.unicode_len();
    if n == 36 {
        if s.get_char(8) != '-' || s.get_char(13) != '-' || s.get_char(18) != '-' || s.get_char(23)
            != '-' {
            return None;
        }
        let mut t = String::new();
        t.append(s.substring_char(0, 8));
        t.append(s.substring_char(9, 13));
        t.append(s.substring_char(14, 18));
        t.append(s.substring_char(19, 23));
        t.append(s.substring_char(24, 36));
        proof {
            assert(t@ =~= strip_hyphens(s@));
        }
        hex32_val(t.as_str())
    } else if n == 32 {
        hex32_val(s)
    } else {
        None
    }
}

/// The lowercase digit char of one hex value.
pub open spec fn hex_char_s(d: int) -> char {
    if d == 0 {
        '0'
    } else if d == 1 {
        '1'
    } else if d == 2 {
        '2'
    } else if d == 3 {
        '3'
    } else if d == 4 {
        '4'
    } else if d == 5 {
        '5'
    } else if d == 6 {
        '6'
    } else if d == 7 {
        '7'
    } else if d == 8 {
        '8'
    } else if d == 9 {
        '9'
    } else if d == 10 {
        'a'
    } else if d == 11 {
        'b'
    } else if d == 12 {
        'c'
    } else if d == 13 {
        'd'
    } else if d == 14 {
        'e'
    } else {
        'f'
    }
}

/// Big-endian lowercase hex text of a value, `k` digits wide.
pub open spec fn spec_hex_text(u: int, k: nat) -> Seq<char>
    decreases k,
{
    if k == 0 {
        Seq::<char>::empty()
    } else {
        spec_hex_text(u / 16, (k - 1) as nat).push(hex_char_s(u % 16))
    }
}

/// One lowercase hex digit as a string slice.
pub fn hex_str(d: u8) -> (r: &'static str)
    requires
        d < 16,
    ensures
        r@ =~= seq![hex_char_s(d as int)],
{
    let r = match d {
        0 => "0",
        1 => "1",
        2 => "2",
        3 => "3",
        4 => "4",
        5 => "5",
        6 => "6",
        7 => "7",
        8 => "8",
        9 => "9",
        10 => "a",
        11 => "b",
        12 => "c",
        13 => "d",
        14 => "e",
        _ => "f",
    };
    proof {
        reveal_strlit("0");
        reveal_strlit("1");
        reveal_strlit("2");
        reveal_strlit("3");
        reveal_strlit("4");
        reveal_strlit("5");
        reveal_strlit("6");
        reveal_strlit("7");
        reveal_strlit("8");
        reveal_strlit("9");
        reveal_strlit("a");
        reveal_strlit("b");
        reveal_strlit("c");
        reveal_strlit("d");
        reveal_strlit("e");
        reveal_strlit("f");
    }
    r
}

/// Hex text of a value, fixed width, most significant digit first.
fn hex_text(x: u128, k: usize) -> (r: String)
    ensures
        r@ == spec_hex_text(x as int, k as nat),
        r@.len() == k,
    decreases k,
{
    if k == 0 {
        let r = String::new();
        proof {
            assert(r@ =~= spec_hex_text(x as int, 0));
        }
        r
    } else {
        let mut t = hex_text(x / 16, k - 1);
        let d = (x % 16) as u8;
        t.append(hex_str(d));
        proof {
            assert(t@ =~= spec_hex_text(x as int, k as nat));
        }
        t
    }
}

/// Canonical lowercase hyphenated UUID text of an identifier.
pub open spec fn spec_uuid_text(u: u128) -> Seq<char> {
    let h = spec_hex_text(u as int, 32);
    h.subrange(0, 8) + seq!['-'] + h.subrange(8, 12) + seq!['-'] + h.subrange(12, 16) + seq!['-']
        + h.subrange(16, 20) + seq!['-'] + h.subrange(20, 32)
}

/// Write an identifier in its canonical lowercase hyphenated form.
pub fn format_uuid(u: u128) -> (r: String)
    ensures
        r@ == spec_uuid_text(u),
        r@.len() == 36,
{
    let h = hex_text(u, 32);
    let hs = h.as_str();
    let mut r = String::new();
    r.append(hs.substring_char(0, 8));
    r.append("-");
    r.append(hs.substring_char(8, 12));
    r.append("-");
    r.append(hs.substring_char(12, 16));
    r.append("-");
    r.append(hs.substring_char(16, 20));
    r.append("-");
    r.append(hs.substring_char(20, 32));
    proof {
        reveal_strlit("-");
        assert(r@ =~= spec_uuid_text(u));
    }
    r
}

/// Each digit char the formatter writes reads back as its value.
proof fn lemma_hex_char_val(d: int)
    requires
        0 <= d < 16,
    ensures
        is_hex(hex_char_s(d)),
        hex_val(hex_char_s(d)) == d,
{
}

/// Fixed-width hex text is all digits and reads back as the value it
/// was written from, reduced to the width.
proof fn lemma_hex_text_val(u: int, k: nat)
    requires
        0 <= u,
    ensures
        spec_hex_text(u, k).len() == k,
        all_hex(spec_hex_text(u, k)),
        hex_seq_val(spec_hex_text(u, k)) == u % pow16(k),
    decreases k,
{
    if k == 0 {
        assert(u % 1 == 0) by (nonlinear_arith)
            requires
                u >= 0,
        ;
    } else {
        let km1 = (k - 1) as nat;
        lemma_hex_text_val(u / 16, km1);
        lemma_hex_char_val(u % 16);
        lemma_pow16_pos(km1);
        let prefix = spec_hex_text(u / 16, km1);
        let s = spec_hex_text(u, k);
        assert(s == prefix.push(hex_char_s(u % 16)));
        assert(s.drop_last() =~= prefix);
        assert forall|i: int| 0 <= i < s.len() implies is_hex(s[i]) by {
            if i < k - 1 {
                assert(s[i] == prefix[i]);
            }
        }
        lemma_mod_breakdown(u, 16, pow16(km1));
        assert(pow16(k) == 16 * pow16(km1));
    }
}

/// The wire format round-trips: the canonical text of an identifier
/// parses back to exactly that identifier.
pub proof fn lemma_uuid_text_round_trip(u: u128)
    ensures
        spec_parse_uuid(spec_uuid_text(u)) == Some(u),
{
    let h = spec_hex_text(u as int, 32);
    lemma_hex_text_val(u as int, 32);
    lemma_pow16_32();
    lemma_small_mod(u as nat, pow16(32) as nat);
    let t = spec_uuid_text(u);
    assert(t.len() == 36);
    assert(t[8] == '-' && t[13] == '-' && t[18] == '-' && t[23] == '-');
    assert(t.subrange(0, 8) =~= h.subrange(0, 8));
    assert(t.subrange(9, 13) =~= h.subrange(8, 12));
    assert(t.subrange(14, 18) =~= h.subrange(12, 16));
    assert(t.subrange(19, 23) =~= h.subrange(16, 20));
    assert(t.subrange(24, 36) =~= h.subrange(20, 32));
    assert(strip_hyphens(t) =~= h);
    assert(is_uuid_hyphenated(t));
    assert(hex_seq_val(strip_hyphens(t)) == u as int);
}

} // verus!

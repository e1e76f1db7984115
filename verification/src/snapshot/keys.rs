//! Encodes a snapshot script's named key steps into the raw byte
//! sequences a real terminal would send for them — arrow keys as CSI
//! sequences, `Ctrl+`-combos as control bytes, everything else as a
//! literal ASCII byte — and left clicks as SGR mouse sequences.
use vstd::prelude::*;
use crate::text::{decimal_bytes, push_decimal_bytes, str_chars};

verus! {

/// A key name that doesn't match any known encoding.
#[derive(Debug, Clone, PartialEq, Eq)]
pub enum KeyEncodeError {
    /// The unrecognized key name, as written in the script.
    Unknown(String),
}

/// The escape byte.
pub open spec fn esc() -> u8 {
    0x1b
}

/// `c` is an ASCII letter.
pub open spec fn is_ascii_alphabetic(c: char) -> bool {
    ('A' <= c && c <= 'Z') || ('a' <= c && c <= 'z')
}

/// `c` with an ASCII lower-case letter raised to upper case.
pub open spec fn to_ascii_uppercase(c: char) -> char {
    if 'a' <= c && c <= 'z' {
        ((c as u32) - 32) as char
    } else {
        c
    }
}

/// The bytes a terminal sends for the key called `name`, or `None` when
/// no encoding knows that name: the arrow keys, Enter, Esc and Tab by
/// name; `Ctrl+` followed by one letter as that letter's control byte
/// (`Ctrl+A` is 1, ..., `Ctrl+Z` is 26, either case); any other single
/// ASCII character as its own byte.
pub open spec fn key_bytes(name: Seq<char>) -> Option<Seq<u8>> {
    if name == seq!['U', 'p'] {
        Some(seq![esc(), 0x5b, 0x41])
    } else if name == seq!['D', 'o', 'w', 'n'] {
        Some(seq![esc(), 0x5b, 0x42])
    } else if name == seq!['R', 'i', 'g', 'h', 't'] {
        Some(seq![esc(), 0x5b, 0x43])
    } else if name == seq!['L', 'e', 'f', 't'] {
        Some(seq![esc(), 0x5b, 0x44])
    } else if name == seq!['E', 'n', 't', 'e', 'r'] {
        Some(seq![0x0du8])
    } else if name == seq!['E', 's', 'c'] {
        Some(seq![esc()])
    } else if name == seq!['T', 'a', 'b'] {
        Some(seq![0x09u8])
    } else if name.len() >= 5 && name.take(5) == seq!['C', 't', 'r', 'l', '+'] {
        if name.len() == 6 && is_ascii_alphabetic(name[5]) {
            Some(seq![((to_ascii_uppercase(name[5]) as u32) - 64) as u8])
        } else {
            None
        }
    } else if name.len() == 1 && (name[0] as u32) < 128 {
        Some(seq![(name[0] as u32) as u8])
    } else {
        None
    }
}

/// Law: every single ASCII character names itself — its key encodes
/// as the one byte of its code, whatever the character (letters, digits,
/// space, punctuation or a control character alike).
pub proof fn lemma_single_ascii_key_is_its_byte(c: char)
    requires
        (c as u32) < 128,
    ensures
        key_bytes(seq![c]) == Some(seq![(c as u32) as u8]),
        key_bytes(seq![c]) matches Some(b) && b.len() == 1 && b[0] as u32 == c as u32,
{
    let name = seq![c];
    assert(name.len() == 1);
    assert(seq!['U', 'p'].len() == 2);
    assert(seq!['D', 'o', 'w', 'n'].len() == 4);
    assert(seq!['R', 'i', 'g', 'h', 't'].len() == 5);
    assert(seq!['L', 'e', 'f', 't'].len() == 4);
    assert(seq!['E', 'n', 't', 'e', 'r'].len() == 5);
    assert(seq!['E', 's', 'c'].len() == 3);
    assert(seq!['T', 'a', 'b'].len() == 3);
}

/// Law: `Ctrl+` and a letter encodes as that letter's control byte,
/// 1 for A through 26 for Z, the same for either case.
pub proof fn lemma_ctrl_letter_is_control_byte(c: char)
    requires
        'A' <= c <= 'Z',
    ensures
        key_bytes(seq!['C', 't', 'r', 'l', '+', c]) == Some(seq![((c as u32) - 64) as u8]),
        key_bytes(seq!['C', 't', 'r', 'l', '+', c]) == key_bytes(
            seq!['C', 't', 'r', 'l', '+', ((c as u32) + 32) as char],
        ),
        1 <= (c as u32) - 64 <= 26,
{
    let lower = ((c as u32) + 32) as char;
    let up = seq!['C', 't', 'r', 'l', '+', c];
    let lo = seq!['C', 't', 'r', 'l', '+', lower];
    assert(up.take(5) =~= seq!['C', 't', 'r', 'l', '+']);
    assert(lo.take(5) =~= seq!['C', 't', 'r', 'l', '+']);
    assert(up.len() != 2 && up.len() != 4 && up.len() != 5 && up.len() != 3);
    assert(up != seq!['U', 'p']);
    assert(lo != seq!['U', 'p']);
    assert(up[5] == c && lo[5] == lower);
    assert(to_ascii_uppercase(lower) == c);
}

fn is_lit(v: &Vec<char>, lit: &[char]) -> (r: bool)
    ensures
        r == (v@ == lit@),
{
    if v.len() != lit.len() {
        return false;
    }
    let mut i: usize = 0;
    while i < v.len()
        invariant
            v@.len() == lit@.len(),
            0 <= i <= v@.len(),
            forall|k: int| 0 <= k < i ==> v@[k] == lit@[k],
        decreases v.len() - i,
    {
        if v[i] != lit[i] {
            return false;
        }
        i = i + 1;
    }
    assert(v@ =~= lit@);
    true
}

/// Encodes a named key into the raw byte sequence a real terminal would
/// send for it.
pub fn encode_key(name: &str) -> (r: Result<Vec<u8>, KeyEncodeError>)
    ensures
        match r {
            Ok(bytes) => key_bytes(name@) == Some(bytes@),
            Err(KeyEncodeError::Unknown(n)) => key_bytes(name@) is None && n@ == name@,
        },
{
    let v = str_chars(name);
    if is_lit(&v, &['U', 'p']) {
        assert(v@ =~= seq!['U', 'p']);
        return Ok(vec![0x1b, 0x5b, 0x41]);
    }
    if is_lit(&v, &['D', 'o', 'w', 'n']) {
        assert(v@ =~= seq!['D', 'o', 'w', 'n']);
        return Ok(vec![0x1b, 0x5b, 0x42]);
    }
    if is_lit(&v, &['R', 'i', 'g', 'h', 't']) {
        assert(v@ =~= seq!['R', 'i', 'g', 'h', 't']);
        return Ok(vec![0x1b, 0x5b, 0x43]);
    }
    if is_lit(&v, &['L', 'e', 'f', 't']) {
        assert(v@ =~= seq!['L', 'e', 'f', 't']);
        return Ok(vec![0x1b, 0x5b, 0x44]);
    }
    if is_lit(&v, &['E', 'n', 't', 'e', 'r']) {
        assert(v@ =~= seq!['E', 'n', 't', 'e', 'r']);
        return Ok(vec![0x0d]);
    }
    if is_lit(&v, &['E', 's', 'c']) {
        assert(v@ =~= seq!['E', 's', 'c']);
        return Ok(vec![0x1b]);
    }
    if is_lit(&v, &['T', 'a', 'b']) {
        assert(v@ =~= seq!['T', 'a', 'b']);
        return Ok(vec![0x09]);
    }
    assert(v@ != seq!['U', 'p']);
    assert(v@ != seq!['D', 'o', 'w', 'n']);
    assert(v@ != seq!['R', 'i', 'g', 'h', 't']);
    assert(v@ != seq!['L', 'e', 'f', 't']);
    assert(v@ != seq!['E', 'n', 't', 'e', 'r']);
    assert(v@ != seq!['E', 's', 'c']);
    assert(v@ != seq!['T', 'a', 'b']);
    let ctrl = v.len() >= 5 && v[0] == 'C' && v[1] == 't' && v[2] == 'r' && v[3] == 'l' && v[4]
        == '+';
    assert(ctrl == (v@.len() >= 5 && v@.take(5) == seq!['C', 't', 'r', 'l', '+'])) by {
        if v@.len() >= 5 && v@.take(5) == seq!['C', 't', 'r', 'l', '+'] {
            assert(v@.take(5)[0] == v@[0]);
            assert(v@.take(5)[1] == v@[1]);
            assert(v@.take(5)[2] == v@[2]);
            assert(v@.take(5)[3] == v@[3]);
            assert(v@.take(5)[4] == v@[4]);
        }
        if ctrl {
            assert(v@.take(5) =~= seq!['C', 't', 'r', 'l', '+']);
        }
    }
    if ctrl {
        if v.len() == 6 {
            let c = v[5];
            let upper = if 'a' <= c && c <= 'z' {
                (c as u32) - 32
            } else {
                c as u32
            };
            if 65 <= upper && upper <= 90 {
                let b = (upper - 64) as u8;
                let out = vec![b];
                return Ok(out);
            }
        }
        return Err(KeyEncodeError::Unknown(name.to_owned()));
    }
    if v.len() == 1 && (v[0] as u32) < 128 {
        let out = vec![(v[0] as u32) as u8];
        return Ok(out);
    }
    Err(KeyEncodeError::Unknown(name.to_owned()))
}

/// The SGR mouse-protocol bytes of a left-button press (`final_byte`
/// `M`) or release (`m`) at 1-indexed cell `(col, row)`:
/// `ESC [ < 0 ; col ; row` then the final byte.
pub open spec fn sgr_mouse(col: nat, row: nat, final_byte: u8) -> Seq<u8> {
    seq![esc(), 0x5b, 0x3c, 0x30, 0x3b] + decimal_bytes(col) + seq![0x3bu8] + decimal_bytes(row)
        + seq![final_byte]
}

fn push_sgr_mouse(v: &mut Vec<u8>, col: u64, row: u64, final_byte: u8)
    ensures
        final(v)@ == old(v)@ + sgr_mouse(col as nat, row as nat, final_byte),
{
    v.push(0x1b);
    v.push(0x5b);
    v.push(0x3c);
    v.push(0x30);
    v.push(0x3b);
    push_decimal_bytes(v, col);
    v.push(0x3b);
    push_decimal_bytes(v, row);
    v.push(final_byte);
    assert(v@ =~= old(v)@ + sgr_mouse(col as nat, row as nat, final_byte));
}

/// Encodes a left-button click at cell `(x, y)` (0-indexed) as the raw
/// SGR mouse-protocol bytes a real terminal would send: a press
/// immediately followed by a release at the same, 1-indexed, position.
pub fn encode_click(x: u16, y: u16) -> (r: Vec<u8>)
    requires
        x < u16::MAX,
        y < u16::MAX,
    ensures
        r@ == sgr_mouse((x + 1) as nat, (y + 1) as nat, 0x4d) + sgr_mouse((x + 1) as nat, (y + 1) as nat, 0x6d),
{
    let col = (x + 1) as u64;
    let row = (y + 1) as u64;
    let mut out: Vec<u8> = Vec::new();
    push_sgr_mouse(&mut out, col, row, 0x4d);
    push_sgr_mouse(&mut out, col, row, 0x6d);
    assert(out@ =~= sgr_mouse((x + 1) as nat, (y + 1) as nat, 0x4d) + sgr_mouse((x + 1) as nat, (y + 1) as nat, 0x6d));
    out
}

} // verus!

use vstd::prelude::*;
use vstd::string::StringExecFns;

use crate::page_key::decimal;
use crate::page_key::push_decimal;
use crate::text::push_char;

verus! {

/// The upper-case hexadecimal digit for `d`.
pub open spec fn hex_digit(d: int) -> char {
    if d < 10 {
        crate::page_key::digit_char(d)
    } else if d == 10 {
        'A'
    } else if d == 11 {
        'B'
    } else if d == 12 {
        'C'
    } else if d == 13 {
        'D'
    } else if d == 14 {
        'E'
    } else {
        'F'
    }
}

/// The upper-case hexadecimal text of `n`, without leading zeros.
pub open spec fn hex(n: nat) -> Seq<char>
    decreases n,
{
    if n < 16 {
        seq![hex_digit(n as int)]
    } else {
        hex(n / 16).push(hex_digit((n % 16) as int))
    }
}

fn hex_char(d: u32) -> (r: char)
    requires
        d < 16,
    ensures
        r == hex_digit(d as int),
{
    let letters: [char; 16] = [
        '0', '1', '2', '3', '4', '5', '6', '7', '8', '9', 'A', 'B', 'C', 'D', 'E', 'F',
    ];
    letters[d as usize]
}

fn push_hex(out: &mut String, n: u32)
    ensures
        final(out)@ == old(out)@ + hex(n as nat),
    decreases n,
{
    if n >= 16 {
        push_hex(out, n / 16);
    }
    push_char(out, hex_char(n % 16));
    assert(final(out)@ =~= old(out)@ + hex(n as nat));
}

/// The letters `A` to `Z`.
pub open spec fn letters() -> Seq<char> {
    seq![
        'A', 'B', 'C', 'D', 'E', 'F', 'G', 'H', 'I', 'J', 'K', 'L', 'M', 'N', 'O', 'P', 'Q', 'R',
        'S', 'T', 'U', 'V', 'W', 'X', 'Y', 'Z',
    ]
}

/// The name of a named key, if `vk` is one.
pub open spec fn named_key(vk: int) -> Option<Seq<char>> {
    if vk == 0x0D {
        Some("Enter"@)
    } else if vk == 0x20 {
        Some("Space"@)
    } else if vk == 0x1B {
        Some("Escape"@)
    } else if vk == 0x09 {
        Some("Tab"@)
    } else if vk == 0x08 {
        Some("Backspace"@)
    } else if vk == 0x2E {
        Some("Delete"@)
    } else if vk == 0x2D {
        Some("Insert"@)
    } else if vk == 0x24 {
        Some("Home"@)
    } else if vk == 0x23 {
        Some("End"@)
    } else if vk == 0x21 {
        Some("PageUp"@)
    } else if vk == 0x22 {
        Some("PageDown"@)
    } else if vk == 0x25 {
        Some("ArrowLeft"@)
    } else if vk == 0x26 {
        Some("ArrowUp"@)
    } else if vk == 0x27 {
        Some("ArrowRight"@)
    } else if vk == 0x28 {
        Some("ArrowDown"@)
    } else {
        None
    }
}

/// The display name of the virtual-key code `vk`: its letter or digit, `F1`
/// to `F24`, the name of a named key, else `Key` and the code in hexadecimal
/// (as a 32-bit two's-complement value).
pub open spec fn key_name(vk: i32) -> Seq<char> {
    if 0x41 <= vk <= 0x5A {
        seq![letters()[vk - 0x41]]
    } else if 0x30 <= vk <= 0x39 {
        seq![crate::page_key::digit_char(vk - 0x30)]
    } else if 0x70 <= vk <= 0x87 {
        seq!['F'] + decimal((vk - 0x6F) as nat)
    } else if named_key(vk as int) is Some {
        named_key(vk as int)->Some_0
    } else {
        seq!['K', 'e', 'y'] + hex((vk as u32) as nat)
    }
}

fn named(vk: i32) -> (r: Option<String>)
    ensures
        match named_key(vk as int) {
            Some(t) => r is Some && r->Some_0@ == t,
            None => r is None,
        },
{
    let name: &str = if vk == 0x0D {
        "Enter"
    } else if vk == 0x20 {
        "Space"
    } else if vk == 0x1B {
        "Escape"
    } else if vk == 0x09 {
        "Tab"
    } else if vk == 0x08 {
        "Backspace"
    } else if vk == 0x2E {
        "Delete"
    } else if vk == 0x2D {
        "Insert"
    } else if vk == 0x24 {
        "Home"
    } else if vk == 0x23 {
        "End"
    } else if vk == 0x21 {
        "PageUp"
    } else if vk == 0x22 {
        "PageDown"
    } else if vk == 0x25 {
        "ArrowLeft"
    } else if vk == 0x26 {
        "ArrowUp"
    } else if vk == 0x27 {
        "ArrowRight"
    } else if vk == 0x28 {
        "ArrowDown"
    } else {
        return None;
    };
    Some(String::from_str(name))
}

/// The display name of the virtual-key code `vk` (see `key_name`).
pub fn get_key_name(vk_code: i32) -> (r: String)
    ensures
        r@ == key_name(vk_code),
{
    let mut out = String::new();
    if 0x41 <= vk_code && vk_code <= 0x5A {
        let alphabet: [char; 26] = [
            'A', 'B', 'C', 'D', 'E', 'F', 'G', 'H', 'I', 'J', 'K', 'L', 'M', 'N', 'O', 'P', 'Q',
            'R', 'S', 'T', 'U', 'V', 'W', 'X', 'Y', 'Z',
        ];
        assert(alphabet@ == letters());
        push_char(&mut out, alphabet[(vk_code - 0x41) as usize]);
    } else if 0x30 <= vk_code && vk_code <= 0x39 {
        let digits: [char; 10] = ['0', '1', '2', '3', '4', '5', '6', '7', '8', '9'];
        push_char(&mut out, digits[(vk_code - 0x30) as usize]);
    } else if 0x70 <= vk_code && vk_code <= 0x87 {
        push_char(&mut out, 'F');
        push_decimal(&mut out, (vk_code - 0x6F) as u128);
    } else {
        match named(vk_code) {
            Some(name) => {
                return name;
            },
            None => {
                push_char(&mut out, 'K');
                push_char(&mut out, 'e');
                push_char(&mut out, 'y');
                #[verifier::truncate]
                let code = vk_code as u32;
                push_hex(&mut out, code);
            },
        }
    }
    assert(out@ =~= key_name(vk_code));
    out
}

} // verus!

//! The manifest: a JSON text that lists the icons of a font by name, file
//! name and codepoint.

use vstd::prelude::*;
use vstd::string::StringExecFns;
use crate::icon::Icon;
use crate::text::push_char;

verus! {

/// The upper-case hexadecimal digit of a value below sixteen.
pub open spec fn hex_symbol(v: int) -> char {
    if v < 10 {
        ('0' as int + v) as char
    } else {
        ('A' as int + (v - 10)) as char
    }
}

/// One hexadecimal digit of a number: the one that counts `unit`s, where
/// `unit` is a power of sixteen.
pub open spec fn hex_at(code: u32, unit: int) -> char {
    hex_symbol(((code as int) / unit) % 16)
}

/// The digit that counts `unit`s, if the number reaches `unit`; nothing
/// otherwise.
pub open spec fn hex_if_reached(code: u32, unit: int) -> Seq<char> {
    if code >= unit {
        seq![hex_at(code, unit)]
    } else {
        Seq::empty()
    }
}

/// A number in upper-case hexadecimal digits, most significant first, at
/// least four of them: a number below `0x1000` is filled up with zeros on
/// the left.
pub open spec fn hex4(code: u32) -> Seq<char> {
    hex_if_reached(code, 0x1000_0000) + hex_if_reached(code, 0x100_0000) + hex_if_reached(
        code,
        0x10_0000,
    ) + hex_if_reached(code, 0x1_0000) + seq![
        hex_at(code, 0x1000),
        hex_at(code, 0x100),
        hex_at(code, 0x10),
        hex_at(code, 1),
    ]
}

fn hex_char(v: u32) -> (c: char)
    requires
        v < 16,
    ensures
        c == hex_symbol(v as int),
{
    let b: u8 = v as u8;
    if b < 10 {
        (48u8 + b) as char
    } else {
        (65u8 + (b - 10)) as char
    }
}

/// Writes a number behind a text in hexadecimal digits, at least four.
pub fn push_hex4(text: &mut String, code: u32)
    ensures
        final(text)@ == old(text)@ + hex4(code),
{
    let ghost start = text@;
    if code >= 0x1000_0000 {
        push_char(text, hex_char((code / 0x1000_0000) % 16));
    }
    let ghost one = start + hex_if_reached(code, 0x1000_0000);
    assert(text@ =~= one);
    if code >= 0x100_0000 {
        push_char(text, hex_char((code / 0x100_0000) % 16));
    }
    let ghost two = one + hex_if_reached(code, 0x100_0000);
    assert(text@ =~= two);
    if code >= 0x10_0000 {
        push_char(text, hex_char((code / 0x10_0000) % 16));
    }
    let ghost three = two + hex_if_reached(code, 0x10_0000);
    assert(text@ =~= three);
    if code >= 0x1_0000 {
        push_char(text, hex_char((code / 0x1_0000) % 16));
    }
    let ghost four = three + hex_if_reached(code, 0x1_0000);
    assert(text@ =~= four);
    push_char(text, hex_char((code / 0x1000) % 16));
    push_char(text, hex_char((code / 0x100) % 16));
    push_char(text, hex_char((code / 0x10) % 16));
    push_char(text, hex_char(code % 16));
    assert(text@ =~= start + hex4(code));
}

/// The line of one icon in the manifest.
pub open spec fn manifest_line(icon: Icon) -> Seq<char> {
    "    { \"name\": \""@ + icon.name@ + "\", \"filename\": \""@ + icon.filename@
        + "\", \"codepoint\": \""@ + hex4(icon.codepoint) + "\" }"@
}

/// The lines of the first `upto` icons, a comma and a line break between
/// one line and the next.
pub open spec fn manifest_lines(icons: Seq<Icon>, upto: nat) -> Seq<char>
    decreases upto,
{
    if upto == 0 {
        Seq::empty()
    } else if upto == 1 {
        manifest_line(icons[0])
    } else {
        manifest_lines(icons, (upto - 1) as nat) + ",\n"@ + manifest_line(icons[upto - 1])
    }
}

/// The manifest of a font: its family name and its icons. Names are
/// written as they are.
pub open spec fn manifest_text(icons: Seq<Icon>, font_name: Seq<char>) -> Seq<char> {
    "{\n  \"fontFamily\": \""@ + font_name + "\",\n  \"icons\": [\n"@ + manifest_lines(
        icons,
        icons.len(),
    ) + "\n  ]\n}"@
}

/// Writes the manifest of a font as JSON text.
pub fn generate_manifest(icons: &Vec<Icon>, font_name: &str) -> (text: String)
    ensures
        text@ == manifest_text(icons@, font_name@),
{
    let mut text = String::from_str("{\n  \"fontFamily\": \"");
    text.append(font_name);
    text.append("\",\n  \"icons\": [\n");
    let ghost head = text@;
    let mut i: usize = 0;
    assert(text@ =~= head + manifest_lines(icons@, 0));
    while i < icons.len()
        invariant
            i <= icons.len(),
            text@ == head + manifest_lines(icons@, i as nat),
        decreases icons.len() - i,
    {
        let ghost before = text@;
        if i > 0 {
            text.append(",\n");
        }
        let icon = &icons[i];
        text.append("    { \"name\": \"");
        text.append(icon.name.as_str());
        text.append("\", \"filename\": \"");
        text.append(icon.filename.as_str());
        text.append("\", \"codepoint\": \"");
        push_hex4(&mut text, icon.codepoint);
        text.append("\" }");
        assert(text@ =~= before + (if i > 0 {
            ",\n"@
        } else {
            Seq::<char>::empty()
        }) + manifest_line(icons@[i as int]));
        assert(text@ =~= head + manifest_lines(icons@, (i + 1) as nat));
        i = i + 1;
    }
    text.append("\n  ]\n}");
    text
}

} // verus!

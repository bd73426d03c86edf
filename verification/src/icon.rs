//! Icons: what the font is built from.

use vstd::prelude::*;
use vstd::string::StrSliceExecFns;
use vstd::string::StringExecFns;
use crate::path::{FillRule, PathCommand};
use crate::text::{
    ascii_lowercase, chars_of, is_lowercase, is_numeric, is_uppercase, replace_all, replaced,
    text_of, to_ascii_lowercase, unicode_lowercase, unicode_numeric, unicode_uppercase,
};

verus! {

/// The first codepoint of the Unicode private use area, from which icons
/// are numbered.
pub const PRIVATE_USE_BASE: u32 = 0xE000;

/// The greatest number of icons of one font: with the missing glyph they
/// must not be more than 16 bits can count.
pub const MAX_ICONS: usize = 0xfffe;

/// The codepoint of the icon at place `index` among the icons of a font:
/// icons are numbered upwards from `PRIVATE_USE_BASE`. There is none for
/// a place that a font has not.
pub fn nth_codepoint(index: usize) -> (code: Option<u32>)
    ensures
        match code {
            Some(c) => index < MAX_ICONS && c == PRIVATE_USE_BASE + index,
            None => index >= MAX_ICONS,
        },
{
    if index < MAX_ICONS {
        Some(PRIVATE_USE_BASE + index as u32)
    } else {
        None
    }
}

/// One icon: its names, its outline on the source grid (y grows
/// downwards), the size of its viewport on that grid, the fill rule that
/// its author drew for, and the codepoint it is to be typed with.
#[derive(Clone, Debug)]
pub struct Icon {
    /// The identifier derived from the file name.
    pub name: String,
    /// The file name without its extension.
    pub filename: String,
    pub path: Vec<PathCommand>,
    pub width: i32,
    pub height: i32,
    pub fill_rule: FillRule,
    pub codepoint: u32,
}


/// A name part-way through being turned into snake case: what has been
/// written, and whether the last character read was a lower-case letter.
pub struct Snake {
    pub written: Seq<char>,
    pub after_lower: bool,
}

/// One step of turning a name into snake case, for a character of which
/// it is known whether it is upper case and whether it is lower case. A
/// hyphen or space becomes an underscore. An upper-case letter after a
/// lower-case one starts a new word: an underscore goes before it. Every
/// letter `A` to `Z` is lowered.
pub open spec fn snake_step_with(s: Snake, c: char, upper: bool, lower: bool) -> Snake {
    if c == '-' || c == ' ' {
        Snake { written: s.written.push('_'), after_lower: false }
    } else if upper && s.after_lower {
        Snake { written: s.written.push('_').push(ascii_lowercase(c)), after_lower: false }
    } else {
        Snake { written: s.written.push(ascii_lowercase(c)), after_lower: lower }
    }
}

/// One step of turning a name into snake case, with upper and lower case
/// as Unicode has them.
pub open spec fn snake_step(s: Snake, c: char) -> Snake {
    snake_step_with(s, c, unicode_uppercase(c), unicode_lowercase(c))
}

/// Writes one more character of a name in snake case. `upper` and `lower`
/// say whether the character is upper case and whether it is lower case;
/// `after_lower` says whether the character before it was lower case, and
/// the result says so of this one.
pub fn snake_push(written: &mut Vec<char>, after_lower: bool, c: char, upper: bool, lower: bool) -> (now_after_lower:
    bool)
    ensures
        (Snake { written: final(written)@, after_lower: now_after_lower }) == snake_step_with(
            Snake { written: old(written)@, after_lower },
            c,
            upper,
            lower,
        ),
{
    if c == '-' || c == ' ' {
        written.push('_');
        false
    } else if upper && after_lower {
        written.push('_');
        written.push(to_ascii_lowercase(c));
        false
    } else {
        written.push(to_ascii_lowercase(c));
        lower
    }
}

pub open spec fn snake(name: Seq<char>) -> Snake
    decreases name.len(),
{
    if name.len() == 0 {
        Snake { written: Seq::empty(), after_lower: false }
    } else {
        snake_step(snake(name.drop_last()), name.last())
    }
}

/// A file name with the style suffixes `-filled`, `-stroke` and
/// `-outline` written as words of their own.
pub open spec fn with_style_words(filename: Seq<char>) -> Seq<char> {
    replaced(
        replaced(replaced(filename, "-filled"@, "Filled"@), "-stroke"@, "Stroke"@),
        "-outline"@,
        "Outline"@,
    )
}

/// A name made fit to begin an identifier: `icon_` goes before a name
/// that is empty or begins with a number.
pub open spec fn prefixed(name: Seq<char>, numeric_first: bool) -> Seq<char> {
    if name.len() == 0 || numeric_first {
        "icon_"@ + name
    } else {
        name
    }
}

/// Makes a name fit to begin an identifier. `numeric_first` says whether
/// the name begins with a number.
pub fn with_prefix(name: String, numeric_first: bool) -> (result: String)
    ensures
        result@ == prefixed(name@, numeric_first),
{
    if name.unicode_len() == 0 || numeric_first {
        String::from_str("icon_").concat(name.as_str())
    } else {
        name
    }
}

/// The identifier of a file name: the name in snake case, with `icon_`
/// before it if it is empty or begins with a number.
pub open spec fn identifier(filename: Seq<char>) -> Seq<char> {
    let name = snake(with_style_words(filename)).written;
    prefixed(name, name.len() > 0 && unicode_numeric(name[0]))
}

/// Turns a file name into an identifier in snake case.
pub fn filename_to_identifier(filename: &str) -> (name: String)
    ensures
        name@ == identifier(filename@),
{
    proof {
        reveal_strlit("-filled");
        reveal_strlit("-stroke");
        reveal_strlit("-outline");
    }
    let given = chars_of(filename);
    let step1 = replace_all(&given, &chars_of("-filled"), &chars_of("Filled"));
    let step2 = replace_all(&step1, &chars_of("-stroke"), &chars_of("Stroke"));
    let styled = replace_all(&step2, &chars_of("-outline"), &chars_of("Outline"));
    let mut written: Vec<char> = Vec::new();
    let mut after_lower: bool = false;
    let mut i: usize = 0;
    while i < styled.len()
        invariant
            i <= styled.len(),
            snake(styled@.take(i as int)) == (Snake { written: written@, after_lower }),
        decreases styled.len() - i,
    {
        assert(styled@.take(i + 1).drop_last() =~= styled@.take(i as int));
        let c = styled[i];
        after_lower = snake_push(&mut written, after_lower, c, is_uppercase(c), is_lowercase(c));
        i = i + 1;
    }
    assert(styled@.take(styled.len() as int) =~= styled@);
    let numeric_first = written.len() > 0 && is_numeric(written[0]);
    with_prefix(text_of(&written), numeric_first)
}

} // verus!

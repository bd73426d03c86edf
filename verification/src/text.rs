//! Small string helpers shared by the text-producing modules.

use vstd::prelude::*;
use vstd::string::StrSliceExecFns;

verus! {

/// Appends one character to a string.
///
/// Trusted: `String::push`, which the standard library documents as
/// appending the given `char` to the end of the string.
#[verifier::external_body]
pub(crate) fn push_char(s: &mut String, c: char)
    ensures
        final(s)@ == old(s)@.push(c),
{
    s.push(c)
}


/// Whether a number is a Unicode scalar value: a code point that is not a
/// surrogate.
pub open spec fn is_scalar_value(code: u32) -> bool {
    code <= 0xD7FF || (0xE000 <= code <= 0x10_FFFF)
}

/// A character is the character of its own number.
pub proof fn char_of_its_number(c: char, code: u32)
    requires
        c as u32 == code,
    ensures
        c == code as char,
        is_scalar_value(code),
{
}

/// The character with the given number, if there is one.
///
/// Trusted: `char::from_u32`, which the standard library documents as
/// returning the `char` of that value, and `None` exactly when the number
/// is not a valid `char`, that is, not a Unicode scalar value.
#[verifier::external_body]
pub(crate) fn char_from_u32(code: u32) -> (r: Option<char>)
    ensures
        match r {
            Some(c) => c as u32 == code && is_scalar_value(code),
            None => !is_scalar_value(code),
        },
{
    char::from_u32(code)
}


/// Whether Unicode gives the character the property `Uppercase`.
pub uninterp spec fn unicode_uppercase(c: char) -> bool;

/// Whether Unicode gives the character the property `Lowercase`.
pub uninterp spec fn unicode_lowercase(c: char) -> bool;

/// Whether the character is in one of Unicode's number categories.
pub uninterp spec fn unicode_numeric(c: char) -> bool;

/// Tests whether a character is upper case.
///
/// Trusted: `char::is_uppercase`, which goes by Unicode's tables.
#[verifier::external_body]
pub(crate) fn is_uppercase(c: char) -> (r: bool)
    ensures
        r == unicode_uppercase(c),
{
    c.is_uppercase()
}

/// Tests whether a character is lower case.
///
/// Trusted: `char::is_lowercase`, which goes by Unicode's tables.
#[verifier::external_body]
pub(crate) fn is_lowercase(c: char) -> (r: bool)
    ensures
        r == unicode_lowercase(c),
{
    c.is_lowercase()
}

/// Tests whether a character is a number.
///
/// Trusted: `char::is_numeric`, which goes by Unicode's tables.
#[verifier::external_body]
pub(crate) fn is_numeric(c: char) -> (r: bool)
    ensures
        r == unicode_numeric(c),
{
    c.is_numeric()
}

/// The character in lower case if it is one of the letters `A` to `Z`,
/// else the character itself.
pub open spec fn ascii_lowercase(c: char) -> char {
    if 'A' <= c <= 'Z' {
        ((c as u32) + 32) as char
    } else {
        c
    }
}

/// Lowers one of the letters `A` to `Z`.
///
/// Trusted: `char::to_ascii_lowercase`, which the standard library
/// documents as mapping `A` to `Z` to `a` to `z` and leaving every other
/// character unchanged.
#[verifier::external_body]
pub(crate) fn to_ascii_lowercase(c: char) -> (r: char)
    ensures
        r == ascii_lowercase(c),
{
    c.to_ascii_lowercase()
}

/// The characters of a text.
pub fn chars_of(text: &str) -> (chars: Vec<char>)
    ensures
        chars@ == text@,
{
    let n: usize = text.unicode_len();
    let mut chars: Vec<char> = Vec::new();
    let mut i: usize = 0;
    while i < n
        invariant
            n == text@.len(),
            i <= n,
            chars@ == text@.take(i as int),
        decreases n - i,
    {
        chars.push(text.get_char(i));
        assert(text@.take(i + 1) =~= text@.take(i as int).push(text@[i as int]));
        i = i + 1;
    }
    assert(text@.take(n as int) =~= text@);
    chars
}

/// The text of the characters.
pub fn text_of(chars: &Vec<char>) -> (text: String)
    ensures
        text@ == chars@,
{
    let mut text = String::new();
    let mut i: usize = 0;
    while i < chars.len()
        invariant
            i <= chars.len(),
            text@ == chars@.take(i as int),
        decreases chars.len() - i,
    {
        push_char(&mut text, chars[i]);
        assert(chars@.take(i + 1) =~= chars@.take(i as int).push(chars@[i as int]));
        i = i + 1;
    }
    assert(chars@.take(chars.len() as int) =~= chars@);
    text
}

/// The text with every occurrence of a pattern replaced, found from the
/// left and not overlapping. An empty pattern occurs nowhere.
pub open spec fn replaced(text: Seq<char>, pattern: Seq<char>, replacement: Seq<char>) -> Seq<char>
    decreases text.len(),
{
    if pattern.len() == 0 || text.len() < pattern.len() {
        text
    } else if text.take(pattern.len() as int) == pattern {
        replacement + replaced(text.skip(pattern.len() as int), pattern, replacement)
    } else {
        seq![text[0]] + replaced(text.skip(1), pattern, replacement)
    }
}

/// Tests whether the pattern stands in the text at the given place.
fn stands_at(text: &Vec<char>, at: usize, pattern: &Vec<char>) -> (r: bool)
    requires
        at + pattern@.len() <= text@.len(),
    ensures
        r == (text@.skip(at as int).take(pattern@.len() as int) == pattern@),
{
    let mut k: usize = 0;
    assert(text@.len() == text.len());
    while k < pattern.len()
        invariant
            k <= pattern@.len(),
            at + pattern@.len() <= text@.len(),
            text@.len() <= usize::MAX,
            forall|j: int| 0 <= j < k ==> text@[at + j] == pattern@[j],
        decreases pattern.len() - k,
    {
        if text[at + k] != pattern[k] {
            assert(text@.skip(at as int).take(pattern@.len() as int)[k as int]
                != pattern@[k as int]);
            return false;
        }
        k = k + 1;
    }
    assert(text@.skip(at as int).take(pattern@.len() as int) =~= pattern@);
    true
}

/// Replaces every occurrence of a pattern that is not empty, as
/// `str::replace` does.
pub fn replace_all(text: &Vec<char>, pattern: &Vec<char>, replacement: &Vec<char>) -> (result:
    Vec<char>)
    ensures
        result@ == replaced(text@, pattern@, replacement@),
{
    let n: usize = text.len();
    let m: usize = pattern.len();
    let mut result: Vec<char> = Vec::new();
    let mut i: usize = 0;
    assert(text@.skip(0) =~= text@);
    if m == 0 {
        while i < n
            invariant
                n == text@.len(),
                i <= n,
                result@ == text@.take(i as int),
            decreases n - i,
        {
            result.push(text[i]);
            assert(text@.take(i + 1) =~= text@.take(i as int).push(text@[i as int]));
            i = i + 1;
        }
        assert(text@.take(n as int) =~= text@);
        return result;
    }
    while i < n
        invariant
            n == text@.len(),
            m == pattern@.len(),
            m > 0,
            i <= n,
            replaced(text@, pattern@, replacement@) == result@ + replaced(
                text@.skip(i as int),
                pattern@,
                replacement@,
            ),
        decreases n - i,
    {
        let ghost rest = text@.skip(i as int);
        if m <= n - i && stands_at(text, i, pattern) {
            let mut k: usize = 0;
            let ghost before = result@;
            while k < replacement.len()
                invariant
                    k <= replacement@.len(),
                    result@ == before + replacement@.take(k as int),
                decreases replacement.len() - k,
            {
                result.push(replacement[k]);
                assert(replacement@.take(k + 1) =~= replacement@.take(k as int).push(
                    replacement@[k as int],
                ));
                k = k + 1;
            }
            assert(replacement@.take(replacement@.len() as int) =~= replacement@);
            assert(rest.skip(m as int) =~= text@.skip(i + m));
            assert(result@ + replaced(text@.skip(i + m), pattern@, replacement@) =~= before + (
            replacement@ + replaced(rest.skip(m as int), pattern@, replacement@)));
            i = i + m;
        } else {
            let ghost before = result@;
            result.push(text[i]);
            assert(rest.skip(1) =~= text@.skip(i + 1));
            if m <= n - i {
                assert(result@ + replaced(text@.skip(i + 1), pattern@, replacement@) =~= before
                    + (seq![rest[0]] + replaced(rest.skip(1), pattern@, replacement@)));
                i = i + 1;
            } else {
                assert(replaced(rest, pattern@, replacement@) == rest);
                let mut j: usize = i + 1;
                while j < n
                    invariant
                        i < j <= n,
                        n == text@.len(),
                        result@ == before + text@.subrange(i as int, j as int),
                    decreases n - j,
                {
                    result.push(text[j]);
                    assert(text@.subrange(i as int, j + 1) =~= text@.subrange(
                        i as int,
                        j as int,
                    ).push(text@[j as int]));
                    j = j + 1;
                }
                assert(text@.subrange(i as int, n as int) =~= rest);
                assert(text@.skip(n as int) =~= Seq::<char>::empty());
                assert(result@ + replaced(text@.skip(n as int), pattern@, replacement@) =~= before
                    + rest);
                i = n;
            }
        }
    }
    assert(text@.skip(n as int) =~= Seq::<char>::empty());
    assert(result@ + Seq::<char>::empty() =~= result@);
    result
}

} // verus!

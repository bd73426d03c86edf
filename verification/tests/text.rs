use svg2font::icon::{snake_push, with_prefix};
use svg2font::manifest::push_hex4;
use svg2font::text::{chars_of, replace_all, text_of};
use svg2font::preview::push_decimal;
use svg2font::{
    base64_encode, filename_to_identifier, generate_manifest, generate_preview, FillRule, Icon,
};

#[test]
fn test_filename_to_identifier() {
    assert_eq!(
        filename_to_identifier("arrowDown-filled"),
        "arrow_down_filled"
    );
    assert_eq!(
        filename_to_identifier("Appliance-stroke"),
        "appliance_stroke"
    );
    assert_eq!(filename_to_identifier("Bank-filled"), "bank_filled");
    assert_eq!(filename_to_identifier("123icon"), "icon_123icon");
}

#[test]
fn identifier_of_outline_suffix_and_spaces() {
    assert_eq!(filename_to_identifier("chevronLeft-outline"), "chevron_left_outline");
    assert_eq!(filename_to_identifier("my icon"), "my_icon");
    assert_eq!(filename_to_identifier("a-b"), "a_b");
}

#[test]
fn identifier_of_empty_name_gets_prefix() {
    assert_eq!(filename_to_identifier(""), "icon_");
}

#[test]
fn identifier_keeps_runs_of_capitals_together() {
    assert_eq!(filename_to_identifier("HTMLFile"), "htmlfile");
    assert_eq!(filename_to_identifier("fileHTML"), "file_html");
}

#[test]
fn identifier_replaces_every_suffix_occurrence() {
    assert_eq!(
        filename_to_identifier("x-filled-filled"),
        "x_filled_filled"
    );
}

#[test]
fn base64_of_standard_vectors() {
    assert_eq!(base64_encode(b""), "");
    assert_eq!(base64_encode(b"f"), "Zg==");
    assert_eq!(base64_encode(b"fo"), "Zm8=");
    assert_eq!(base64_encode(b"foo"), "Zm9v");
    assert_eq!(base64_encode(b"foob"), "Zm9vYg==");
    assert_eq!(base64_encode(b"fooba"), "Zm9vYmE=");
    assert_eq!(base64_encode(b"foobar"), "Zm9vYmFy");
}

#[test]
fn base64_uses_the_whole_alphabet() {
    assert_eq!(base64_encode(&[0xfb, 0xff, 0xbf]), "+/+/");
    assert_eq!(base64_encode(&[0x00, 0x10, 0x83]), "ABCD");
    assert_eq!(base64_encode(&[0xd3, 0x5d, 0xb7]), "0123");
}

fn hex(code: u32) -> String {
    let mut text = String::from("U+");
    push_hex4(&mut text, code);
    text
}

#[test]
fn hexadecimal_has_at_least_four_digits() {
    assert_eq!(hex(0), "U+0000");
    assert_eq!(hex(0xE000), "U+E000");
    assert_eq!(hex(0xABC), "U+0ABC");
    assert_eq!(hex(0xFFFF), "U+FFFF");
    assert_eq!(hex(0x1_0000), "U+10000");
    assert_eq!(hex(0x10_FFFF), "U+10FFFF");
    assert_eq!(hex(0x90A_0B0C), "U+90A0B0C");
    assert_eq!(hex(u32::MAX), "U+FFFFFFFF");
    for code in [0u32, 9, 10, 15, 16, 255, 4095, 4096, 65535, 65536, 1 << 20, (1 << 24) - 1, 1 << 28] {
        assert_eq!(hex(code), format!("U+{:04X}", code));
    }
}

fn named(name: &str, filename: &str, codepoint: u32) -> Icon {
    Icon {
        name: name.to_string(),
        filename: filename.to_string(),
        path: vec![],
        width: 24,
        height: 24,
        fill_rule: FillRule::NonZero,
        codepoint,
    }
}

#[test]
fn manifest_lists_the_icons() {
    let icons = vec![named("arrow_down", "arrowDown", 0xE000), named("bank", "Bank", 0xE001)];
    assert_eq!(
        generate_manifest(&icons, "My Icons"),
        "{\n  \"fontFamily\": \"My Icons\",\n  \"icons\": [\n    { \"name\": \"arrow_down\", \"filename\": \"arrowDown\", \"codepoint\": \"E000\" },\n    { \"name\": \"bank\", \"filename\": \"Bank\", \"codepoint\": \"E001\" }\n  ]\n}"
    );
    assert_eq!(
        generate_manifest(&vec![named("a", "a", 0x1F600)], "I"),
        "{\n  \"fontFamily\": \"I\",\n  \"icons\": [\n    { \"name\": \"a\", \"filename\": \"a\", \"codepoint\": \"1F600\" }\n  ]\n}"
    );
    assert_eq!(
        generate_manifest(&vec![], "Icons"),
        "{\n  \"fontFamily\": \"Icons\",\n  \"icons\": [\n\n  ]\n}"
    );
}

fn replace(text: &str, pattern: &str, replacement: &str) -> String {
    text_of(&replace_all(&chars_of(text), &chars_of(pattern), &chars_of(replacement)))
}

#[test]
fn replacing_goes_from_the_left_without_overlap() {
    assert_eq!(replace("aaaa", "aa", "b"), "bb");
    assert_eq!(replace("aaa", "aa", "b"), "ba");
    assert_eq!(replace("abcabc", "bc", ""), "aa");
    assert_eq!(replace("abc", "abcd", "x"), "abc");
    assert_eq!(replace("", "a", "x"), "");
    assert_eq!(replace("abc", "", "x"), "abc");
    assert_eq!(replace("x-filled", "-filled", "Filled"), "xFilled");
    for (text, pattern, with) in [("banana", "ana", "o"), ("a-b-c", "-", "--"), ("\u{e9}t\u{e9}", "\u{e9}", "e")] {
        assert_eq!(replace(text, pattern, with), text.replace(pattern, with));
    }
}

#[test]
fn decimal_digits() {
    for n in [0usize, 7, 10, 99, 100, 12345, usize::MAX] {
        let mut text = String::from("n=");
        push_decimal(&mut text, n);
        assert_eq!(text, format!("n={}", n));
    }
}

// A sum over the characters of a text that notices a changed, missing or
// misplaced character.
fn weighted_sum(text: &str) -> u32 {
    let mut sum: u32 = 0;
    for (i, c) in text.chars().enumerate() {
        sum = sum.wrapping_add((c as u32).wrapping_mul(i as u32 + 1));
    }
    sum
}

#[test]
fn preview_page_shows_the_font_and_its_icons() {
    let icons = vec![named("arrow_down", "arrowDown", 0xE000), named("bank", "Bank", 0x1F600)];
    let page = generate_preview(&icons, "My Icons", &[0, 1, 2, 3, 250, 251, 252]);
    assert!(page.starts_with("<!DOCTYPE html>\n<html lang=\"en\">"));
    assert!(page.ends_with("</body>\n</html>"));
    assert!(page.contains("<title>My Icons - Icon Font Preview</title>"));
    assert!(page.contains("font-family: 'My Icons';"));
    assert!(page.contains("src: url('data:font/truetype;base64,AAECA/r7/A==') format('truetype');"));
    assert!(page.contains("<h1>My Icons</h1>"));
    assert!(page.contains("<p class=\"stats\">2 icons</p>"));
    assert!(page.contains(
        "\n        <div class=\"icon-card\" data-name=\"arrowDown\" data-codepoint=\"E000\">\n            <div class=\"icon-glyph\">&#xE000;</div>\n            <div class=\"icon-name\">arrowDown</div>\n            <div class=\"icon-code\">U+E000</div>\n        </div>\n        <div class=\"icon-card\" data-name=\"Bank\" data-codepoint=\"1F600\">"
    ));
    assert_eq!(page.matches("class=\"icon-card\"").count(), 2);
    assert_eq!(page.chars().count(), 10762);
    assert_eq!(weighted_sum(&page), 175112428);
}

#[test]
fn preview_page_without_icons() {
    let page = generate_preview(&vec![], "", &[]);
    assert!(page.contains("<p class=\"stats\">0 icons</p>"));
    assert!(page.contains("base64,') format"));
    assert_eq!(page.matches("class=\"icon-card\"").count(), 0);
    assert_eq!(page.chars().count(), 10243);
    assert_eq!(weighted_sum(&page), 4054733853);
}

#[test]
fn snake_case_step_by_step() {
    let mut written = vec!['a'];
    // An upper-case letter after a lower-case one begins a word.
    assert!(!snake_push(&mut written, true, 'B', true, false));
    assert_eq!(written, vec!['a', '_', 'b']);
    // After another upper-case letter it does not.
    assert!(!snake_push(&mut written, false, 'C', true, false));
    assert_eq!(written, vec!['a', '_', 'b', 'c']);
    assert!(snake_push(&mut written, false, 'd', false, true));
    assert!(!snake_push(&mut written, true, '-', false, false));
    assert!(!snake_push(&mut written, false, ' ', false, false));
    assert!(!snake_push(&mut written, false, '7', false, false));
    // Only the letters A to Z are lowered.
    assert!(!snake_push(&mut written, true, '\u{c9}', true, false));
    assert_eq!(written, vec!['a', '_', 'b', 'c', 'd', '_', '_', '7', '_', '\u{c9}']);
}

#[test]
fn prefix_goes_before_numbers_and_nothing() {
    assert_eq!(with_prefix("7up".to_string(), true), "icon_7up");
    assert_eq!(with_prefix("up".to_string(), false), "up");
    assert_eq!(with_prefix(String::new(), false), "icon_");
}

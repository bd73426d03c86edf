//! The preview page: an HTML page that shows every icon of a font, with
//! the font itself embedded in it as base64 text.

use vstd::prelude::*;
use vstd::string::StringExecFns;
use crate::icon::Icon;
use crate::manifest::{hex4, push_hex4};
use crate::text::push_char;

verus! {

/// The character that stands for the six-bit value `v` in the standard
/// base64 alphabet (`A`–`Z`, `a`–`z`, `0`–`9`, `+`, `/`).
pub open spec fn base64_symbol(v: int) -> char {
    if v < 26 {
        ('A' as int + v) as char
    } else if v < 52 {
        ('a' as int + (v - 26)) as char
    } else if v < 62 {
        ('0' as int + (v - 52)) as char
    } else if v == 62 {
        '+'
    } else {
        '/'
    }
}

/// The four characters that encode one group of up to three bytes.
/// `n` is the number of bytes present (1, 2 or 3); absent bytes are given
/// as zero and their positions are filled with the padding character `=`.
pub open spec fn base64_group(b0: int, b1: int, b2: int, n: int) -> Seq<char> {
    seq![
        base64_symbol(b0 / 4),
        base64_symbol((b0 % 4) * 16 + b1 / 16),
        if n > 1 { base64_symbol((b1 % 16) * 4 + b2 / 64) } else { '=' },
        if n > 2 { base64_symbol(b2 % 64) } else { '=' },
    ]
}

/// The padded base64 encoding of a byte sequence.
pub open spec fn base64_text(data: Seq<u8>) -> Seq<char>
    decreases data.len(),
{
    if data.len() == 0 {
        Seq::empty()
    } else if data.len() == 1 {
        base64_group(data[0] as int, 0, 0, 1)
    } else if data.len() == 2 {
        base64_group(data[0] as int, data[1] as int, 0, 2)
    } else {
        base64_group(data[0] as int, data[1] as int, data[2] as int, 3) + base64_text(
            data.skip(3),
        )
    }
}

/// The encoding of the first `k` bytes of `data`, for `k` a multiple of
/// three, extended by one more full group.
proof fn base64_text_prefix_step(data: Seq<u8>, k: int)
    requires
        0 <= k,
        k % 3 == 0,
        k + 3 <= data.len(),
    ensures
        base64_text(data.take(k + 3)) == base64_text(data.take(k)) + base64_group(
            data[k] as int,
            data[k + 1] as int,
            data[k + 2] as int,
            3,
        ),
    decreases k,
{
    let long = data.take(k + 3);
    if k == 0 {
        assert(long.skip(3) =~= Seq::<u8>::empty());
        assert(data.take(0) =~= Seq::<u8>::empty());
        assert(base64_text(long.skip(3)) =~= Seq::<char>::empty());
        assert(base64_text(data.take(0)) =~= Seq::<char>::empty());
        assert(base64_text(long) =~= base64_group(
            data[0] as int,
            data[1] as int,
            data[2] as int,
            3,
        ));
    } else {
        let short = data.take(k);
        assert(long.skip(3) =~= data.skip(3).take(k));
        assert(short.skip(3) =~= data.skip(3).take(k - 3));
        base64_text_prefix_step(data.skip(3), k - 3);
        assert(base64_text(long) =~= base64_text(short) + base64_group(
            data[k] as int,
            data[k + 1] as int,
            data[k + 2] as int,
            3,
        ));
    }
}

/// The encoding of a sequence whose length leaves a remainder of `n` bytes
/// (1 or 2) after the full groups.
proof fn base64_text_tail(data: Seq<u8>, k: int, n: int)
    requires
        0 <= k,
        k % 3 == 0,
        1 <= n <= 2,
        k + n == data.len(),
    ensures
        base64_text(data) == base64_text(data.take(k)) + base64_group(
            data[k] as int,
            if n > 1 { data[k + 1] as int } else { 0 },
            0,
            n,
        ),
    decreases k,
{
    if k == 0 {
        assert(data.take(0) =~= Seq::<u8>::empty());
        assert(base64_text(data) =~= Seq::<char>::empty() + base64_text(data));
    } else {
        let short = data.take(k);
        assert(short.skip(3) =~= data.skip(3).take(k - 3));
        base64_text_tail(data.skip(3), k - 3, n);
        assert(base64_text(data) =~= base64_text(short) + base64_group(
            data[k] as int,
            if n > 1 { data[k + 1] as int } else { 0 },
            0,
            n,
        ));
    }
}

fn symbol(v: u8) -> (c: char)
    requires
        v < 64,
    ensures
        c == base64_symbol(v as int),
{
    if v < 26 {
        (65u8 + v) as char
    } else if v < 52 {
        (97u8 + (v - 26)) as char
    } else if v < 62 {
        (48u8 + (v - 52)) as char
    } else if v == 62 {
        '+'
    } else {
        '/'
    }
}

/// Encodes bytes as padded base64 text.
pub fn base64_encode(data: &[u8]) -> (text: String)
    ensures
        text@ == base64_text(data@),
{
    let mut result = String::new();
    let n: usize = data.len();
    let mut i: usize = 0;
    proof {
        assert(data@.take(0) =~= Seq::<u8>::empty());
    }
    while n - i >= 3
        invariant
            n == data@.len(),
            i <= n,
            i % 3 == 0,
            result@ == base64_text(data@.take(i as int)),
        decreases n - i,
    {
        let b0: u8 = data[i];
        let b1: u8 = data[i + 1];
        let b2: u8 = data[i + 2];
        proof {
            base64_text_prefix_step(data@, i as int);
        }
        push_char(&mut result, symbol(b0 / 4));
        push_char(&mut result, symbol((b0 % 4) * 16 + b1 / 16));
        push_char(&mut result, symbol((b1 % 16) * 4 + b2 / 64));
        push_char(&mut result, symbol(b2 % 64));
        assert(result@ =~= base64_text(data@.take(i as int)) + base64_group(
            b0 as int,
            b1 as int,
            b2 as int,
            3,
        ));
        i = i + 3;
    }
    if n - i == 1 {
        let b0: u8 = data[i];
        proof {
            base64_text_tail(data@, i as int, 1);
        }
        push_char(&mut result, symbol(b0 / 4));
        push_char(&mut result, symbol((b0 % 4) * 16));
        push_char(&mut result, '=');
        push_char(&mut result, '=');
        assert(result@ =~= base64_text(data@.take(i as int)) + base64_group(b0 as int, 0, 0, 1));
    } else if n - i == 2 {
        let b0: u8 = data[i];
        let b1: u8 = data[i + 1];
        proof {
            base64_text_tail(data@, i as int, 2);
        }
        push_char(&mut result, symbol(b0 / 4));
        push_char(&mut result, symbol((b0 % 4) * 16 + b1 / 16));
        push_char(&mut result, symbol((b1 % 16) * 4));
        push_char(&mut result, '=');
        assert(result@ =~= base64_text(data@.take(i as int)) + base64_group(
            b0 as int,
            b1 as int,
            0,
            2,
        ));
    } else {
        assert(data@.take(i as int) =~= data@);
    }
    result
}



/// The card of one icon, in parts: between the parts stand the icon's
/// file name and its codepoint.
pub const CARD_0: &'static str = "\n\
\x20       <div class=\"icon-card\" data-name=\"";

pub const CARD_1: &'static str = "\" data-codepoint=\"";

pub const CARD_2: &'static str = "\">\n\
\x20           <div class=\"icon-glyph\">&#x";

pub const CARD_3: &'static str = ";</div>\n\
\x20           <div class=\"icon-name\">";

pub const CARD_4: &'static str = "</div>\n\
\x20           <div class=\"icon-code\">U+";

pub const CARD_5: &'static str = "</div>\n\
\x20       </div>";

/// The page, in parts: between the parts stand the family name, the font
/// as base64 text, the number of icons and the icons' cards.
pub const PAGE_0: &'static str = "<!DOCTYPE html>\n\
<html lang=\"en\">\n\
<head>\n\
\x20   <meta charset=\"UTF-8\">\n\
\x20   <meta name=\"viewport\" content=\"width=device-width, initial-scale=1.0\">\n\
\x20   <title>";

pub const PAGE_1: &'static str = " - Icon Font Preview</title>\n\
\x20   <style>\n\
\x20       @font-face {\n\
\x20           font-family: '";

pub const PAGE_2: &'static str = "';\n\
\x20           src: url('data:font/truetype;base64,";

pub const PAGE_3: &'static str = "') format('truetype');\n\
\x20           font-weight: normal;\n\
\x20           font-style: normal;\n\
\x20       }\n\
\n\
\x20       :root {\n\
\x20           --bg-primary: #ffffff;\n\
\x20           --bg-secondary: #f5f5f5;\n\
\x20           --bg-card: #ffffff;\n\
\x20           --border-color: #e0e0e0;\n\
\x20           --border-hover: #ccc;\n\
\x20           --text-primary: #1a1a1a;\n\
\x20           --text-secondary: #666;\n\
\x20           --text-muted: #999;\n\
\x20           --icon-color: #1a1a1a;\n\
\x20           --input-bg: #fff;\n\
\x20           --toast-bg: #333;\n\
\x20           --toast-color: #fff;\n\
\x20       }\n\
\n\
\x20       @media (prefers-color-scheme: dark) {\n\
\x20           :root:not([data-theme=\"light\"]) {\n\
\x20               --bg-primary: #0a0a0a;\n\
\x20               --bg-secondary: #111;\n\
\x20               --bg-card: #151515;\n\
\x20               --border-color: #222;\n\
\x20               --border-hover: #333;\n\
\x20               --text-primary: #e0e0e0;\n\
\x20               --text-secondary: #888;\n\
\x20               --text-muted: #555;\n\
\x20               --icon-color: #fff;\n\
\x20               --input-bg: #1a1a1a;\n\
\x20               --toast-bg: #444;\n\
\x20               --toast-color: #fff;\n\
\x20           }\n\
\x20       }\n\
\n\
\x20       [data-theme=\"dark\"] {\n\
\x20           --bg-primary: #0a0a0a;\n\
\x20           --bg-secondary: #111;\n\
\x20           --bg-card: #151515;\n\
\x20           --border-color: #222;\n\
\x20           --border-hover: #333;\n\
\x20           --text-primary: #e0e0e0;\n\
\x20           --text-secondary: #888;\n\
\x20           --text-muted: #555;\n\
\x20           --icon-color: #fff;\n\
\x20           --input-bg: #1a1a1a;\n\
\x20           --toast-bg: #444;\n\
\x20           --toast-color: #fff;\n\
\x20       }\n\
\n\
\x20       * {\n\
\x20           box-sizing: border-box;\n\
\x20           margin: 0;\n\
\x20           padding: 0;\n\
\x20       }\n\
\n\
\x20       body {\n\
\x20           font-family: -apple-system, BlinkMacSystemFont, 'Segoe UI', Roboto, sans-serif;\n\
\x20           background: var(--bg-primary);\n\
\x20           color: var(--text-primary);\n\
\x20           min-height: 100vh;\n\
\x20           transition: background 0.2s, color 0.2s;\n\
\x20       }\n\
\n\
\x20       .header {\n\
\x20           background: var(--bg-secondary);\n\
\x20           border-bottom: 1px solid var(--border-color);\n\
\x20           padding: 1.5rem 2rem;\n\
\x20           position: sticky;\n\
\x20           top: 0;\n\
\x20           z-index: 100;\n\
\x20       }\n\
\n\
\x20       .header-content {\n\
\x20           max-width: 1400px;\n\
\x20           margin: 0 auto;\n\
\x20           display: flex;\n\
\x20           justify-content: space-between;\n\
\x20           align-items: center;\n\
\x20           gap: 1rem;\n\
\x20           flex-wrap: wrap;\n\
\x20       }\n\
\n\
\x20       h1 {\n\
\x20           font-size: 1.5rem;\n\
\x20           font-weight: 600;\n\
\x20       }\n\
\n\
\x20       .stats {\n\
\x20           color: var(--text-secondary);\n\
\x20           font-size: 0.875rem;\n\
\x20       }\n\
\n\
\x20       .controls {\n\
\x20           display: flex;\n\
\x20           gap: 1rem;\n\
\x20           align-items: center;\n\
\x20           flex-wrap: wrap;\n\
\x20       }\n\
\n\
\x20       .search-box {\n\
\x20           background: var(--input-bg);\n\
\x20           border: 1px solid var(--border-color);\n\
\x20           border-radius: 8px;\n\
\x20           padding: 0.5rem 1rem;\n\
\x20           color: var(--text-primary);\n\
\x20           font-size: 0.875rem;\n\
\x20           width: 200px;\n\
\x20       }\n\
\n\
\x20       .search-box:focus {\n\
\x20           outline: none;\n\
\x20           border-color: var(--border-hover);\n\
\x20       }\n\
\n\
\x20       .size-control {\n\
\x20           display: flex;\n\
\x20           align-items: center;\n\
\x20           gap: 0.5rem;\n\
\x20       }\n\
\n\
\x20       .size-control label {\n\
\x20           font-size: 0.875rem;\n\
\x20           color: var(--text-secondary);\n\
\x20       }\n\
\n\
\x20       .size-slider {\n\
\x20           width: 100px;\n\
\x20       }\n\
\n\
\x20       .theme-toggle {\n\
\x20           background: var(--input-bg);\n\
\x20           border: 1px solid var(--border-color);\n\
\x20           border-radius: 8px;\n\
\x20           padding: 0.5rem;\n\
\x20           cursor: pointer;\n\
\x20           font-size: 1.25rem;\n\
\x20           line-height: 1;\n\
\x20           transition: border-color 0.2s;\n\
\x20       }\n\
\n\
\x20       .theme-toggle:hover {\n\
\x20           border-color: var(--border-hover);\n\
\x20       }\n\
\n\
\x20       .container {\n\
\x20           max-width: 1400px;\n\
\x20           margin: 0 auto;\n\
\x20           padding: 2rem;\n\
\x20       }\n\
\n\
\x20       .grid {\n\
\x20           display: grid;\n\
\x20           grid-template-columns: repeat(auto-fill, minmax(140px, 1fr));\n\
\x20           gap: 1rem;\n\
\x20       }\n\
\n\
\x20       .icon-card {\n\
\x20           background: var(--bg-card);\n\
\x20           border: 1px solid var(--border-color);\n\
\x20           border-radius: 12px;\n\
\x20           padding: 1.25rem;\n\
\x20           text-align: center;\n\
\x20           cursor: pointer;\n\
\x20           transition: all 0.2s ease;\n\
\x20       }\n\
\n\
\x20       .icon-card:hover {\n\
\x20           border-color: var(--border-hover);\n\
\x20           transform: translateY(-2px);\n\
\x20       }\n\
\n\
\x20       .icon-card.hidden {\n\
\x20           display: none;\n\
\x20       }\n\
\n\
\x20       .icon-glyph {\n\
\x20           font-family: '";

pub const PAGE_4: &'static str = "';\n\
\x20           font-size: var(--icon-size, 32px);\n\
\x20           line-height: 1;\n\
\x20           margin-bottom: 0.75rem;\n\
\x20           color: var(--icon-color);\n\
\x20       }\n\
\n\
\x20       .icon-name {\n\
\x20           font-size: 0.75rem;\n\
\x20           color: var(--text-secondary);\n\
\x20           word-break: break-word;\n\
\x20           margin-bottom: 0.25rem;\n\
\x20       }\n\
\n\
\x20       .icon-code {\n\
\x20           font-size: 0.625rem;\n\
\x20           color: var(--text-muted);\n\
\x20           font-family: monospace;\n\
\x20       }\n\
\n\
\x20       .toast {\n\
\x20           position: fixed;\n\
\x20           bottom: 2rem;\n\
\x20           left: 50%;\n\
\x20           transform: translateX(-50%) translateY(100px);\n\
\x20           background: var(--toast-bg);\n\
\x20           color: var(--toast-color);\n\
\x20           padding: 0.75rem 1.5rem;\n\
\x20           border-radius: 8px;\n\
\x20           font-size: 0.875rem;\n\
\x20           opacity: 0;\n\
\x20           transition: all 0.3s ease;\n\
\x20           z-index: 1000;\n\
\x20       }\n\
\n\
\x20       .toast.show {\n\
\x20           transform: translateX(-50%) translateY(0);\n\
\x20           opacity: 1;\n\
\x20       }\n\
\n\
\x20       .no-results {\n\
\x20           grid-column: 1 / -1;\n\
\x20           text-align: center;\n\
\x20           padding: 3rem;\n\
\x20           color: var(--text-muted);\n\
\x20       }\n\
\x20   </style>\n\
</head>\n\
<body>\n\
\x20   <header class=\"header\">\n\
\x20       <div class=\"header-content\">\n\
\x20           <div>\n\
\x20               <h1>";

pub const PAGE_5: &'static str = "</h1>\n\
\x20               <p class=\"stats\">";

pub const PAGE_6: &'static str = " icons</p>\n\
\x20           </div>\n\
\x20           <div class=\"controls\">\n\
\x20               <input type=\"text\" class=\"search-box\" placeholder=\"Search icons...\" id=\"search\">\n\
\x20               <div class=\"size-control\">\n\
\x20                   <label>Size:</label>\n\
\x20                   <input type=\"range\" class=\"size-slider\" id=\"size\" min=\"16\" max=\"64\" value=\"32\">\n\
\x20                   <span id=\"size-value\">32px</span>\n\
\x20               </div>\n\
\x20               <button class=\"theme-toggle\" id=\"theme-toggle\" title=\"Toggle theme\">\n\
\x20                   <span class=\"theme-icon\">\u{f0}\u{178}\u{152}\u{2122}</span>\n\
\x20               </button>\n\
\x20           </div>\n\
\x20       </div>\n\
\x20   </header>\n\
\n\
\x20   <main class=\"container\">\n\
\x20       <div class=\"grid\" id=\"grid\">\n\
\x20           ";

pub const PAGE_7: &'static str = "\n\
\x20       </div>\n\
\x20   </main>\n\
\n\
\x20   <div class=\"toast\" id=\"toast\">Copied!</div>\n\
\n\
\x20   <script>\n\
\x20       const grid = document.getElementById('grid');\n\
\x20       const search = document.getElementById('search');\n\
\x20       const sizeSlider = document.getElementById('size');\n\
\x20       const sizeValue = document.getElementById('size-value');\n\
\x20       const toast = document.getElementById('toast');\n\
\x20       const themeToggle = document.getElementById('theme-toggle');\n\
\x20       const themeIcon = themeToggle.querySelector('.theme-icon');\n\
\n\
\x20       // Theme handling\n\
\x20       function getSystemTheme() {\n\
\x20           return window.matchMedia('(prefers-color-scheme: dark)').matches ? 'dark' : 'light';\n\
\x20       }\n\
\n\
\x20       function getCurrentTheme() {\n\
\x20           return document.documentElement.dataset.theme || getSystemTheme();\n\
\x20       }\n\
\n\
\x20       function setTheme(theme) {\n\
\x20           document.documentElement.dataset.theme = theme;\n\
\x20           themeIcon.textContent = theme === 'dark' ? '\u{e2}\u{2dc}\u{20ac}\u{ef}\u{b8}' : '\u{f0}\u{178}\u{152}\u{2122}';\n\
\x20           localStorage.setItem('theme', theme);\n\
\x20       }\n\
\n\
\x20       // Initialize theme\n\
\x20       const savedTheme = localStorage.getItem('theme');\n\
\x20       if (savedTheme) {\n\
\x20           setTheme(savedTheme);\n\
\x20       } else {\n\
\x20           themeIcon.textContent = getSystemTheme() === 'dark' ? '\u{e2}\u{2dc}\u{20ac}\u{ef}\u{b8}' : '\u{f0}\u{178}\u{152}\u{2122}';\n\
\x20       }\n\
\n\
\x20       themeToggle.addEventListener('click', () => {\n\
\x20           const newTheme = getCurrentTheme() === 'dark' ? 'light' : 'dark';\n\
\x20           setTheme(newTheme);\n\
\x20       });\n\
\n\
\x20       // Search functionality\n\
\x20       search.addEventListener('input', (e) => {\n\
\x20           const query = e.target.value.toLowerCase();\n\
\x20           document.querySelectorAll('.icon-card').forEach(card => {\n\
\x20               const name = card.dataset.name.toLowerCase();\n\
\x20               const code = card.dataset.codepoint.toLowerCase();\n\
\x20               const matches = name.includes(query) || code.includes(query);\n\
\x20               card.classList.toggle('hidden', !matches);\n\
\x20           });\n\
\n\
\x20           const visible = document.querySelectorAll('.icon-card:not(.hidden)').length;\n\
\x20           const noResults = document.querySelector('.no-results');\n\
\x20           if (visible === 0 && !noResults) {\n\
\x20               grid.insertAdjacentHTML('beforeend', '<div class=\"no-results\">No icons found</div>');\n\
\x20           } else if (visible > 0 && noResults) {\n\
\x20               noResults.remove();\n\
\x20           }\n\
\x20       });\n\
\n\
\x20       // Size control\n\
\x20       sizeSlider.addEventListener('input', (e) => {\n\
\x20           const size = e.target.value;\n\
\x20           document.documentElement.style.setProperty('--icon-size', size + 'px');\n\
\x20           sizeValue.textContent = size + 'px';\n\
\x20       });\n\
\n\
\x20       // Copy on click\n\
\x20       grid.addEventListener('click', (e) => {\n\
\x20           const card = e.target.closest('.icon-card');\n\
\x20           if (!card) return;\n\
\n\
\x20           const codepoint = card.dataset.codepoint;\n\
\x20           const text = `U+${codepoint}`;\n\
\n\
\x20           navigator.clipboard.writeText(text).then(() => {\n\
\x20               toast.textContent = `Copied ${text}`;\n\
\x20               toast.classList.add('show');\n\
\x20               setTimeout(() => toast.classList.remove('show'), 2000);\n\
\x20           });\n\
\x20       });\n\
\x20   </script>\n\
</body>\n\
</html>";


/// The decimal digits of a number.
pub open spec fn decimal(n: nat) -> Seq<char>
    decreases n,
{
    if n < 10 {
        seq![('0' as int + n) as char]
    } else {
        decimal(n / 10).push(('0' as int + n % 10) as char)
    }
}

/// Writes a number behind a text in decimal digits.
pub fn push_decimal(text: &mut String, n: usize)
    ensures
        final(text)@ == old(text)@ + decimal(n as nat),
    decreases n,
{
    if n >= 10 {
        push_decimal(text, n / 10);
    }
    let digit: u8 = (n % 10) as u8;
    push_char(text, (48u8 + digit) as char);
    assert(text@ =~= old(text)@ + decimal(n as nat));
}

/// The card of one icon: its glyph, its file name and its codepoint.
pub open spec fn card(icon: Icon) -> Seq<char> {
    CARD_0@ + icon.filename@ + CARD_1@ + hex4(icon.codepoint) + CARD_2@ + hex4(icon.codepoint)
        + CARD_3@ + icon.filename@ + CARD_4@ + hex4(icon.codepoint) + CARD_5@
}

/// The cards of the first `upto` icons.
pub open spec fn cards(icons: Seq<Icon>, upto: nat) -> Seq<char>
    decreases upto,
{
    if upto == 0 {
        Seq::empty()
    } else {
        cards(icons, (upto - 1) as nat) + card(icons[upto - 1])
    }
}

/// The preview page of a font: the page's parts with the family name, the
/// font as base64 text, the number of icons and the icons' cards between
/// them. Names are written as they are.
pub open spec fn preview_text(icons: Seq<Icon>, font_name: Seq<char>, font: Seq<u8>) -> Seq<char> {
    PAGE_0@ + font_name + PAGE_1@ + font_name + PAGE_2@ + base64_text(font) + PAGE_3@ + font_name
        + PAGE_4@ + font_name + PAGE_5@ + decimal(icons.len()) + PAGE_6@ + cards(
        icons,
        icons.len(),
    ) + PAGE_7@
}

/// Writes the preview page of a font as HTML text.
pub fn generate_preview(icons: &Vec<Icon>, font_name: &str, font: &[u8]) -> (text: String)
    ensures
        text@ == preview_text(icons@, font_name@, font@),
{
    let mut text = String::from_str(PAGE_0);
    text.append(font_name);
    text.append(PAGE_1);
    text.append(font_name);
    text.append(PAGE_2);
    let encoded = base64_encode(font);
    text.append(encoded.as_str());
    text.append(PAGE_3);
    text.append(font_name);
    text.append(PAGE_4);
    text.append(font_name);
    text.append(PAGE_5);
    push_decimal(&mut text, icons.len());
    text.append(PAGE_6);
    let ghost head = text@;
    let mut i: usize = 0;
    assert(text@ =~= head + cards(icons@, 0));
    while i < icons.len()
        invariant
            i <= icons.len(),
            text@ == head + cards(icons@, i as nat),
        decreases icons.len() - i,
    {
        let icon = &icons[i];
        let ghost before = text@;
        text.append(CARD_0);
        text.append(icon.filename.as_str());
        text.append(CARD_1);
        push_hex4(&mut text, icon.codepoint);
        text.append(CARD_2);
        push_hex4(&mut text, icon.codepoint);
        text.append(CARD_3);
        text.append(icon.filename.as_str());
        text.append(CARD_4);
        push_hex4(&mut text, icon.codepoint);
        text.append(CARD_5);
        assert(text@ =~= before + card(icons@[i as int]));
        assert(text@ =~= head + cards(icons@, (i + 1) as nat));
        i = i + 1;
    }
    text.append(PAGE_7);
    text
}

} // verus!

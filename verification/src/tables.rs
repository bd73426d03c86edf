//! The font's tables as plain values: what each table is to say, before
//! any of it is encoded.

use vstd::prelude::*;
use vstd::string::StringExecFns;
use vstd::string::StrSliceExecFns;
use crate::outline::UNITS_PER_EM;
use crate::text::push_char;

verus! {

/// The font header.
#[derive(Clone, Copy, Debug, PartialEq, Eq, Structural)]
pub struct HeadTable {
    /// The font's revision, a whole number.
    pub font_revision: i32,
    pub units_per_em: u16,
    /// The smallest size, in pixels to the em, at which the font reads.
    pub lowest_rec_ppem: u16,
    /// 0 if the glyph offsets are short, 1 if they are long.
    pub index_to_loc_format: i16,
}

/// The header of the horizontal metrics.
#[derive(Clone, Copy, Debug, PartialEq, Eq, Structural)]
pub struct HheaTable {
    pub ascender: i16,
    pub descender: i16,
    pub line_gap: i16,
    pub advance_width_max: u16,
    pub min_left_side_bearing: i16,
    pub min_right_side_bearing: i16,
    pub x_max_extent: i16,
    pub caret_slope_rise: i16,
    pub caret_slope_run: i16,
    pub caret_offset: i16,
    pub number_of_h_metrics: u16,
}

/// The horizontal metrics of one glyph.
#[derive(Clone, Copy, Debug, PartialEq, Eq, Structural)]
pub struct Metric {
    pub advance: u16,
    pub side_bearing: i16,
}

/// The glyph count.
#[derive(Clone, Copy, Debug, PartialEq, Eq, Structural)]
pub struct MaxpTable {
    pub num_glyphs: u16,
}

/// One entry of the character map.
#[derive(Clone, Copy, Debug, PartialEq, Eq, Structural)]
pub struct Mapping {
    pub character: char,
    pub glyph: u32,
}

/// One entry of the naming table.
#[derive(Debug)]
pub struct NameEntry {
    pub platform_id: u16,
    pub encoding_id: u16,
    pub language_id: u16,
    pub name_id: u16,
    pub text: String,
}

pub struct NameEntryView {
    pub platform_id: u16,
    pub encoding_id: u16,
    pub language_id: u16,
    pub name_id: u16,
    pub text: Seq<char>,
}

impl View for NameEntry {
    type V = NameEntryView;

    open spec fn view(&self) -> NameEntryView {
        NameEntryView {
            platform_id: self.platform_id,
            encoding_id: self.encoding_id,
            language_id: self.language_id,
            name_id: self.name_id,
            text: self.text@,
        }
    }
}

pub open spec fn name_views(entries: Seq<NameEntry>) -> Seq<NameEntryView> {
    entries.map_values(|e: NameEntry| e@)
}

/// The font's descriptive metrics.
#[derive(Clone, Copy, Debug, PartialEq, Eq, Structural)]
pub struct Os2Table {
    pub x_avg_char_width: i16,
    pub us_weight_class: u16,
    pub us_width_class: u16,
    pub fs_type: u16,
    pub y_subscript_x_size: i16,
    pub y_subscript_y_size: i16,
    pub y_subscript_x_offset: i16,
    pub y_subscript_y_offset: i16,
    pub y_superscript_x_size: i16,
    pub y_superscript_y_size: i16,
    pub y_superscript_x_offset: i16,
    pub y_superscript_y_offset: i16,
    pub y_strikeout_size: i16,
    pub y_strikeout_position: i16,
    pub ul_unicode_range_1: u32,
    pub ul_unicode_range_2: u32,
    pub ul_unicode_range_3: u32,
    pub ul_unicode_range_4: u32,
    pub s_typo_ascender: i16,
    pub s_typo_descender: i16,
    pub s_typo_line_gap: i16,
    pub us_win_ascent: u16,
    pub us_win_descent: u16,
    pub ul_code_page_range_1: Option<u32>,
    pub ul_code_page_range_2: Option<u32>,
    pub sx_height: Option<i16>,
    pub s_cap_height: Option<i16>,
    pub us_default_char: Option<u16>,
    pub us_break_char: Option<u16>,
    pub us_max_context: Option<u16>,
}

/// The ascender of every font built here.
pub const ASCENDER: i16 = 800;

/// The descender of every font built here.
pub const DESCENDER: i16 = -200;

pub const NAME_COPYRIGHT: u16 = 0;

pub const NAME_FAMILY: u16 = 1;

pub const NAME_SUBFAMILY: u16 = 2;

pub const NAME_UNIQUE_ID: u16 = 3;

pub const NAME_FULL: u16 = 4;

pub const NAME_VERSION: u16 = 5;

pub const NAME_POSTSCRIPT: u16 = 6;

/// The platform of every name entry: Windows.
pub const PLATFORM_WINDOWS: u16 = 3;

/// The encoding of every name entry: Unicode, basic plane.
pub const ENCODING_UNICODE_BMP: u16 = 1;

/// The language of every name entry: English, United States.
pub const LANGUAGE_EN_US: u16 = 0x409;

/// The bit of the fourth Unicode range word that marks the private use
/// area of the basic plane.
pub const RANGE_PRIVATE_USE: u32 = 0x1000_0000;

/// The metrics of every glyph: it advances by the em and starts at the
/// origin.
pub open spec fn glyph_metric() -> Metric {
    Metric { advance: UNITS_PER_EM, side_bearing: 0 }
}

/// The font header for a font whose glyph offsets are long or short.
pub open spec fn head_table(long_offsets: bool) -> HeadTable {
    HeadTable {
        font_revision: 1,
        units_per_em: UNITS_PER_EM,
        lowest_rec_ppem: 8,
        index_to_loc_format: if long_offsets {
            1
        } else {
            0
        },
    }
}

/// Builds the font header.
pub fn build_head(long_offsets: bool) -> (head: HeadTable)
    ensures
        head == head_table(long_offsets),
{
    HeadTable {
        font_revision: 1,
        units_per_em: UNITS_PER_EM,
        lowest_rec_ppem: 8,
        index_to_loc_format: if long_offsets {
            1
        } else {
            0
        },
    }
}

/// The header of the horizontal metrics for a font of `num_glyphs` glyphs.
pub open spec fn hhea_table(num_glyphs: u16) -> HheaTable {
    HheaTable {
        ascender: ASCENDER,
        descender: DESCENDER,
        line_gap: 0,
        advance_width_max: UNITS_PER_EM,
        min_left_side_bearing: 0,
        min_right_side_bearing: 0,
        x_max_extent: UNITS_PER_EM as i16,
        caret_slope_rise: 1,
        caret_slope_run: 0,
        caret_offset: 0,
        number_of_h_metrics: num_glyphs,
    }
}

/// Builds the header of the horizontal metrics.
pub fn build_hhea(num_glyphs: u16) -> (hhea: HheaTable)
    ensures
        hhea == hhea_table(num_glyphs),
{
    HheaTable {
        ascender: ASCENDER,
        descender: DESCENDER,
        line_gap: 0,
        advance_width_max: UNITS_PER_EM,
        min_left_side_bearing: 0,
        min_right_side_bearing: 0,
        x_max_extent: 1000,
        caret_slope_rise: 1,
        caret_slope_run: 0,
        caret_offset: 0,
        number_of_h_metrics: num_glyphs,
    }
}

/// The horizontal metrics of a font of `num_glyphs` glyphs.
pub open spec fn hmtx_table(num_glyphs: nat) -> Seq<Metric> {
    Seq::new(num_glyphs, |i: int| glyph_metric())
}

/// Builds the horizontal metrics: the same metric for every glyph.
pub fn build_hmtx(num_glyphs: u16) -> (metrics: Vec<Metric>)
    ensures
        metrics@ == hmtx_table(num_glyphs as nat),
{
    let mut metrics: Vec<Metric> = Vec::new();
    let mut i: u16 = 0;
    while i < num_glyphs
        invariant
            i <= num_glyphs,
            metrics@ =~= hmtx_table(i as nat),
        decreases num_glyphs - i,
    {
        metrics.push(Metric { advance: UNITS_PER_EM, side_bearing: 0 });
        i = i + 1;
    }
    metrics
}

/// The descriptive metrics of every font built here.
pub open spec fn os2_table() -> Os2Table {
    Os2Table {
        x_avg_char_width: UNITS_PER_EM as i16,
        us_weight_class: 400,
        us_width_class: 5,
        fs_type: 0,
        y_subscript_x_size: 650,
        y_subscript_y_size: 600,
        y_subscript_x_offset: 0,
        y_subscript_y_offset: 75,
        y_superscript_x_size: 650,
        y_superscript_y_size: 600,
        y_superscript_x_offset: 0,
        y_superscript_y_offset: 350,
        y_strikeout_size: 50,
        y_strikeout_position: 300,
        ul_unicode_range_1: 0,
        ul_unicode_range_2: 0,
        ul_unicode_range_3: 0,
        ul_unicode_range_4: RANGE_PRIVATE_USE,
        s_typo_ascender: ASCENDER,
        s_typo_descender: DESCENDER,
        s_typo_line_gap: 0,
        us_win_ascent: 1000,
        us_win_descent: 200,
        ul_code_page_range_1: Some(1u32),
        ul_code_page_range_2: Some(0u32),
        sx_height: Some(500i16),
        s_cap_height: Some(700i16),
        us_default_char: Some(0u16),
        us_break_char: Some(32u16),
        us_max_context: Some(0u16),
    }
}

/// Builds the descriptive metrics. They are the same for every font.
pub fn build_os2() -> (os2: Os2Table)
    ensures
        os2 == os2_table(),
{
    Os2Table {
        x_avg_char_width: 1000,
        us_weight_class: 400,
        us_width_class: 5,
        fs_type: 0,
        y_subscript_x_size: 650,
        y_subscript_y_size: 600,
        y_subscript_x_offset: 0,
        y_subscript_y_offset: 75,
        y_superscript_x_size: 650,
        y_superscript_y_size: 600,
        y_superscript_x_offset: 0,
        y_superscript_y_offset: 350,
        y_strikeout_size: 50,
        y_strikeout_position: 300,
        ul_unicode_range_1: 0,
        ul_unicode_range_2: 0,
        ul_unicode_range_3: 0,
        ul_unicode_range_4: RANGE_PRIVATE_USE,
        s_typo_ascender: ASCENDER,
        s_typo_descender: DESCENDER,
        s_typo_line_gap: 0,
        us_win_ascent: 1000,
        us_win_descent: 200,
        ul_code_page_range_1: Some(1),
        ul_code_page_range_2: Some(0),
        sx_height: Some(500),
        s_cap_height: Some(700),
        us_default_char: Some(0),
        us_break_char: Some(32),
        us_max_context: Some(0),
    }
}

/// The names of the glyphs in the glyph-name table: none.
pub fn build_post() -> (glyph_names: Vec<String>)
    ensures
        glyph_names@.len() == 0,
{
    Vec::new()
}

/// A name entry for Windows, Unicode, English (United States).
pub open spec fn name_entry(name_id: u16, text: Seq<char>) -> NameEntryView {
    NameEntryView {
        platform_id: PLATFORM_WINDOWS,
        encoding_id: ENCODING_UNICODE_BMP,
        language_id: LANGUAGE_EN_US,
        name_id,
        text,
    }
}

/// Makes a name entry for Windows, Unicode, English (United States).
pub fn create_name_record(name_id: u16, value: &str) -> (entry: NameEntry)
    ensures
        entry@ == name_entry(name_id, value@),
{
    NameEntry {
        platform_id: PLATFORM_WINDOWS,
        encoding_id: ENCODING_UNICODE_BMP,
        language_id: LANGUAGE_EN_US,
        name_id,
        text: String::from_str(value),
    }
}

/// A text without its spaces.
pub open spec fn without_spaces(text: Seq<char>) -> Seq<char>
    decreases text.len(),
{
    if text.len() == 0 {
        Seq::empty()
    } else if text.last() == ' ' {
        without_spaces(text.drop_last())
    } else {
        without_spaces(text.drop_last()).push(text.last())
    }
}

/// Removes the spaces from a text.
pub fn remove_spaces(text: &str) -> (result: String)
    ensures
        result@ == without_spaces(text@),
{
    let n: usize = text.unicode_len();
    let mut result = String::new();
    let mut i: usize = 0;
    while i < n
        invariant
            n == text@.len(),
            i <= n,
            result@ == without_spaces(text@.take(i as int)),
        decreases n - i,
    {
        assert(text@.take(i + 1).drop_last() =~= text@.take(i as int));
        let c = text.get_char(i);
        if c != ' ' {
            push_char(&mut result, c);
        }
        i = i + 1;
    }
    assert(text@.take(n as int) =~= text@);
    result
}

/// The naming table of a font of the given family name: copyright notice,
/// family, subfamily, unique identifier, full name, version, and the
/// PostScript name, which is the family name without spaces.
pub open spec fn name_table(font_name: Seq<char>) -> Seq<NameEntryView> {
    seq![
        name_entry(NAME_COPYRIGHT, "Generated by svg2font"@),
        name_entry(NAME_FAMILY, font_name),
        name_entry(NAME_SUBFAMILY, "Regular"@),
        name_entry(NAME_UNIQUE_ID, "svg2font: "@ + font_name),
        name_entry(NAME_FULL, font_name),
        name_entry(NAME_VERSION, "Version 1.0"@),
        name_entry(NAME_POSTSCRIPT, without_spaces(font_name)),
    ]
}

/// Builds the naming table.
pub fn build_name(font_name: &str) -> (entries: Vec<NameEntry>)
    ensures
        name_views(entries@) == name_table(font_name@),
{
    let mut entries: Vec<NameEntry> = Vec::new();
    entries.push(create_name_record(NAME_COPYRIGHT, "Generated by svg2font"));
    entries.push(create_name_record(NAME_FAMILY, font_name));
    entries.push(create_name_record(NAME_SUBFAMILY, "Regular"));
    let unique = String::from_str("svg2font: ").concat(font_name);
    entries.push(create_name_record(NAME_UNIQUE_ID, unique.as_str()));
    entries.push(create_name_record(NAME_FULL, font_name));
    entries.push(create_name_record(NAME_VERSION, "Version 1.0"));
    let postscript = remove_spaces(font_name);
    entries.push(create_name_record(NAME_POSTSCRIPT, postscript.as_str()));
    assert(name_views(entries@) =~= name_table(font_name@));
    entries
}

} // verus!

//! Encoding: the calls into the `write-fonts` crate that trace a glyph
//! from an outline, turn plain table values into table bytes and table
//! bytes into a font file, and the calls into `kurbo` that make the path
//! which `write-fonts` traces.
//!
//! Nothing here is proved. Each encoder's result is given a name, and the
//! rest of the library states its results over those names.

use vstd::prelude::*;
use kurbo::{BezPath, PathEl};
use write_fonts::dump_table;
use write_fonts::error::Error;
use write_fonts::tables::cmap::Cmap;
use write_fonts::tables::glyf::{Bbox, Contour, GlyfLocaBuilder, SimpleGlyph};
use write_fonts::tables::head::Head;
use write_fonts::tables::hhea::Hhea;
use write_fonts::tables::hmtx::{Hmtx, LongMetric};
use write_fonts::tables::loca::LocaFormat;
use write_fonts::tables::maxp::Maxp;
use write_fonts::tables::name::{Name, NameRecord};
use write_fonts::tables::os2::Os2;
use write_fonts::tables::post::Post;
use write_fonts::read::tables::glyf::CurvePoint as RawPoint;
use write_fonts::types::{FWord, Fixed, GlyphId, NameId, Tag, UfWord};
use write_fonts::FontBuilder;
use crate::glyph::{encodable, CurvePoint, GlyphShape, ShapeView};
use crate::path::{PathCommand, Point};
use crate::tables::{
    name_views, HeadTable, HheaTable, Mapping, MaxpTable, Metric, NameEntry, NameEntryView,
    Os2Table,
};

verus! {

/// The error of `write-fonts` on compiling a table.
#[verifier::external_type_specification]
#[verifier::external_body]
pub struct ExError(Error);

/// The builder of `write-fonts` for the glyph data and glyph offsets.
#[verifier::external_type_specification]
#[verifier::external_body]
pub struct ExGlyfLocaBuilder(GlyfLocaBuilder);

/// The path of `kurbo`: drawing commands between points.
#[verifier::external_type_specification]
#[verifier::external_body]
pub struct ExBezPath(BezPath);

/// The builder of `write-fonts` for a font file.
#[verifier::external_type_specification]
#[verifier::external_body]
pub struct ExFontBuilder<'a>(FontBuilder<'a>);

/// One table of a font file: its four-byte tag and its bytes.
#[derive(Debug)]
pub struct TablePayload {
    pub tag: [u8; 4],
    pub data: Vec<u8>,
}

pub struct PayloadView {
    pub tag: Seq<u8>,
    pub data: Seq<u8>,
}

impl View for TablePayload {
    type V = PayloadView;

    open spec fn view(&self) -> PayloadView {
        PayloadView { tag: self.tag@, data: self.data@ }
    }
}

/// What an encoder returned: the bytes, or nothing if it refused.
pub open spec fn encoded(r: Result<Vec<u8>, Error>) -> Option<Seq<u8>> {
    match r {
        Ok(bytes) => Some(bytes@),
        Err(_) => None,
    }
}

pub open spec fn bytes_of(r: Option<Vec<u8>>) -> Option<Seq<u8>> {
    match r {
        Some(bytes) => Some(bytes@),
        None => None,
    }
}

/// The bytes of the `head` table for the given values.
pub uninterp spec fn head_payload(head: HeadTable) -> Option<Seq<u8>>;

/// The bytes of the `hhea` table for the given values.
pub uninterp spec fn hhea_payload(hhea: HheaTable) -> Option<Seq<u8>>;

/// Whether `write-fonts` encodes the `maxp` table of the given values.
pub uninterp spec fn maxp_encodes(maxp: MaxpTable) -> bool;

/// A number of 16 bits in two bytes, the greater byte first.
pub open spec fn be16(v: int) -> Seq<u8> {
    seq![(v / 256) as u8, (v % 256) as u8]
}

/// The bytes of the `maxp` table: version 0.5, which counts the glyphs
/// and nothing else, then the glyph count.
pub open spec fn maxp_bytes(maxp: MaxpTable) -> Seq<u8> {
    seq![0u8, 0u8, 0x50u8, 0u8] + be16(maxp.num_glyphs as int)
}

/// The bytes of the `maxp` table for the given values, if the table is
/// encoded.
pub open spec fn maxp_payload(maxp: MaxpTable) -> Option<Seq<u8>> {
    if maxp_encodes(maxp) {
        Some(maxp_bytes(maxp))
    } else {
        None
    }
}

/// The bytes of the `OS/2` table for the given values.
pub uninterp spec fn os2_payload(os2: Os2Table) -> Option<Seq<u8>>;

/// Whether `write-fonts` encodes the `hmtx` table of the given metrics.
pub uninterp spec fn hmtx_encodes(metrics: Seq<Metric>) -> bool;

/// The bytes of one metric: the advance, then the side bearing in two's
/// complement.
pub open spec fn metric_bytes(metric: Metric) -> Seq<u8> {
    be16(metric.advance as int) + be16(
        if metric.side_bearing < 0 {
            metric.side_bearing + 0x1_0000
        } else {
            metric.side_bearing as int
        },
    )
}

/// The bytes of the `hmtx` table: the bytes of each metric in turn.
pub open spec fn hmtx_bytes(metrics: Seq<Metric>) -> Seq<u8>
    decreases metrics.len(),
{
    if metrics.len() == 0 {
        Seq::empty()
    } else {
        hmtx_bytes(metrics.drop_last()) + metric_bytes(metrics.last())
    }
}

/// The bytes of the `hmtx` table for the given metrics, if the table is
/// encoded.
pub open spec fn hmtx_payload(metrics: Seq<Metric>) -> Option<Seq<u8>> {
    if hmtx_encodes(metrics) {
        Some(hmtx_bytes(metrics))
    } else {
        None
    }
}

/// The bytes of the `cmap` table for the given mappings.
pub uninterp spec fn cmap_payload(mappings: Seq<Mapping>) -> Option<Seq<u8>>;

/// The bytes of the `name` table for the given entries.
pub uninterp spec fn name_payload(entries: Seq<NameEntryView>) -> Option<Seq<u8>>;

/// The bytes of the `post` table for the given glyph names.
pub uninterp spec fn post_payload(glyph_names: Seq<Seq<char>>) -> Option<Seq<u8>>;

/// Whether a path of `kurbo` holds commands on the grid: every coordinate
/// is a whole number of 32 bits, and the first command, if there is one,
/// is a move.
pub uninterp spec fn on_the_grid(path: BezPath) -> bool;

/// The commands that a path of `kurbo` on the grid holds.
pub uninterp spec fn path_commands(path: BezPath) -> Seq<PathCommand>;

/// The glyph that `write-fonts` traces from the commands of a path, if it
/// traces one.
pub uninterp spec fn traced_glyph(outline: Seq<PathCommand>) -> Option<ShapeView>;

/// The glyphs that have been added to a glyph builder, in the order in
/// which they were added.
pub uninterp spec fn held_glyphs(builder: GlyfLocaBuilder) -> Seq<ShapeView>;

/// The bytes of the `glyf` table for the given glyphs.
pub uninterp spec fn glyf_payload(glyphs: Seq<ShapeView>) -> Option<Seq<u8>>;

/// The bytes of the `loca` table for the given glyphs.
pub uninterp spec fn loca_payload(glyphs: Seq<ShapeView>) -> Option<Seq<u8>>;

/// Whether the offsets of the given glyphs need the long form.
pub uninterp spec fn long_offsets(glyphs: Seq<ShapeView>) -> bool;

/// The tables that a font builder holds: the bytes of each table under
/// the table's tag.
pub uninterp spec fn held_tables(builder: FontBuilder<'static>) -> Map<Seq<u8>, Seq<u8>>;

/// Whether a font builder was given no checksum of a table: it works out
/// every checksum itself.
pub uninterp spec fn no_given_checksum(builder: FontBuilder<'static>) -> bool;

/// The bytes of the font file made of the given tables.
pub uninterp spec fn font_file(tables: Map<Seq<u8>, Seq<u8>>) -> Seq<u8>;

/// Encodes the `head` table.
///
/// Trusted: `write_fonts::dump_table` on a `Head` that holds the given
/// values and the crate's defaults elsewhere. The result depends on the
/// values alone.
#[verifier::external_body]
pub(crate) fn encode_head(head: &HeadTable) -> (r: Result<Vec<u8>, Error>)
    ensures
        encoded(r) == head_payload(*head),
{
    let HeadTable { font_revision, units_per_em, lowest_rec_ppem, index_to_loc_format } = *head;
    let font_revision = Fixed::from_i32(font_revision);
    dump_table(
        &Head { font_revision, units_per_em, lowest_rec_ppem, index_to_loc_format, ..Default::default() },
    )
}

/// Encodes the `hhea` table.
///
/// Trusted: `write_fonts::dump_table` on an `Hhea` that holds the given
/// values. The result depends on the values alone.
#[verifier::external_body]
pub(crate) fn encode_hhea(hhea: &HheaTable) -> (r: Result<Vec<u8>, Error>)
    ensures
        encoded(r) == hhea_payload(*hhea),
{
    let t = *hhea;
    dump_table(
        &Hhea::new(
            FWord::new(t.ascender), FWord::new(t.descender), FWord::new(t.line_gap),
            UfWord::new(t.advance_width_max), FWord::new(t.min_left_side_bearing),
            FWord::new(t.min_right_side_bearing), FWord::new(t.x_max_extent),
            t.caret_slope_rise, t.caret_slope_run, t.caret_offset, t.number_of_h_metrics,
        ),
    )
}

/// Encodes the `maxp` table.
///
/// Trusted: `write_fonts::dump_table` on a `Maxp` that holds the given
/// glyph count and no other limit. Whether the table is encoded depends
/// on the count alone. A `Maxp` without other limits is of version 0.5,
/// and the crate writes of it the version and the glyph count.
#[verifier::external_body]
pub(crate) fn encode_maxp(maxp: &MaxpTable) -> (r: Result<Vec<u8>, Error>)
    ensures
        r is Ok <==> maxp_encodes(*maxp),
        r matches Ok(bytes) ==> bytes@ == maxp_bytes(*maxp),
{
    dump_table(&Maxp::new(maxp.num_glyphs))
}

/// Encodes the `OS/2` table.
///
/// Trusted: `write_fonts::dump_table` on an `Os2` that holds the given
/// values and the crate's defaults elsewhere. The result depends on the
/// values alone.
#[verifier::external_body]
pub(crate) fn encode_os2(os2: &Os2Table) -> (r: Result<Vec<u8>, Error>)
    ensures
        encoded(r) == os2_payload(*os2),
{
    let Os2Table { x_avg_char_width, us_weight_class, us_width_class, fs_type, y_subscript_x_size,
        y_subscript_y_size, y_subscript_x_offset, y_subscript_y_offset, y_superscript_x_size,
        y_superscript_y_size, y_superscript_x_offset, y_superscript_y_offset, y_strikeout_size,
        y_strikeout_position, ul_unicode_range_1, ul_unicode_range_2, ul_unicode_range_3,
        ul_unicode_range_4, s_typo_ascender, s_typo_descender, s_typo_line_gap, us_win_ascent, us_win_descent,
        ul_code_page_range_1, ul_code_page_range_2, sx_height, s_cap_height, us_default_char, us_break_char, us_max_context } = *os2;
    dump_table(&Os2 { x_avg_char_width, us_weight_class, us_width_class, fs_type, y_subscript_x_size,
        y_subscript_y_size, y_subscript_x_offset, y_subscript_y_offset, y_superscript_x_size,
        y_superscript_y_size, y_superscript_x_offset, y_superscript_y_offset, y_strikeout_size,
        y_strikeout_position, ul_unicode_range_1, ul_unicode_range_2, ul_unicode_range_3,
        ul_unicode_range_4, s_typo_ascender, s_typo_descender, s_typo_line_gap, us_win_ascent, us_win_descent,
        ul_code_page_range_1, ul_code_page_range_2, sx_height, s_cap_height, us_default_char, us_break_char, us_max_context,
        ..Default::default() })
}

/// Encodes the `hmtx` table.
///
/// Trusted: `write_fonts::dump_table` on an `Hmtx` that holds the given
/// metrics and no further side bearings. Whether the table is encoded
/// depends on the metrics alone. The crate writes of each metric the
/// advance and the side bearing, two bytes each.
#[verifier::external_body]
pub(crate) fn encode_hmtx(metrics: &Vec<Metric>) -> (r: Result<Vec<u8>, Error>)
    ensures
        r is Ok <==> hmtx_encodes(metrics@),
        r matches Ok(bytes) ==> bytes@ == hmtx_bytes(metrics@),
{
    let long = metrics.iter().map(|m| LongMetric::new(m.advance, m.side_bearing)).collect();
    dump_table(&Hmtx::new(long, Vec::new()))
}

/// Encodes the `cmap` table.
///
/// Trusted: `write_fonts::tables::cmap::Cmap::from_mappings` on the given
/// pairs, then `write_fonts::dump_table` on what it made; nothing comes
/// back if either refuses. The result depends on the mappings alone.
#[verifier::external_body]
pub(crate) fn encode_cmap(mappings: &Vec<Mapping>) -> (r: Option<Vec<u8>>)
    requires
        mappings@.len() <= 0xffff,
        forall|i: int| 0 <= i < mappings@.len() ==> (#[trigger] mappings@[i]).glyph <= 0xffff,
    ensures
        bytes_of(r) == cmap_payload(mappings@),
{
    let pairs: Vec<(char, GlyphId)> =
        mappings.iter().map(|m| (m.character, GlyphId::new(m.glyph))).collect();
    Cmap::from_mappings(pairs).ok().and_then(|cmap| dump_table(&cmap).ok())
}

/// The number of 16-bit units that a text takes in UTF-16.
pub open spec fn utf16_units(text: Seq<char>) -> nat
    decreases text.len(),
{
    if text.len() == 0 {
        0
    } else {
        utf16_units(text.drop_last()) + (if text.last() as u32 >= 0x1_0000 {
            2nat
        } else {
            1nat
        })
    }
}

/// The greatest number of entries that a naming table is given here.
pub const MAX_NAME_ENTRIES: usize = 4096;

/// The greatest number of 16-bit units that the text of a name entry may
/// take: the table states a text's length in bytes in 16 bits.
pub const MAX_NAME_UNITS: usize = 32767;

/// Encodes the `name` table.
///
/// Trusted: `write_fonts::dump_table` on a `Name` that holds the given
/// entries in the given order. The result depends on the entries alone.
/// The crate adds up each text's length in 16 bits, and the length of the
/// entries in 16 bits, whence the bounds.
#[verifier::external_body]
pub(crate) fn encode_name(entries: &Vec<NameEntry>) -> (r: Result<Vec<u8>, Error>)
    requires
        entries@.len() <= MAX_NAME_ENTRIES,
        forall|i: int|
            0 <= i < entries@.len() ==> utf16_units((#[trigger] entries@[i]).text@)
                <= MAX_NAME_UNITS,
    ensures
        encoded(r) == name_payload(name_views(entries@)),
{
    let records = entries.iter().map(|e| NameRecord::new(
        e.platform_id, e.encoding_id, e.language_id, NameId::new(e.name_id), e.text.clone().into(),
    )).collect();
    dump_table(&Name::new(records))
}

pub open spec fn texts(names: Seq<String>) -> Seq<Seq<char>> {
    names.map_values(|s: String| s@)
}

/// Encodes the `post` table.
///
/// Trusted: `write_fonts::tables::post::Post::new_v2` on the given glyph
/// names, then `write_fonts::dump_table`. The result depends on the names
/// alone.
#[verifier::external_body]
pub(crate) fn encode_post(glyph_names: &Vec<String>) -> (r: Result<Vec<u8>, Error>)
    ensures
        encoded(r) == post_payload(texts(glyph_names@)),
{
    let names: Vec<&str> = glyph_names.iter().map(|s| s.as_str()).collect();
    dump_table(&Post::new_v2(names))
}

pub open spec fn shape_view(shape: Option<GlyphShape>) -> Option<ShapeView> {
    match shape {
        Some(s) => Some(s@),
        None => None,
    }
}

/// Makes a path of `kurbo` that holds no command.
///
/// Trusted: `kurbo::BezPath::new`.
#[verifier::external_body]
pub(crate) fn new_path() -> (path: BezPath)
    ensures
        on_the_grid(path),
        path_commands(path).len() == 0,
{
    BezPath::new()
}

/// Adds a command to a path of `kurbo`.
///
/// Trusted: `kurbo::BezPath::push`, with the element of `kurbo` that the
/// command is, each point with the command's own coordinates. The crate
/// asserts that a path begins with a move, whence the requirement.
#[verifier::external_body]
pub(crate) fn push_command(path: &mut BezPath, command: PathCommand)
    requires
        on_the_grid(*old(path)),
        path_commands(*old(path)).len() > 0 || command.is_move(),
    ensures
        on_the_grid(*final(path)),
        path_commands(*final(path)) == path_commands(*old(path)).push(command),
{
    let at = |p: Point| kurbo::Point::new(p.x.into(), p.y.into());
    path.push(match command {
        PathCommand::MoveTo(p) => PathEl::MoveTo(at(p)),
        PathCommand::LineTo(p) => PathEl::LineTo(at(p)),
        PathCommand::QuadTo(c, p) => PathEl::QuadTo(at(c), at(p)),
        PathCommand::CubicTo(c1, c2, p) => PathEl::CurveTo(at(c1), at(c2), at(p)),
        PathCommand::Close => PathEl::ClosePath,
    });
}

/// Traces the glyph of a path.
///
/// Trusted: `write_fonts::tables::glyf::SimpleGlyph::from_bezpath`. Of a
/// path on the grid the result depends on the path's commands alone. The crate refuses a path
/// that holds a cubic, and one that draws or closes before it moves; it
/// refuses no other.
#[verifier::external_body]
pub(crate) fn trace_glyph(path: &BezPath) -> (r: Option<GlyphShape>)
    requires
        on_the_grid(*path),
    ensures
        shape_view(r) == traced_glyph(path_commands(*path)),
        r is None <==> has_cubic_or_no_move(path_commands(*path)),
{
    let glyph = SimpleGlyph::from_bezpath(path).ok()?;
    let ring = |c: &Contour| c.iter().map(|p| CurvePoint { x: p.x, y: p.y, on_curve: p.on_curve }).collect();
    let Bbox { x_min, y_min, x_max, y_max } = glyph.bbox;
    Some(GlyphShape { x_min, y_min, x_max, y_max, contours: glyph.contours.iter().map(ring).collect() })
}

/// Whether commands hold a cubic, or begin with something other than a
/// move.
pub open spec fn has_cubic_or_no_move(commands: Seq<PathCommand>) -> bool {
    (exists|i: int| 0 <= i < commands.len() && (#[trigger] commands[i]).is_cubic()) || (
    commands.len() > 0 && !commands[0].is_move())
}

/// Makes a glyph builder that holds no glyph.
///
/// Trusted: `write_fonts::tables::glyf::GlyfLocaBuilder::new`.
#[verifier::external_body]
pub(crate) fn glyph_builder() -> (builder: GlyfLocaBuilder)
    ensures
        held_glyphs(builder).len() == 0,
{
    GlyfLocaBuilder::new()
}

/// Adds a glyph to a glyph builder.
///
/// Trusted: `write_fonts::tables::glyf::GlyfLocaBuilder::add_glyph` on a
/// `SimpleGlyph` with the given box and contours, without instructions.
/// The crate refuses a glyph only for the length of its instructions, so
/// this glyph is always added. It panics on a glyph with 32767 contours
/// or more, on a first contour without points, and on a step between
/// points that does not fit 16 bits; and of a glyph without contours it
/// writes nothing, so that the box of such a glyph is not kept. Whence
/// the requirement, which admits a glyph without contours only with its
/// box at the origin.
#[verifier::external_body]
pub(crate) fn add_shape(builder: &mut GlyfLocaBuilder, shape: &GlyphShape)
    requires
        encodable(shape@),
    ensures
        held_glyphs(*final(builder)) == held_glyphs(*old(builder)).push(shape@),
{
    let ring = |c: &Vec<CurvePoint>| Contour::from(
        c.iter().map(|p| RawPoint::new(p.x, p.y, p.on_curve)).collect::<Vec<RawPoint>>(),
    );
    let bbox = Bbox { x_min: shape.x_min, y_min: shape.y_min, x_max: shape.x_max, y_max: shape.y_max };
    let contours = shape.contours.iter().map(ring).collect();
    let _ = builder.add_glyph(&SimpleGlyph { bbox, contours, ..Default::default() });
}

/// Finishes a glyph builder: the bytes of the `glyf` table, the bytes of
/// the `loca` table, and whether the offsets are long.
///
/// Trusted: `write_fonts::tables::glyf::GlyfLocaBuilder::build`, whose two
/// tables are turned into bytes by `write_fonts::dump_table`. The results
/// depend on the glyphs alone.
#[verifier::external_body]
pub(crate) fn finish_glyphs(builder: GlyfLocaBuilder) -> (r: (
    Result<Vec<u8>, Error>,
    Result<Vec<u8>, Error>,
    bool,
))
    ensures
        encoded(r.0) == glyf_payload(held_glyphs(builder)),
        encoded(r.1) == loca_payload(held_glyphs(builder)),
        r.2 == long_offsets(held_glyphs(builder)),
{
    let (glyf, loca, format) = builder.build();
    (dump_table(&glyf), dump_table(&loca), matches!(format, LocaFormat::Long))
}

/// The room that tables take in a font file: each table's bytes, padded
/// to a multiple of four, and sixteen bytes for its directory entry.
pub open spec fn padded_size(tables: Seq<PayloadView>) -> nat
    decreases tables.len(),
{
    if tables.len() == 0 {
        0
    } else {
        padded_size(tables.drop_last()) + tables.last().data.len() + 19
    }
}

/// The greatest room that the tables of one font may take.
pub const MAX_FONT_SIZE: usize = 0x7fff_0000;

/// The tables put under their tags one after the other: a table put under
/// the tag of an earlier one takes its place.
pub open spec fn table_map(tables: Seq<PayloadView>) -> Map<Seq<u8>, Seq<u8>>
    decreases tables.len(),
{
    if tables.len() == 0 {
        Map::empty()
    } else {
        table_map(tables.drop_last()).insert(tables.last().tag, tables.last().data)
    }
}

/// Whether held tables fit a font file: they are what is held after
/// putting in no more than 16 bits can count, of no more room than
/// `MAX_FONT_SIZE`.
pub open spec fn fits_a_file(held: Map<Seq<u8>, Seq<u8>>) -> bool {
    exists|tables: Seq<PayloadView>|
        #[trigger] table_map(tables) == held && tables.len() <= 0xffff && padded_size(tables)
            <= MAX_FONT_SIZE
}

/// Makes a font builder that holds no table.
///
/// Trusted: `write_fonts::FontBuilder::new`.
#[verifier::external_body]
pub(crate) fn font_builder() -> (builder: FontBuilder<'static>)
    ensures
        no_given_checksum(builder),
        held_tables(builder) == table_map(Seq::empty()),
{
    FontBuilder::new()
}

/// Puts a table into a font builder.
///
/// Trusted: `write_fonts::FontBuilder::add_raw`, which keeps the bytes
/// under the tag, in the place of any bytes kept under that tag before.
#[verifier::external_body]
pub(crate) fn add_payload(builder: &mut FontBuilder<'static>, table: TablePayload)
    requires
        no_given_checksum(*old(builder)),
    ensures
        no_given_checksum(*final(builder)),
        held_tables(*final(builder)) == held_tables(*old(builder)).insert(table.tag@, table.data@),
{
    builder.add_raw(Tag::new(&table.tag), table.data);
}

/// Lays out the font file.
///
/// Trusted: `write_fonts::FontBuilder::build`. Where the builder was
/// given no checksum, the result depends on the held tables alone. The crate counts the file's offsets in 32 bits and
/// its tables in 16, whence the requirement: every held table is one of
/// those that were put in.
#[verifier::external_body]
pub(crate) fn finish_font(builder: &mut FontBuilder<'static>) -> (bytes: Vec<u8>)
    requires
        no_given_checksum(*old(builder)),
        fits_a_file(held_tables(*old(builder))),
    ensures
        bytes@ == font_file(held_tables(*old(builder))),
{
    builder.build()
}

} // verus!

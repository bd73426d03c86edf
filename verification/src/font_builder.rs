//! Building the font: a glyph for every icon, the character map, and the
//! tables put together into one file.

use vstd::prelude::*;
use vstd::string::StrSliceExecFns;
use write_fonts::error::Error;
use crate::encode::{
    add_payload, add_shape, bytes_of, cmap_payload, encode_cmap, encode_head, encode_hhea,
    encode_hmtx, encode_maxp, encode_name, encode_os2, encode_post, encoded, finish_font,
    finish_glyphs, font_builder, font_file, glyf_payload, glyph_builder, head_payload,
    held_glyphs, held_tables, hhea_payload, no_given_checksum, hmtx_payload, loca_payload, long_offsets,
    maxp_payload, name_payload, os2_payload, padded_size, post_payload, table_map, texts,
    utf16_units, PayloadView, TablePayload, MAX_FONT_SIZE, MAX_NAME_UNITS,
};
use crate::glyph::{
    can_encode, empty_shape, encodable, glyph_shape, shape_error, shape_is_encodable, shape_of,
    total_points, CurvePoint, GlyphShape, ShapeError, ShapeView,
};
use crate::icon::{Icon, MAX_ICONS, PRIVATE_USE_BASE};
use crate::outline::{svg_path_to_glyph, OutlineError};
use crate::outline_laws::outline_has_shape_unless_too_large;
use crate::tables::{
    build_head, build_hhea, build_hmtx, build_name, build_os2, build_post, head_table,
    hhea_table, hmtx_table, name_table, name_views, os2_table, without_spaces, Mapping, MaxpTable,
};
use crate::text::{char_from_u32, char_of_its_number, is_scalar_value};

verus! {

/// The tables of the font, in the order in which they are added.
#[derive(Clone, Copy, Debug, PartialEq, Eq, Structural)]
pub enum TableKind {
    Head,
    Hhea,
    Maxp,
    Os2,
    Hmtx,
    Cmap,
    Name,
    Post,
    Loca,
    Glyf,
}

/// Why no font was built.
#[derive(Clone, Copy, Debug, PartialEq, Eq, Structural)]
pub enum BuildError {
    /// There are more glyphs than 16 bits can count.
    TooManyGlyphs,
    /// The family name is longer than `MAX_FAMILY_CHARS`.
    NameTooLong,
    /// The icon at the index has no outline.
    Outline { icon: usize, error: OutlineError },
    /// The outline of the icon at the index has no glyph shape.
    Shape { icon: usize, cause: ShapeError },
    /// The icon at the index has the codepoint of an icon before it.
    DuplicateCodepoint { icon: usize },
    /// The glyph at the index cannot be encoded.
    Glyph { index: usize },
    /// A mapping names a glyph that the font does not have, or there are
    /// more mappings than 16 bits can count.
    MappingOutOfRange,
    /// The encoder refused the table.
    Table(TableKind),
    /// The tables take more room than a font file has.
    FontTooLarge,
}

/// The greatest number of characters of a family name.
pub const MAX_FAMILY_CHARS: usize = 16000;

pub open spec fn shape_views(glyphs: Seq<GlyphShape>) -> Seq<ShapeView> {
    glyphs.map_values(|g: GlyphShape| g@)
}

/// The glyph that stands for a missing one: it has no contour.
pub open spec fn missing_glyph() -> ShapeView {
    empty_shape()
}

/// Makes the glyph that stands for a missing one.
pub fn empty_glyph() -> (glyph: GlyphShape)
    ensures
        glyph@ == missing_glyph(),
        glyph@.contours.len() == 0,
{
    let glyph = GlyphShape { x_min: 0, y_min: 0, x_max: 0, y_max: 0, contours: Vec::new() };
    assert(glyph@.contours =~= Seq::<Seq<CurvePoint>>::empty());
    glyph
}

/// Why the icon at `i` has no glyph, if it has none.
pub open spec fn glyph_error(icons: Seq<Icon>, i: int) -> Option<BuildError> {
    match icons[i].outline_error() {
        Some(error) => Some(BuildError::Outline { icon: i as usize, error }),
        None => match shape_error(icons[i].outline()) {
            Some(cause) => Some(BuildError::Shape { icon: i as usize, cause }),
            None => None,
        },
    }
}

/// The error of the first of the first `upto` icons that has no glyph.
pub open spec fn first_glyph_error(icons: Seq<Icon>, upto: nat) -> Option<BuildError>
    decreases upto,
{
    if upto == 0 {
        None
    } else {
        match first_glyph_error(icons, (upto - 1) as nat) {
            Some(e) => Some(e),
            None => glyph_error(icons, upto - 1),
        }
    }
}

/// Once one of the first icons has no glyph, the first error stays what
/// it is however many more icons are looked at.
proof fn first_glyph_error_stays(icons: Seq<Icon>, found: nat, upto: nat)
    requires
        found <= upto,
        first_glyph_error(icons, found) is Some,
    ensures
        first_glyph_error(icons, upto) == first_glyph_error(icons, found),
    decreases upto,
{
    if found < upto {
        first_glyph_error_stays(icons, found, (upto - 1) as nat);
    }
}

/// Why the icons have no glyphs, if they have none.
pub open spec fn glyphs_error(icons: Seq<Icon>) -> Option<BuildError> {
    if icons.len() > MAX_ICONS {
        Some(BuildError::TooManyGlyphs)
    } else {
        first_glyph_error(icons, icons.len())
    }
}

/// The glyphs of a font: the missing glyph at index 0, and at index `k`
/// the glyph of icon `k - 1`.
pub open spec fn font_glyphs(icons: Seq<Icon>) -> Seq<ShapeView> {
    Seq::new(
        icons.len() + 1,
        |k: int|
            if k == 0 {
                missing_glyph()
            } else {
                shape_of(icons[k - 1].outline())
            },
    )
}

/// Builds the glyphs of a font: the missing glyph first, then one glyph
/// for each icon, in the icons' order.
pub fn build_glyphs(icons: &Vec<Icon>) -> (r: Result<Vec<GlyphShape>, BuildError>)
    ensures
        match r {
            Ok(glyphs) => glyphs_error(icons@) is None && shape_views(glyphs@) == font_glyphs(
                icons@,
            ),
            Err(e) => glyphs_error(icons@) == Some(e),
        },
        r matches Ok(glyphs) ==> {
            &&& glyphs@.len() == icons@.len() + 1
            &&& glyphs@[0]@ == missing_glyph()
            &&& forall|k: int|
                1 <= k <= icons@.len() ==> (#[trigger] glyphs@[k])@ == shape_of(
                    icons@[k - 1].outline(),
                )
        },
{
    let n: usize = icons.len();
    if n > MAX_ICONS {
        return Err(BuildError::TooManyGlyphs);
    }
    let mut glyphs: Vec<GlyphShape> = Vec::new();
    glyphs.push(empty_glyph());
    let mut i: usize = 0;
    while i < n
        invariant
            n == icons@.len(),
            n <= MAX_ICONS,
            i <= n,
            first_glyph_error(icons@, i as nat) is None,
            glyphs@.len() == i + 1,
            glyphs@[0]@ == missing_glyph(),
            forall|k: int|
                1 <= k <= i ==> (#[trigger] glyphs@[k])@ == shape_of(icons@[k - 1].outline()),
        decreases n - i,
    {
        let outline = match svg_path_to_glyph(&icons[i]) {
            Ok(outline) => outline,
            Err(error) => {
                proof {
                    first_glyph_error_stays(icons@, (i + 1) as nat, n as nat);
                }
                return Err(BuildError::Outline { icon: i, error });
            },
        };
        let shape = match glyph_shape(&outline) {
            Ok(shape) => shape,
            Err(cause) => {
                proof {
                    first_glyph_error_stays(icons@, (i + 1) as nat, n as nat);
                }
                return Err(BuildError::Shape { icon: i, cause });
            },
        };
        glyphs.push(shape);
        i = i + 1;
    }
    assert(shape_views(glyphs@) =~= font_glyphs(icons@));
    Ok(glyphs)
}

/// Whether icon `i` has a codepoint that is a character and that an icon
/// before it has too.
pub open spec fn repeats(icons: Seq<Icon>, i: int) -> bool {
    is_scalar_value(icons[i].codepoint) && exists|j: int|
        0 <= j < i && (#[trigger] icons[j]).codepoint == icons[i].codepoint
}

/// The first of the first `upto` icons that repeats a codepoint.
pub open spec fn first_repeat(icons: Seq<Icon>, upto: nat) -> Option<int>
    decreases upto,
{
    if upto == 0 {
        None
    } else {
        match first_repeat(icons, (upto - 1) as nat) {
            Some(i) => Some(i),
            None => if repeats(icons, upto - 1) {
                Some(upto - 1)
            } else {
                None
            },
        }
    }
}

/// Once one of the first icons repeats a codepoint, the first repeat
/// stays what it is however many more icons are looked at.
proof fn first_repeat_stays(icons: Seq<Icon>, found: nat, upto: nat)
    requires
        found <= upto,
        first_repeat(icons, found) is Some,
    ensures
        first_repeat(icons, upto) == first_repeat(icons, found),
    decreases upto,
{
    if found < upto {
        first_repeat_stays(icons, found, (upto - 1) as nat);
    }
}

/// Why the icons have no character map, if they have none.
pub open spec fn cmap_error(icons: Seq<Icon>) -> Option<BuildError> {
    if icons.len() > MAX_ICONS {
        Some(BuildError::TooManyGlyphs)
    } else {
        match first_repeat(icons, icons.len()) {
            Some(i) => Some(BuildError::DuplicateCodepoint { icon: i as usize }),
            None => None,
        }
    }
}

/// The mapping of icon `i`: its codepoint, as a character, to its glyph,
/// which is glyph `i + 1`.
pub open spec fn mapping_of(icons: Seq<Icon>, i: int) -> Mapping {
    Mapping { character: icons[i].codepoint as char, glyph: (i + 1) as u32 }
}

/// The mappings of the first `upto` icons, in the icons' order. An icon
/// whose codepoint is no character has none.
pub open spec fn mappings_of(icons: Seq<Icon>, upto: nat) -> Seq<Mapping>
    decreases upto,
{
    if upto == 0 {
        Seq::empty()
    } else if is_scalar_value(icons[upto - 1].codepoint) {
        mappings_of(icons, (upto - 1) as nat).push(mapping_of(icons, upto - 1))
    } else {
        mappings_of(icons, (upto - 1) as nat)
    }
}

/// The character map holds the mapping of every icon whose codepoint is a
/// character, and nothing else: an icon whose codepoint is out of range
/// or a surrogate is absent from it.
pub proof fn mappings_are_of_characters(icons: Seq<Icon>, upto: nat)
    requires
        upto <= icons.len(),
        upto <= MAX_ICONS,
    ensures
        mappings_of(icons, upto).len() <= upto,
        forall|i: int|
            0 <= i < upto && is_scalar_value(#[trigger] icons[i].codepoint) ==> mappings_of(
                icons,
                upto,
            ).contains(mapping_of(icons, i)),
        forall|k: int|
            0 <= k < mappings_of(icons, upto).len() ==> {
                let m = #[trigger] mappings_of(icons, upto)[k];
                &&& 1 <= m.glyph <= upto
                &&& is_scalar_value(icons[m.glyph - 1].codepoint)
                &&& m == mapping_of(icons, m.glyph - 1)
            },
    decreases upto,
{
    if upto > 0 {
        let before = mappings_of(icons, (upto - 1) as nat);
        let all = mappings_of(icons, upto);
        mappings_are_of_characters(icons, (upto - 1) as nat);
        assert forall|i: int|
            0 <= i < upto && is_scalar_value(#[trigger] icons[i].codepoint) implies all.contains(
            mapping_of(icons, i),
        ) by {
            if i < upto - 1 {
                let k = choose|k: int| 0 <= k < before.len() && before[k] == mapping_of(icons, i);
                assert(all[k] == mapping_of(icons, i));
            } else {
                assert(all[all.len() - 1] == mapping_of(icons, i));
            }
        }
        assert forall|k: int| 0 <= k < all.len() implies {
            let m = #[trigger] all[k];
            &&& 1 <= m.glyph <= upto
            &&& is_scalar_value(icons[m.glyph - 1].codepoint)
            &&& m == mapping_of(icons, m.glyph - 1)
        } by {
            if k < before.len() {
                assert(all[k] == before[k]);
            }
        }
    }
}

/// Builds the character map: from each icon's codepoint to its glyph. An
/// icon whose codepoint is no character gets no mapping and keeps its
/// glyph. Two icons with one codepoint are an error.
pub fn build_cmap(icons: &Vec<Icon>) -> (r: Result<Vec<Mapping>, BuildError>)
    ensures
        match r {
            Ok(mappings) => cmap_error(icons@) is None && mappings@ == mappings_of(
                icons@,
                icons@.len(),
            ),
            Err(e) => cmap_error(icons@) == Some(e),
        },
        r matches Ok(mappings) ==> {
            &&& mappings@.len() <= icons@.len()
            &&& forall|i: int|
                0 <= i < icons@.len() ==> (is_scalar_value(#[trigger] icons@[i].codepoint)
                    <==> mappings@.contains(mapping_of(icons@, i)))
            &&& forall|k: int|
                0 <= k < mappings@.len() ==> 1 <= (#[trigger] mappings@[k]).glyph <= icons@.len()
        },
{
    let n: usize = icons.len();
    if n > MAX_ICONS {
        return Err(BuildError::TooManyGlyphs);
    }
    let mut mappings: Vec<Mapping> = Vec::new();
    let mut i: usize = 0;
    while i < n
        invariant
            n == icons@.len(),
            n <= MAX_ICONS,
            i <= n,
            first_repeat(icons@, i as nat) is None,
            mappings@ == mappings_of(icons@, i as nat),
        decreases n - i,
    {
        let code: u32 = icons[i].codepoint;
        match char_from_u32(code) {
            Some(character) => {
                let mut j: usize = 0;
                while j < i
                    invariant
                        j <= i < n,
                        n == icons@.len(),
                        code == icons@[i as int].codepoint,
                        forall|k: int| 0 <= k < j ==> (#[trigger] icons@[k]).codepoint != code,
                        first_repeat(icons@, i as nat) is None,
                        is_scalar_value(code),
                        character as u32 == code,
                        n <= MAX_ICONS,
                        mappings@ == mappings_of(icons@, i as nat),
                    decreases i - j,
                {
                    if icons[j].codepoint == code {
                        proof {
                            assert(repeats(icons@, i as int));
                            first_repeat_stays(icons@, (i + 1) as nat, n as nat);
                        }
                        return Err(BuildError::DuplicateCodepoint { icon: i });
                    }
                    j = j + 1;
                }
                proof {
                    char_of_its_number(character, code);
                }
                assert(code == icons@[i as int].codepoint);
                mappings.push(Mapping { character, glyph: (i + 1) as u32 });
            },
            None => {},
        }
        i = i + 1;
    }
    proof {
        mappings_are_of_characters(icons@, n as nat);
        let all = mappings_of(icons@, n as nat);
        assert forall|i: int| 0 <= i < n && all.contains(mapping_of(icons@, i)) implies
            is_scalar_value(#[trigger] icons@[i].codepoint) by {
            let k = choose|k: int| 0 <= k < all.len() && all[k] == mapping_of(icons@, i);
            assert(all[k].glyph == i + 1);
        }
    }
    Ok(mappings)
}


/// The four bytes by which a font file names a table.
pub open spec fn tag_of(kind: TableKind) -> Seq<u8> {
    match kind {
        TableKind::Head => seq![0x68u8, 0x65u8, 0x61u8, 0x64u8],
        TableKind::Hhea => seq![0x68u8, 0x68u8, 0x65u8, 0x61u8],
        TableKind::Maxp => seq![0x6du8, 0x61u8, 0x78u8, 0x70u8],
        TableKind::Os2 => seq![0x4fu8, 0x53u8, 0x2fu8, 0x32u8],
        TableKind::Hmtx => seq![0x68u8, 0x6du8, 0x74u8, 0x78u8],
        TableKind::Cmap => seq![0x63u8, 0x6du8, 0x61u8, 0x70u8],
        TableKind::Name => seq![0x6eu8, 0x61u8, 0x6du8, 0x65u8],
        TableKind::Post => seq![0x70u8, 0x6fu8, 0x73u8, 0x74u8],
        TableKind::Loca => seq![0x6cu8, 0x6fu8, 0x63u8, 0x61u8],
        TableKind::Glyf => seq![0x67u8, 0x6cu8, 0x79u8, 0x66u8],
    }
}

/// The tag of a table.
pub fn table_tag(kind: TableKind) -> (tag: [u8; 4])
    ensures
        tag@ == tag_of(kind),
{
    let tag: [u8; 4] = match kind {
        TableKind::Head => [0x68, 0x65, 0x61, 0x64],
        TableKind::Hhea => [0x68, 0x68, 0x65, 0x61],
        TableKind::Maxp => [0x6d, 0x61, 0x78, 0x70],
        TableKind::Os2 => [0x4f, 0x53, 0x2f, 0x32],
        TableKind::Hmtx => [0x68, 0x6d, 0x74, 0x78],
        TableKind::Cmap => [0x63, 0x6d, 0x61, 0x70],
        TableKind::Name => [0x6e, 0x61, 0x6d, 0x65],
        TableKind::Post => [0x70, 0x6f, 0x73, 0x74],
        TableKind::Loca => [0x6c, 0x6f, 0x63, 0x61],
        TableKind::Glyf => [0x67, 0x6c, 0x79, 0x66],
    };
    assert(tag@ =~= tag_of(kind));
    tag
}

/// The first of the first `upto` glyphs that cannot be encoded.
pub open spec fn first_unencodable(glyphs: Seq<ShapeView>, upto: nat) -> Option<int>
    decreases upto,
{
    if upto == 0 {
        None
    } else {
        match first_unencodable(glyphs, (upto - 1) as nat) {
            Some(i) => Some(i),
            None => if encodable(glyphs[upto - 1]) {
                None
            } else {
                Some(upto - 1)
            },
        }
    }
}

/// Once one of the first glyphs cannot be encoded, the first such glyph
/// stays what it is however many more glyphs are looked at.
proof fn first_unencodable_stays(glyphs: Seq<ShapeView>, found: nat, upto: nat)
    requires
        found <= upto,
        first_unencodable(glyphs, found) is Some,
    ensures
        first_unencodable(glyphs, upto) == first_unencodable(glyphs, found),
    decreases upto,
{
    if found < upto {
        first_unencodable_stays(glyphs, found, (upto - 1) as nat);
    }
}

/// Whether the mappings can be encoded for a font of `glyph_count`
/// glyphs: every mapping names a glyph of the font, and the mappings are
/// no more than 16 bits can count.
pub open spec fn mappings_fit(mappings: Seq<Mapping>, glyph_count: nat) -> bool {
    mappings.len() <= 0xffff && forall|k: int|
        0 <= k < mappings.len() ==> (#[trigger] mappings[k]).glyph < glyph_count
}

/// The bytes of the ten tables of a font, in the order of `TableKind`,
/// each as its encoder gives it or `None` if the encoder refuses.
pub open spec fn payloads(glyphs: Seq<ShapeView>, mappings: Seq<Mapping>, font_name: Seq<char>) -> Seq<
    Option<Seq<u8>>,
> {
    let count = glyphs.len() as u16;
    seq![
        head_payload(head_table(long_offsets(glyphs))),
        hhea_payload(hhea_table(count)),
        maxp_payload(MaxpTable { num_glyphs: count }),
        os2_payload(os2_table()),
        hmtx_payload(hmtx_table(count as nat)),
        cmap_payload(mappings),
        name_payload(name_table(font_name)),
        post_payload(Seq::empty()),
        loca_payload(glyphs),
        glyf_payload(glyphs),
    ]
}

pub open spec fn kind_at(i: int) -> TableKind {
    if i == 0 {
        TableKind::Head
    } else if i == 1 {
        TableKind::Hhea
    } else if i == 2 {
        TableKind::Maxp
    } else if i == 3 {
        TableKind::Os2
    } else if i == 4 {
        TableKind::Hmtx
    } else if i == 5 {
        TableKind::Cmap
    } else if i == 6 {
        TableKind::Name
    } else if i == 7 {
        TableKind::Post
    } else if i == 8 {
        TableKind::Loca
    } else {
        TableKind::Glyf
    }
}

/// The first of the first `upto` tables that its encoder refuses.
pub open spec fn refusal(p: Seq<Option<Seq<u8>>>, upto: nat) -> Option<TableKind>
    decreases upto,
{
    if upto == 0 {
        None
    } else {
        match refusal(p, (upto - 1) as nat) {
            Some(kind) => Some(kind),
            None => if p[upto - 1] is None {
                Some(kind_at(upto - 1))
            } else {
                None
            },
        }
    }
}

/// A table that is refused after none before it was is the first refused
/// of all ten.
proof fn refused_here(p: Seq<Option<Seq<u8>>>, k: nat)
    requires
        k < 10,
        refusal(p, k) is None,
        p[k as int] is None,
    ensures
        refusal(p, 10) == Some(kind_at(k as int)),
{
    assert(refusal(p, k + 1) == Some(kind_at(k as int)));
    refusal_stays(p, k + 1, 10);
}

/// Once one of the first tables is refused, the first refused table stays
/// what it is however many more tables are looked at.
proof fn refusal_stays(p: Seq<Option<Seq<u8>>>, found: nat, upto: nat)
    requires
        found <= upto,
        refusal(p, found) is Some,
    ensures
        refusal(p, upto) == refusal(p, found),
    decreases upto,
{
    if found < upto {
        refusal_stays(p, found, (upto - 1) as nat);
    }
}

/// The first `upto` tables as the font file holds them.
pub open spec fn tables_of(p: Seq<Option<Seq<u8>>>, upto: nat) -> Seq<PayloadView> {
    Seq::new(upto, |i: int| PayloadView { tag: tag_of(kind_at(i)), data: p[i].unwrap() })
}

/// Why glyphs, mappings and a family name make no font, if they make
/// none.
pub open spec fn assembly_error(
    glyphs: Seq<ShapeView>,
    mappings: Seq<Mapping>,
    font_name: Seq<char>,
) -> Option<BuildError> {
    let p = payloads(glyphs, mappings, font_name);
    if glyphs.len() > 0xffff {
        Some(BuildError::TooManyGlyphs)
    } else if font_name.len() > MAX_FAMILY_CHARS {
        Some(BuildError::NameTooLong)
    } else if first_unencodable(glyphs, glyphs.len()) is Some {
        Some(BuildError::Glyph { index: first_unencodable(glyphs, glyphs.len()).unwrap() as usize })
    } else if !mappings_fit(mappings, glyphs.len()) {
        Some(BuildError::MappingOutOfRange)
    } else {
        tables_error(p)
    }
}

/// The font file of glyphs, mappings and a family name, or why there is
/// none.
pub open spec fn assembled(glyphs: Seq<ShapeView>, mappings: Seq<Mapping>, font_name: Seq<char>) -> Result<
    Seq<u8>,
    BuildError,
> {
    match assembly_error(glyphs, mappings, font_name) {
        Some(e) => Err(e),
        None => Ok(font_file(table_map(tables_of(payloads(glyphs, mappings, font_name), 10)))),
    }
}

/// What a build returned, with the bytes as a sequence.
pub open spec fn outcome(r: Result<Vec<u8>, BuildError>) -> Result<Seq<u8>, BuildError> {
    match r {
        Ok(bytes) => Ok(bytes@),
        Err(e) => Err(e),
    }
}

/// The tables of a font, if the encoders returned them all and they fit
/// a font file; else why there is no font.
pub open spec fn tables_error(p: Seq<Option<Seq<u8>>>) -> Option<BuildError> {
    if refusal(p, 10) is Some {
        Some(BuildError::Table(refusal(p, 10).unwrap()))
    } else if padded_size(tables_of(p, 10)) > MAX_FONT_SIZE {
        Some(BuildError::FontTooLarge)
    } else {
        None
    }
}

/// What the encoders returned for the ten tables.
pub open spec fn returned(payloads: [Option<Vec<u8>>; 10]) -> Seq<Option<Seq<u8>>> {
    Seq::new(10, |i: int| bytes_of(payloads@[i]))
}

pub open spec fn payload_views(tables: Seq<TablePayload>) -> Seq<PayloadView> {
    tables.map_values(|t: TablePayload| t@)
}

/// The table at a place in the order of `TableKind`.
pub fn kind_of(i: usize) -> (kind: TableKind)
    ensures
        kind == kind_at(i as int),
{
    if i == 0 {
        TableKind::Head
    } else if i == 1 {
        TableKind::Hhea
    } else if i == 2 {
        TableKind::Maxp
    } else if i == 3 {
        TableKind::Os2
    } else if i == 4 {
        TableKind::Hmtx
    } else if i == 5 {
        TableKind::Cmap
    } else if i == 6 {
        TableKind::Name
    } else if i == 7 {
        TableKind::Post
    } else if i == 8 {
        TableKind::Loca
    } else {
        TableKind::Glyf
    }
}

fn copy_bytes(bytes: &Vec<u8>) -> (copy: Vec<u8>)
    ensures
        copy@ == bytes@,
{
    let mut copy: Vec<u8> = Vec::new();
    let mut i: usize = 0;
    while i < bytes.len()
        invariant
            i <= bytes.len(),
            copy@ == bytes@.take(i as int),
        decreases bytes.len() - i,
    {
        copy.push(bytes[i]);
        assert(bytes@.take(i + 1) =~= bytes@.take(i as int).push(bytes@[i as int]));
        i = i + 1;
    }
    assert(bytes@.take(bytes.len() as int) =~= bytes@);
    copy
}

/// Makes the tables of a font file of what the encoders returned for the
/// ten tables, in the order of `TableKind`: each table under its tag. The
/// first table that its encoder refused is an error, and so are tables
/// that take more room than a font file has.
pub fn font_tables(payloads: &[Option<Vec<u8>>; 10]) -> (r: Result<Vec<TablePayload>, BuildError>)
    ensures
        match r {
            Ok(tables) => tables_error(returned(*payloads)) is None && payload_views(tables@)
                == tables_of(returned(*payloads), 10),
            Err(e) => tables_error(returned(*payloads)) == Some(e),
        },
{
    let ghost p = returned(*payloads);
    let mut tables: Vec<TablePayload> = Vec::new();
    let mut size: usize = 0;
    let mut too_large: bool = false;
    let mut i: usize = 0;
    assert(payload_views(tables@) =~= tables_of(p, 0));
    while i < 10
        invariant
            i <= 10,
            p == returned(*payloads),
            refusal(p, i as nat) is None,
            payload_views(tables@) == tables_of(p, i as nat),
            too_large ==> padded_size(tables_of(p, i as nat)) > MAX_FONT_SIZE,
            !too_large ==> size == padded_size(tables_of(p, i as nat)) && size <= MAX_FONT_SIZE,
        decreases 10 - i,
    {
        assert(p[i as int] == bytes_of(payloads@[i as int]));
        assert(tables_of(p, (i + 1) as nat).drop_last() =~= tables_of(p, i as nat));
        match &payloads[i] {
            Some(bytes) => {
                let n: usize = bytes.len();
                if !too_large {
                    if n > MAX_FONT_SIZE - 19 || size > MAX_FONT_SIZE - 19 - n {
                        too_large = true;
                    } else {
                        size = size + n + 19;
                    }
                }
                let ghost before = tables@;
                let table = TablePayload { tag: table_tag(kind_of(i)), data: copy_bytes(bytes) };
                tables.push(table);
                assert(payload_views(tables@) =~= payload_views(before).push(table@));
                assert(payload_views(tables@) =~= tables_of(p, (i + 1) as nat));
            },
            None => {
                proof {
                    refused_here(p, i as nat);
                }
                return Err(BuildError::Table(kind_of(i)));
            },
        }
        i = i + 1;
    }
    if too_large {
        return Err(BuildError::FontTooLarge);
    }
    Ok(tables)
}

/// What an encoder returned, without its error.
fn returned_bytes(r: Result<Vec<u8>, Error>) -> (bytes: Option<Vec<u8>>)
    ensures
        bytes_of(bytes) == encoded(r),
{
    match r {
        Ok(bytes) => Some(bytes),
        Err(_) => None,
    }
}

/// Lays out the font file of the tables.
fn write_font(tables: Vec<TablePayload>) -> (bytes: Vec<u8>)
    requires
        tables@.len() <= 0xffff,
        padded_size(payload_views(tables@)) <= MAX_FONT_SIZE,
    ensures
        bytes@ == font_file(table_map(payload_views(tables@))),
{
    let ghost all = payload_views(tables@);
    let ghost mut done: int = 0;
    let mut rest = tables;
    let mut builder = font_builder();
    assert(all.take(0) =~= Seq::<PayloadView>::empty());
    assert(all.skip(0) =~= all);
    while rest.len() > 0
        invariant
            0 <= done <= all.len(),
            no_given_checksum(builder),
            held_tables(builder) == table_map(all.take(done)),
            payload_views(rest@) == all.skip(done),
        decreases rest.len(),
    {
        let ghost before = rest@;
        assert(payload_views(before).len() == before.len());
        assert(all.skip(done).len() == all.len() - done);
        let table = rest.remove(0);
        assert(table@ == payload_views(before)[0]);
        assert(table@ == all[done]);
        assert forall|i: int| 0 <= i < rest@.len() implies payload_views(rest@)[i] == all.skip(
            done + 1,
        )[i] by {
            assert(rest@[i] == before[i + 1]);
            assert(payload_views(before)[i + 1] == before[i + 1]@);
            assert(all.skip(done)[i + 1] == all[done + 1 + i]);
        }
        assert(payload_views(rest@) =~= all.skip(done + 1));
        assert(all.take(done + 1).drop_last() =~= all.take(done));
        add_payload(&mut builder, table);
        proof {
            done = done + 1;
        }
    }
    assert(all.take(done) =~= all);
    finish_font(&mut builder)
}

/// A text takes at most two 16-bit units for each of its characters.
proof fn utf16_units_at_most_double(text: Seq<char>)
    ensures
        utf16_units(text) <= 2 * text.len(),
    decreases text.len(),
{
    if text.len() > 0 {
        utf16_units_at_most_double(text.drop_last());
    }
}

/// A text without its spaces is no longer than the text.
proof fn without_spaces_is_shorter(text: Seq<char>)
    ensures
        without_spaces(text).len() <= text.len(),
    decreases text.len(),
{
    if text.len() > 0 {
        without_spaces_is_shorter(text.drop_last());
    }
}

/// Every text of the naming table of a family name of at most
/// `MAX_FAMILY_CHARS` characters fits a name entry.
proof fn name_table_fits(font_name: Seq<char>)
    requires
        font_name.len() <= MAX_FAMILY_CHARS,
    ensures
        name_table(font_name).len() == 7,
        forall|i: int|
            0 <= i < 7 ==> utf16_units((#[trigger] name_table(font_name)[i]).text)
                <= MAX_NAME_UNITS,
{
    reveal_strlit("Generated by svg2font");
    reveal_strlit("Regular");
    reveal_strlit("svg2font: ");
    reveal_strlit("Version 1.0");
    without_spaces_is_shorter(font_name);
    let t = name_table(font_name);
    assert forall|i: int| 0 <= i < 7 implies utf16_units((#[trigger] t[i]).text)
        <= MAX_NAME_UNITS by {
        utf16_units_at_most_double(t[i].text);
    }
}

/// Assembles the font file from the glyphs, the character map and the
/// family name.
///
/// Every glyph gets the same metrics, the tables are those of
/// `payloads`, added in the order of `TableKind`, and the file is what
/// the font builder lays out from them.
pub fn assemble_font(glyphs: &Vec<GlyphShape>, mappings: &Vec<Mapping>, font_name: &str) -> (r:
    Result<Vec<u8>, BuildError>)
    ensures
        outcome(r) == assembled(shape_views(glyphs@), mappings@, font_name@),
{
    let ghost shapes = shape_views(glyphs@);
    let ghost p = payloads(shapes, mappings@, font_name@);
    let n: usize = glyphs.len();
    if n > 0xffff {
        return Err(BuildError::TooManyGlyphs);
    }
    if font_name.unicode_len() > MAX_FAMILY_CHARS {
        return Err(BuildError::NameTooLong);
    }
    let mut builder = glyph_builder();
    let mut i: usize = 0;
    assert(held_glyphs(builder) =~= shapes.take(0));
    while i < n
        invariant
            n == glyphs@.len(),
            shapes == shape_views(glyphs@),
            i <= n,
            first_unencodable(shapes, i as nat) is None,
            held_glyphs(builder) == shapes.take(i as int),
            n <= 0xffff,
            font_name@.len() <= MAX_FAMILY_CHARS,
        decreases n - i,
    {
        assert(shapes[i as int] == glyphs@[i as int]@);
        if !can_encode(&glyphs[i]) {
            proof {
                first_unencodable_stays(shapes, (i + 1) as nat, n as nat);
            }
            return Err(BuildError::Glyph { index: i });
        }
        add_shape(&mut builder, &glyphs[i]);
        assert(shapes.take(i + 1) =~= shapes.take(i as int).push(shapes[i as int]));
        i = i + 1;
    }
    assert(shapes.take(n as int) =~= shapes);
    if mappings.len() > 0xffff {
        return Err(BuildError::MappingOutOfRange);
    }
    let mut k: usize = 0;
    while k < mappings.len()
        invariant
            k <= mappings@.len(),
            n <= 0xffff,
            n == shapes.len(),
            shapes == shape_views(glyphs@),
            mappings@.len() <= 0xffff,
            font_name@.len() <= MAX_FAMILY_CHARS,
            first_unencodable(shapes, n as nat) is None,
            forall|j: int| 0 <= j < k ==> (#[trigger] mappings@[j]).glyph < n,
        decreases mappings.len() - k,
    {
        if mappings[k].glyph as usize >= n {
            assert(!(mappings@[k as int].glyph < n));
            assert(!mappings_fit(mappings@, shapes.len()));
            return Err(BuildError::MappingOutOfRange);
        }
        k = k + 1;
    }
    let count: u16 = n as u16;
    let finished = finish_glyphs(builder);
    let names = build_name(font_name);
    proof {
        name_table_fits(font_name@);
        assert forall|j: int| 0 <= j < names@.len() implies utf16_units(
            (#[trigger] names@[j]).text@,
        ) <= MAX_NAME_UNITS by {
            assert(name_views(names@)[j] == names@[j]@);
        }
    }
    let glyph_names = build_post();
    assert(texts(glyph_names@) =~= Seq::<Seq<char>>::empty());
    let results: [Option<Vec<u8>>; 10] = [
        returned_bytes(encode_head(&build_head(finished.2))),
        returned_bytes(encode_hhea(&build_hhea(count))),
        returned_bytes(encode_maxp(&MaxpTable { num_glyphs: count })),
        returned_bytes(encode_os2(&build_os2())),
        returned_bytes(encode_hmtx(&build_hmtx(count))),
        encode_cmap(mappings),
        returned_bytes(encode_name(&names)),
        returned_bytes(encode_post(&glyph_names)),
        returned_bytes(finished.1),
        returned_bytes(finished.0),
    ];
    assert(returned(results) =~= p);
    match font_tables(&results) {
        Ok(tables) => Ok(write_font(tables)),
        Err(e) => Err(e),
    }
}

/// The font file of icons and a family name, or why there is none.
pub open spec fn font_of(icons: Seq<Icon>, font_name: Seq<char>) -> Result<Seq<u8>, BuildError> {
    match glyphs_error(icons) {
        Some(e) => Err(e),
        None => match cmap_error(icons) {
            Some(e) => Err(e),
            None => assembled(font_glyphs(icons), mappings_of(icons, icons.len()), font_name),
        },
    }
}

/// Builds a TrueType font from icons.
///
/// Glyph 0 is the missing glyph; glyph `k` is the glyph of icon `k - 1`;
/// each icon's codepoint, where it is a character, maps to the icon's
/// glyph.
pub fn build_font(icons: &Vec<Icon>, font_name: &str) -> (r: Result<Vec<u8>, BuildError>)
    ensures
        outcome(r) == font_of(icons@, font_name@),
{
    let glyphs = match build_glyphs(icons) {
        Ok(glyphs) => glyphs,
        Err(e) => {
            return Err(e);
        },
    };
    let mappings = match build_cmap(icons) {
        Ok(mappings) => mappings,
        Err(e) => {
            return Err(e);
        },
    };
    assemble_font(&glyphs, &mappings, font_name)
}


/// If none of the first icons lacks a glyph, each of them has one.
proof fn glyphs_without_error(icons: Seq<Icon>, upto: nat, i: int)
    requires
        first_glyph_error(icons, upto) is None,
        0 <= i < upto,
    ensures
        glyph_error(icons, i) is None,
    decreases upto,
{
    if i < upto - 1 {
        glyphs_without_error(icons, (upto - 1) as nat, i);
    }
}

/// If each of the first glyphs can be encoded, none of them is the first
/// that cannot.
proof fn all_encodable(glyphs: Seq<ShapeView>, upto: nat)
    requires
        upto <= glyphs.len(),
        forall|k: int| 0 <= k < upto ==> encodable(#[trigger] glyphs[k]),
    ensures
        first_unencodable(glyphs, upto) is None,
    decreases upto,
{
    if upto > 0 {
        all_encodable(glyphs, (upto - 1) as nat);
    }
}

/// Let every icon have an outline and a glyph shape, no codepoint that is
/// a character occur twice, and the family name be of at most
/// `MAX_FAMILY_CHARS` characters. Then a font is built, unless the encoder
/// refuses a table or the tables take more room than a font file has.
pub proof fn font_of_sound_icons(icons: Seq<Icon>, font_name: Seq<char>)
    requires
        glyphs_error(icons) is None,
        cmap_error(icons) is None,
        font_name.len() <= MAX_FAMILY_CHARS,
    ensures
        match font_of(icons, font_name) {
            Ok(_) => true,
            Err(e) => e is Table || e is FontTooLarge,
        },
{
    let glyphs = font_glyphs(icons);
    let n = icons.len();
    assert(encodable(empty_shape())) by {
        assert(total_points(empty_shape().contours) == 0);
    }
    assert forall|k: int| 0 <= k < glyphs.len() implies encodable(#[trigger] glyphs[k]) by {
        if k == 0 {
        } else {
            glyphs_without_error(icons, n, k - 1);
            shape_is_encodable(icons[k - 1].outline());
        }
    }
    all_encodable(glyphs, glyphs.len());
    mappings_are_of_characters(icons, n);
}


/// An icon is without a glyph only for its viewport, for the start of its
/// path, for a point out of range, or for a shape that cannot be encoded.
pub proof fn why_an_icon_has_no_glyph(icons: Seq<Icon>, i: int)
    requires
        0 <= i < icons.len() <= MAX_ICONS,
    ensures
        match glyph_error(icons, i) {
            Some(BuildError::Outline { icon, error }) => icon == i,
            Some(BuildError::Shape { icon, cause }) => icon == i && cause == ShapeError::Unencodable,
            Some(_) => false,
            None => true,
        },
{
    if icons[i].outline_error() is None {
        outline_has_shape_unless_too_large(
            icons[i].path@,
            icons[i].width as int,
            icons[i].height as int,
            icons[i].fill_rule,
        );
    }
}

/// An icon whose codepoint is no character, be it out of range or a
/// surrogate, is absent from the character map, and has its glyph all the
/// same.
pub proof fn excluded_icon_keeps_its_glyph(icons: Seq<Icon>, i: int)
    requires
        0 <= i < icons.len() <= MAX_ICONS,
        !is_scalar_value(icons[i].codepoint),
    ensures
        forall|k: int|
            0 <= k < mappings_of(icons, icons.len()).len() ==> (#[trigger] mappings_of(
                icons,
                icons.len(),
            )[k]).glyph != i + 1,
        font_glyphs(icons).len() == icons.len() + 1,
        font_glyphs(icons)[i + 1] == shape_of(icons[i].outline()),
{
    mappings_are_of_characters(icons, icons.len());
}

/// Whether the icons are numbered upwards from `PRIVATE_USE_BASE`, as
/// `nth_codepoint` numbers them.
pub open spec fn numbered(icons: Seq<Icon>) -> bool {
    icons.len() <= MAX_ICONS && forall|i: int|
        0 <= i < icons.len() ==> (#[trigger] icons[i]).codepoint == PRIVATE_USE_BASE + i
}

/// Of icons numbered upwards, the first ones are mapped one by one.
proof fn numbered_prefix_is_mapped(icons: Seq<Icon>, upto: nat)
    requires
        numbered(icons),
        upto <= icons.len(),
    ensures
        first_repeat(icons, upto) is None,
        mappings_of(icons, upto) == Seq::new(upto, |i: int| mapping_of(icons, i)),
    decreases upto,
{
    if upto > 0 {
        numbered_prefix_is_mapped(icons, (upto - 1) as nat);
        let i = upto - 1;
        assert(icons[i].codepoint == PRIVATE_USE_BASE + i);
        assert(!repeats(icons, i)) by {
            assert forall|j: int| 0 <= j < i implies (#[trigger] icons[j]).codepoint
                != icons[i].codepoint by {}
        }
        assert(mappings_of(icons, upto) =~= Seq::new(upto, |k: int| mapping_of(icons, k)));
    } else {
        assert(mappings_of(icons, upto) =~= Seq::new(upto, |k: int| mapping_of(icons, k)));
    }
}

/// For icons numbered upwards from `PRIVATE_USE_BASE`, the character map
/// has one mapping for each icon, in the icons' order:
/// the codepoint of icon `k - 1` maps to glyph `k`, which is that icon's
/// glyph, and glyph 0 is the missing glyph.
pub proof fn numbered_icons_are_mapped(icons: Seq<Icon>)
    requires
        numbered(icons),
    ensures
        cmap_error(icons) is None,
        mappings_of(icons, icons.len()) == Seq::new(icons.len(), |i: int| mapping_of(icons, i)),
        font_glyphs(icons).len() == icons.len() + 1,
        font_glyphs(icons)[0] == missing_glyph(),
        forall|k: int|
            1 <= k <= icons.len() ==> #[trigger] font_glyphs(icons)[k] == shape_of(
                icons[k - 1].outline(),
            ) && mapping_of(icons, k - 1).glyph == k,
{
    numbered_prefix_is_mapped(icons, icons.len());
}


/// Two tables have two tags.
pub proof fn tags_differ(a: TableKind, b: TableKind)
    requires
        a != b,
    ensures
        tag_of(a) != tag_of(b),
{
    let s = tag_of(a);
    let t = tag_of(b);
    assert(s[0] != t[0] || s[1] != t[1] || s[2] != t[2] || s[3] != t[3]);
}

/// The tables of a font file stand each under its own tag: the file is
/// made of ten tables, and under the tag of each stand the bytes that its
/// encoder returned.
pub proof fn ten_tables(p: Seq<Option<Seq<u8>>>)
    requires
        p.len() == 10,
    ensures
        forall|i: int|
            0 <= i < 10 ==> table_map(tables_of(p, 10)).contains_pair(
                #[trigger] tag_of(kind_at(i)),
                p[i].unwrap(),
            ),
        forall|tag: Seq<u8>|
            table_map(tables_of(p, 10)).dom().contains(tag) ==> exists|i: int|
                0 <= i < 10 && tag == #[trigger] tag_of(kind_at(i)),
{
    tables_under_tags(p, 10);
}

proof fn tables_under_tags(p: Seq<Option<Seq<u8>>>, upto: nat)
    requires
        upto <= 10,
        p.len() == 10,
    ensures
        forall|i: int|
            0 <= i < upto ==> table_map(tables_of(p, upto)).contains_pair(
                #[trigger] tag_of(kind_at(i)),
                p[i].unwrap(),
            ),
        forall|tag: Seq<u8>|
            table_map(tables_of(p, upto)).dom().contains(tag) ==> exists|i: int|
                0 <= i < upto && tag == #[trigger] tag_of(kind_at(i)),
    decreases upto,
{
    if upto > 0 {
        let k = upto - 1;
        tables_under_tags(p, k as nat);
        let before = table_map(tables_of(p, k as nat));
        let now = table_map(tables_of(p, upto));
        assert(tables_of(p, upto).drop_last() =~= tables_of(p, k as nat));
        assert(now == before.insert(tag_of(kind_at(k)), p[k].unwrap()));
        assert forall|i: int| 0 <= i < upto implies now.contains_pair(
            #[trigger] tag_of(kind_at(i)),
            p[i].unwrap(),
        ) by {
            if i < k {
                tags_differ(kind_at(i), kind_at(k));
                assert(before.contains_pair(tag_of(kind_at(i)), p[i].unwrap()));
            }
        }
        assert forall|tag: Seq<u8>| now.dom().contains(tag) implies exists|i: int|
            0 <= i < upto && tag == #[trigger] tag_of(kind_at(i)) by {
            if tag == tag_of(kind_at(k)) {
            } else {
                assert(before.dom().contains(tag));
                let i = choose|i: int| 0 <= i < k && tag == #[trigger] tag_of(kind_at(i));
                assert(0 <= i < upto && tag == tag_of(kind_at(i)));
            }
        }
    }
}

} // verus!

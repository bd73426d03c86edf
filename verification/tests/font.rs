use svg2font::font_builder::{
    assemble_font, build_cmap, build_font, build_glyphs, empty_glyph, font_tables, kind_of,
    table_tag, BuildError, TableKind, MAX_FAMILY_CHARS,
};
use svg2font::glyph::{can_encode, glyph_shape, CurvePoint, GlyphShape, ShapeError};
use svg2font::icon::{nth_codepoint, Icon, MAX_ICONS, PRIVATE_USE_BASE};
use svg2font::outline::{svg_path_to_glyph, OutlineError};
use svg2font::path::{FillRule, PathCommand, Point};
use svg2font::tables::{
    build_head, build_hhea, build_hmtx, build_name, build_os2, build_post, create_name_record,
    remove_spaces, Mapping, Metric,
};
use write_fonts::read::tables::glyf::Glyph;
use write_fonts::read::types::{GlyphId, Tag};
use write_fonts::read::{FontRef, TableProvider};

fn p(x: i32, y: i32) -> Point {
    Point { x, y }
}

fn on(x: i16, y: i16) -> CurvePoint {
    CurvePoint { x, y, on_curve: true }
}

fn off(x: i16, y: i16) -> CurvePoint {
    CurvePoint { x, y, on_curve: false }
}

fn square_path(x0: i32, y0: i32, x1: i32, y1: i32) -> Vec<PathCommand> {
    vec![
        PathCommand::MoveTo(p(x0, y0)),
        PathCommand::LineTo(p(x1, y0)),
        PathCommand::LineTo(p(x1, y1)),
        PathCommand::LineTo(p(x0, y1)),
        PathCommand::Close,
    ]
}

fn icon(name: &str, path: Vec<PathCommand>, side: i32, rule: FillRule, codepoint: u32) -> Icon {
    Icon {
        name: name.to_string(),
        filename: name.to_string(),
        path,
        width: side,
        height: side,
        fill_rule: rule,
        codepoint,
    }
}

fn contour_count(font: &FontRef, glyph: u32) -> i16 {
    let loca = font.loca(None).unwrap();
    let glyf = font.glyf().unwrap();
    match loca.get_glyf(GlyphId::new(glyph), &glyf).unwrap() {
        Some(Glyph::Simple(simple)) => simple.number_of_contours(),
        Some(Glyph::Composite(_)) => panic!("composite glyph"),
        None => 0,
    }
}

// The number of codepoints that the character map sends to a glyph other
// than the missing one.
fn mapped_count(font: &FontRef) -> usize {
    let cmap = font.cmap().unwrap();
    let mut count = 0;
    for code in 0..0x11_0000u32 {
        match cmap.map_codepoint(code) {
            Some(glyph) if glyph != GlyphId::new(0) => count += 1,
            _ => {}
        }
    }
    count
}

// Two icons, each one square contour drawn for the non-zero rule in a
// viewport of 100 by 100.
#[test]
fn two_square_icons_make_three_glyphs() {
    let icons = vec![
        icon("a", square_path(10, 10, 90, 90), 100, FillRule::NonZero, 0xE000),
        icon("b", square_path(20, 20, 60, 60), 100, FillRule::NonZero, 0xE001),
    ];
    let bytes = build_font(&icons, "Icons").unwrap();
    let font = FontRef::new(&bytes).unwrap();
    assert_eq!(font.maxp().unwrap().num_glyphs(), 3);
    assert_eq!(contour_count(&font, 0), 0);
    assert_eq!(contour_count(&font, 1), 1);
    assert_eq!(contour_count(&font, 2), 1);
    let hmtx = font.hmtx().unwrap();
    for glyph in 0..3u32 {
        assert_eq!(hmtx.advance(GlyphId::new(glyph)), Some(1000));
        assert_eq!(hmtx.side_bearing(GlyphId::new(glyph)), Some(0));
    }
    assert_eq!(mapped_count(&font), 2);
    let cmap = font.cmap().unwrap();
    assert_eq!(cmap.map_codepoint(0xE000u32), Some(GlyphId::new(1)));
    assert_eq!(cmap.map_codepoint(0xE001u32), Some(GlyphId::new(2)));
}

#[test]
fn font_tables_say_what_the_builders_say() {
    let icons = vec![icon("a", square_path(10, 10, 90, 90), 100, FillRule::NonZero, 0xE000)];
    let bytes = build_font(&icons, "My Icon Font").unwrap();
    let font = FontRef::new(&bytes).unwrap();

    let head = font.head().unwrap();
    assert_eq!(head.units_per_em(), 1000);
    assert_eq!(head.lowest_rec_ppem(), 8);
    assert_eq!(head.font_revision().to_i32(), 1);
    assert_eq!(head.magic_number(), 0x5F0F3CF5);
    assert_eq!(head.index_to_loc_format(), 0);

    let hhea = font.hhea().unwrap();
    assert_eq!(hhea.ascender().to_i16(), 800);
    assert_eq!(hhea.descender().to_i16(), -200);
    assert_eq!(hhea.line_gap().to_i16(), 0);
    assert_eq!(hhea.advance_width_max().to_u16(), 1000);
    assert_eq!(hhea.x_max_extent().to_i16(), 1000);
    assert_eq!(hhea.caret_slope_rise(), 1);
    assert_eq!(hhea.caret_slope_run(), 0);
    assert_eq!(hhea.number_of_h_metrics(), 2);

    assert_eq!(font.maxp().unwrap().num_glyphs(), 2);

    let os2 = font.os2().unwrap();
    assert_eq!(os2.version(), 4);
    assert_eq!(os2.x_avg_char_width(), 1000);
    assert_eq!(os2.us_weight_class(), 400);
    assert_eq!(os2.us_width_class(), 5);
    assert_eq!(os2.y_subscript_x_size(), 650);
    assert_eq!(os2.y_subscript_y_offset(), 75);
    assert_eq!(os2.y_superscript_y_offset(), 350);
    assert_eq!(os2.y_strikeout_size(), 50);
    assert_eq!(os2.y_strikeout_position(), 300);
    assert_eq!(os2.s_typo_ascender(), 800);
    assert_eq!(os2.s_typo_descender(), -200);
    assert_eq!(os2.us_win_ascent(), 1000);
    assert_eq!(os2.us_win_descent(), 200);
    assert_eq!(os2.ul_unicode_range_4(), 1 << 28);
    assert_eq!(os2.ul_code_page_range_1(), Some(1));
    assert_eq!(os2.sx_height(), Some(500));
    assert_eq!(os2.s_cap_height(), Some(700));
    assert_eq!(os2.us_default_char(), Some(0));
    assert_eq!(os2.us_break_char(), Some(32));

    let post = font.post().unwrap();
    assert_eq!(post.num_glyphs(), Some(0));

    let name = font.name().unwrap();
    let mut found = Vec::new();
    for record in name.name_record() {
        assert_eq!(record.platform_id(), 3);
        assert_eq!(record.encoding_id(), 1);
        assert_eq!(record.language_id(), 0x409);
        let text: String = record.string(name.string_data()).unwrap().chars().collect();
        found.push((record.name_id().to_u16(), text));
    }
    assert_eq!(
        found,
        vec![
            (0, "Generated by svg2font".to_string()),
            (1, "My Icon Font".to_string()),
            (2, "Regular".to_string()),
            (3, "svg2font: My Icon Font".to_string()),
            (4, "My Icon Font".to_string()),
            (5, "Version 1.0".to_string()),
            (6, "MyIconFont".to_string()),
        ]
    );
}

#[test]
fn glyph_points_reach_the_font() {
    let icons = vec![icon("a", square_path(10, 10, 90, 90), 100, FillRule::NonZero, 0xE000)];
    let bytes = build_font(&icons, "Icons").unwrap();
    let font = FontRef::new(&bytes).unwrap();
    let loca = font.loca(None).unwrap();
    let glyf = font.glyf().unwrap();
    let glyph = match loca.get_glyf(GlyphId::new(1), &glyf).unwrap() {
        Some(Glyph::Simple(simple)) => simple,
        _ => panic!("no simple glyph"),
    };
    assert_eq!(
        (glyph.x_min(), glyph.y_min(), glyph.x_max(), glyph.y_max()),
        (100, 100, 900, 900)
    );
    let points: Vec<(i16, i16, bool)> = glyph.points().map(|q| (q.x, q.y, q.on_curve)).collect();
    // The source's y grows downwards: its upper edge, y = 10, lies at 900.
    assert_eq!(
        points,
        vec![(100, 900, true), (900, 900, true), (900, 100, true), (100, 100, true)]
    );
}

#[test]
fn many_glyphs_need_long_offsets() {
    let mut icons = Vec::new();
    for k in 0..6000u32 {
        let path = vec![
            PathCommand::MoveTo(p(0, 0)),
            PathCommand::LineTo(p(1000, 3)),
            PathCommand::LineTo(p(3, 1000)),
            PathCommand::LineTo(p(700, 700)),
            PathCommand::LineTo(p(1, 300)),
            PathCommand::Close,
        ];
        icons.push(icon("x", path, 1000, FillRule::NonZero, 0xE000 + k));
    }
    let bytes = build_font(&icons, "Icons").unwrap();
    let font = FontRef::new(&bytes).unwrap();
    assert_eq!(font.head().unwrap().index_to_loc_format(), 1);
    assert_eq!(font.maxp().unwrap().num_glyphs(), 6001);
    assert_eq!(contour_count(&font, 6000), 1);
    assert_eq!(
        font.cmap().unwrap().map_codepoint(0xE000u32 + 5999),
        Some(GlyphId::new(6000))
    );
}

#[test]
fn tables_stand_in_the_file_under_their_tags() {
    let bytes = build_font(&vec![], "Icons").unwrap();
    let font = FontRef::new(&bytes).unwrap();
    let kinds = [
        TableKind::Head,
        TableKind::Hhea,
        TableKind::Maxp,
        TableKind::Os2,
        TableKind::Hmtx,
        TableKind::Cmap,
        TableKind::Name,
        TableKind::Post,
        TableKind::Loca,
        TableKind::Glyf,
    ];
    let mut tags: Vec<[u8; 4]> = kinds.iter().map(|k| table_tag(*k)).collect();
    assert_eq!(&tags[0], b"head");
    assert_eq!(&tags[3], b"OS/2");
    assert_eq!(&tags[9], b"glyf");
    let mut in_file: Vec<[u8; 4]> = font
        .table_directory()
        .table_records()
        .iter()
        .map(|r| r.tag().to_be_bytes())
        .collect();
    tags.sort();
    in_file.sort();
    assert_eq!(in_file, tags);
    assert_eq!(font.maxp().unwrap().num_glyphs(), 1);
}

#[test]
fn building_twice_gives_the_same_bytes() {
    let icons = vec![
        icon("a", square_path(10, 10, 90, 90), 100, FillRule::EvenOdd, 0xE000),
        icon("b", square_path(20, 20, 60, 60), 100, FillRule::NonZero, 0xE001),
    ];
    assert_eq!(build_font(&icons, "Icons").unwrap(), build_font(&icons, "Icons").unwrap());
}

#[test]
fn glyph_zero_is_missing_and_glyph_k_is_icon_k() {
    let icons = vec![
        icon("a", square_path(0, 0, 50, 50), 100, FillRule::NonZero, 0xE000),
        icon("b", vec![], 100, FillRule::NonZero, 0xE001),
        icon("c", square_path(50, 50, 100, 100), 100, FillRule::NonZero, 0xE002),
    ];
    let glyphs = build_glyphs(&icons).unwrap();
    assert_eq!(glyphs.len(), 4);
    assert!(glyphs[0].contours.is_empty());
    assert_eq!(
        (glyphs[0].x_min, glyphs[0].y_min, glyphs[0].x_max, glyphs[0].y_max),
        (0, 0, 0, 0)
    );
    assert_eq!(
        glyphs[1].contours,
        vec![vec![on(0, 1000), on(500, 1000), on(500, 500), on(0, 500)]]
    );
    assert!(glyphs[2].contours.is_empty());
    assert_eq!(
        glyphs[3].contours,
        vec![vec![on(500, 500), on(1000, 500), on(1000, 0), on(500, 0)]]
    );
    for (k, icon) in icons.iter().enumerate() {
        let outline = svg_path_to_glyph(icon).unwrap();
        let shape = glyph_shape(&outline).unwrap();
        assert_eq!(glyphs[k + 1].contours, shape.contours);
    }
    let empty = empty_glyph();
    assert_eq!(glyphs[0].contours, empty.contours);
}

#[test]
fn codepoints_that_are_no_characters_get_no_mapping() {
    let icons = vec![
        icon("a", square_path(0, 0, 50, 50), 100, FillRule::NonZero, 0xE000),
        icon("b", square_path(0, 0, 50, 50), 100, FillRule::NonZero, 0xD800),
        icon("c", square_path(0, 0, 50, 50), 100, FillRule::NonZero, 0x11_0000),
        icon("d", square_path(0, 0, 50, 50), 100, FillRule::NonZero, 0x10_FFFF),
        icon("e", square_path(0, 0, 50, 50), 100, FillRule::NonZero, 0xDFFF),
        icon("f", square_path(0, 0, 50, 50), 100, FillRule::NonZero, 0xD7FF),
    ];
    assert_eq!(
        build_cmap(&icons).unwrap(),
        vec![
            Mapping { character: '\u{E000}', glyph: 1 },
            Mapping { character: '\u{10FFFF}', glyph: 4 },
            Mapping { character: '\u{D7FF}', glyph: 6 },
        ]
    );
    let bytes = build_font(&icons, "Icons").unwrap();
    let font = FontRef::new(&bytes).unwrap();
    assert_eq!(font.maxp().unwrap().num_glyphs(), 7);
    assert_eq!(mapped_count(&font), 3);
    assert_eq!(contour_count(&font, 2), 1);
    assert_eq!(contour_count(&font, 3), 1);
    let cmap = font.cmap().unwrap();
    assert_eq!(cmap.map_codepoint(0xE000u32), Some(GlyphId::new(1)));
    assert_eq!(cmap.map_codepoint(0x10_FFFFu32), Some(GlyphId::new(4)));
    assert_eq!(cmap.map_codepoint(0xD7FFu32), Some(GlyphId::new(6)));
}

#[test]
fn outline_is_scaled_and_turned_over() {
    let path = vec![
        PathCommand::MoveTo(p(10, 20)),
        PathCommand::LineTo(p(100, 0)),
        PathCommand::QuadTo(p(50, 50), p(0, 100)),
        PathCommand::Close,
    ];
    let outline = svg_path_to_glyph(&icon("a", path, 100, FillRule::NonZero, 0xE000)).unwrap();
    assert_eq!(
        outline,
        vec![
            PathCommand::MoveTo(p(100, 800)),
            PathCommand::LineTo(p(1000, 1000)),
            PathCommand::QuadTo(p(500, 500), p(0, 0)),
            PathCommand::Close,
        ]
    );
}

#[test]
fn the_greater_side_of_the_viewport_becomes_the_em() {
    let path = vec![PathCommand::MoveTo(p(200, 100)), PathCommand::LineTo(p(0, 0))];
    let wide = Icon {
        name: "w".to_string(),
        filename: "w".to_string(),
        path,
        width: 200,
        height: 100,
        fill_rule: FillRule::NonZero,
        codepoint: 0xE000,
    };
    assert_eq!(
        svg_path_to_glyph(&wide).unwrap(),
        vec![PathCommand::MoveTo(p(1000, 0)), PathCommand::LineTo(p(0, 500))]
    );
}

#[test]
fn coordinates_round_to_the_nearest_unit_halves_upwards() {
    // In a viewport of 2000 one source unit is half a font unit.
    let path = vec![
        PathCommand::MoveTo(p(1, 2000)),
        PathCommand::LineTo(p(3, 1999)),
        PathCommand::LineTo(p(-1, 2001)),
        PathCommand::LineTo(p(-3, 2003)),
    ];
    let outline = svg_path_to_glyph(&icon("a", path, 2000, FillRule::NonZero, 0xE000)).unwrap();
    assert_eq!(
        outline,
        vec![
            PathCommand::MoveTo(p(1, 0)),
            PathCommand::LineTo(p(2, 1)),
            PathCommand::LineTo(p(0, 0)),
            PathCommand::LineTo(p(-1, -1)),
        ]
    );
}

#[test]
fn outline_of_cubic_has_only_quadratics() {
    let path = vec![
        PathCommand::MoveTo(p(0, 0)),
        PathCommand::CubicTo(p(0, 100), p(100, 100), p(100, 0)),
        PathCommand::Close,
    ];
    let outline = svg_path_to_glyph(&icon("a", path, 100, FillRule::NonZero, 0xE000)).unwrap();
    assert!(outline.len() > 3);
    assert_eq!(outline[0], PathCommand::MoveTo(p(0, 1000)));
    assert_eq!(outline[outline.len() - 1], PathCommand::Close);
    for command in &outline[1..outline.len() - 1] {
        assert!(matches!(command, PathCommand::QuadTo(_, _)));
    }
    assert!(glyph_shape(&outline).is_ok());
}

#[test]
fn even_odd_icon_gets_its_hole_turned() {
    // Both squares are drawn the same way round in the source.
    let mut path = square_path(0, 0, 100, 100);
    path.extend(square_path(25, 25, 75, 75));
    let outline = svg_path_to_glyph(&icon("a", path.clone(), 100, FillRule::EvenOdd, 0xE000)).unwrap();
    let plain = svg_path_to_glyph(&icon("a", path, 100, FillRule::NonZero, 0xE000)).unwrap();
    assert_eq!(&outline[..5], &plain[..5]);
    assert_ne!(&outline[5..], &plain[5..]);
    assert_eq!(
        &outline[5..],
        &[
            PathCommand::MoveTo(p(250, 750)),
            PathCommand::LineTo(p(250, 250)),
            PathCommand::LineTo(p(750, 250)),
            PathCommand::LineTo(p(750, 750)),
            PathCommand::LineTo(p(250, 750)),
            PathCommand::Close,
        ]
    );
}

#[test]
fn empty_path_gives_empty_outline() {
    let outline = svg_path_to_glyph(&icon("a", vec![], 24, FillRule::EvenOdd, 0xE000)).unwrap();
    assert!(outline.is_empty());
    let shape = glyph_shape(&outline).unwrap();
    assert!(shape.contours.is_empty());
}

#[test]
fn outline_errors() {
    let square = square_path(0, 0, 10, 10);
    let mut flat = icon("a", square.clone(), 0, FillRule::NonZero, 0xE000);
    assert_eq!(svg_path_to_glyph(&flat), Err(OutlineError::EmptyViewport));
    flat.width = -5;
    flat.height = -1;
    assert_eq!(svg_path_to_glyph(&flat), Err(OutlineError::EmptyViewport));
    flat.height = 1;
    assert!(svg_path_to_glyph(&flat).is_ok());

    let headless = vec![PathCommand::LineTo(p(1, 1)), PathCommand::Close];
    assert_eq!(
        svg_path_to_glyph(&icon("a", headless.clone(), 100, FillRule::NonZero, 0xE000)),
        Err(OutlineError::MalformedPath)
    );
    assert_eq!(
        svg_path_to_glyph(&icon("a", headless, 0, FillRule::NonZero, 0xE000)),
        Err(OutlineError::EmptyViewport)
    );

    let far = vec![PathCommand::MoveTo(p(0, 0)), PathCommand::LineTo(p(1639, 0))];
    assert_eq!(
        svg_path_to_glyph(&icon("a", far, 100, FillRule::NonZero, 0xE000)),
        Err(OutlineError::CoordinateOutOfRange)
    );
    let near = vec![PathCommand::MoveTo(p(0, 0)), PathCommand::LineTo(p(1638, 1738))];
    assert_eq!(
        svg_path_to_glyph(&icon("a", near, 100, FillRule::NonZero, 0xE000)),
        Ok(vec![PathCommand::MoveTo(p(0, 1000)), PathCommand::LineTo(p(16380, -16380))])
    );
    let low = vec![PathCommand::MoveTo(p(0, 0)), PathCommand::QuadTo(p(0, 1739), p(0, 0))];
    assert_eq!(
        svg_path_to_glyph(&icon("a", low, 100, FillRule::NonZero, 0xE000)),
        Err(OutlineError::CoordinateOutOfRange)
    );
}

#[test]
fn build_errors_name_the_first_failing_icon() {
    let good = icon("a", square_path(0, 0, 10, 10), 100, FillRule::NonZero, 0xE000);
    let flat = icon("b", square_path(0, 0, 10, 10), 0, FillRule::NonZero, 0xE001);
    let headless = icon("c", vec![PathCommand::Close], 100, FillRule::NonZero, 0xE002);
    assert_eq!(
        build_font(&vec![good.clone(), flat.clone(), headless.clone()], "Icons"),
        Err(BuildError::Outline { icon: 1, error: OutlineError::EmptyViewport })
    );
    assert_eq!(
        build_glyphs(&vec![good.clone(), headless, flat]).map(|g| g.len()),
        Err(BuildError::Outline { icon: 1, error: OutlineError::MalformedPath })
    );
}

#[test]
fn duplicate_codepoints_are_an_error() {
    let icons = vec![
        icon("a", square_path(0, 0, 10, 10), 100, FillRule::NonZero, 0xE000),
        icon("b", square_path(0, 0, 10, 10), 100, FillRule::NonZero, 0xE001),
        icon("c", square_path(0, 0, 10, 10), 100, FillRule::NonZero, 0xE000),
        icon("d", square_path(0, 0, 10, 10), 100, FillRule::NonZero, 0xE001),
    ];
    assert_eq!(build_cmap(&icons), Err(BuildError::DuplicateCodepoint { icon: 2 }));
    assert_eq!(
        build_font(&icons, "Icons"),
        Err(BuildError::DuplicateCodepoint { icon: 2 })
    );
    // Codepoints that are no characters may repeat: they are not mapped.
    let unmapped = vec![
        icon("a", vec![], 100, FillRule::NonZero, 0xD800),
        icon("b", vec![], 100, FillRule::NonZero, 0xD800),
    ];
    assert_eq!(build_cmap(&unmapped), Ok(vec![]));
    assert!(build_font(&unmapped, "Icons").is_ok());
}

#[test]
fn too_many_icons_are_an_error() {
    let one = icon("a", vec![], 100, FillRule::NonZero, 0xE000);
    let icons = vec![one; 0xffff];
    assert_eq!(build_glyphs(&icons).map(|g| g.len()), Err(BuildError::TooManyGlyphs));
    assert_eq!(build_cmap(&icons), Err(BuildError::TooManyGlyphs));
    assert_eq!(build_font(&icons, "Icons"), Err(BuildError::TooManyGlyphs));
}

#[test]
fn family_name_has_a_greatest_length() {
    let icons = vec![icon("a", square_path(0, 0, 10, 10), 100, FillRule::NonZero, 0xE000)];
    let longest = "n".repeat(MAX_FAMILY_CHARS);
    assert!(build_font(&icons, &longest).is_ok());
    let too_long = "n".repeat(MAX_FAMILY_CHARS + 1);
    assert_eq!(build_font(&icons, &too_long), Err(BuildError::NameTooLong));
    // Characters beyond the basic plane take two units each.
    let astral = "\u{1F600}".repeat(MAX_FAMILY_CHARS);
    assert!(build_font(&icons, &astral).is_ok());
}

#[test]
fn assembling_checks_glyphs_and_mappings() {
    let good = GlyphShape {
        x_min: 0,
        y_min: 0,
        x_max: 10,
        y_max: 10,
        contours: vec![vec![on(0, 0), on(10, 0), on(10, 10)]],
    };
    let hollow = GlyphShape { x_min: 0, y_min: 0, x_max: 0, y_max: 0, contours: vec![vec![]] };
    let far = GlyphShape {
        x_min: 0,
        y_min: 0,
        x_max: 0,
        y_max: 0,
        contours: vec![vec![on(0, 0), on(16384, 0)]],
    };
    let glyphs = vec![empty_glyph(), good];
    let mappings = vec![Mapping { character: 'A', glyph: 1 }];
    let bytes = assemble_font(&glyphs, &mappings, "Letters").unwrap();
    let font = FontRef::new(&bytes).unwrap();
    assert_eq!(font.cmap().unwrap().map_codepoint('A'), Some(GlyphId::new(1)));
    assert_eq!(contour_count(&font, 1), 1);

    assert_eq!(
        assemble_font(&vec![empty_glyph(), hollow], &mappings, "Letters"),
        Err(BuildError::Glyph { index: 1 })
    );
    assert_eq!(
        assemble_font(&vec![far], &vec![], "Letters"),
        Err(BuildError::Glyph { index: 0 })
    );
    assert_eq!(
        assemble_font(&glyphs, &vec![Mapping { character: 'A', glyph: 2 }], "Letters"),
        Err(BuildError::MappingOutOfRange)
    );
    // The encoder refuses two glyphs for one character.
    assert_eq!(
        assemble_font(
            &vec![empty_glyph(), empty_glyph()],
            &vec![Mapping { character: 'A', glyph: 0 }, Mapping { character: 'A', glyph: 1 }],
            "Letters"
        ),
        Err(BuildError::Table(TableKind::Cmap))
    );
}

#[test]
fn shape_of_lines_and_curves() {
    let outline = vec![
        PathCommand::MoveTo(p(0, 0)),
        PathCommand::LineTo(p(10, 0)),
        PathCommand::QuadTo(p(20, 10), p(10, 20)),
        PathCommand::LineTo(p(0, 0)),
        PathCommand::Close,
        PathCommand::MoveTo(p(-5, -5)),
        PathCommand::LineTo(p(-6, -6)),
    ];
    let shape = glyph_shape(&outline).unwrap();
    assert_eq!(
        shape.contours,
        vec![
            vec![on(0, 0), on(10, 0), off(20, 10), on(10, 20)],
            vec![on(-5, -5), on(-6, -6)],
        ]
    );
    // The box goes round the control point too.
    assert_eq!((shape.x_min, shape.y_min, shape.x_max, shape.y_max), (-6, -6, 20, 20));
}

#[test]
fn implied_points_are_dropped() {
    // (10, 10) lies on the curve half-way between two control points.
    let outline = vec![
        PathCommand::MoveTo(p(0, 0)),
        PathCommand::QuadTo(p(0, 10), p(10, 10)),
        PathCommand::QuadTo(p(20, 10), p(20, 0)),
        PathCommand::Close,
    ];
    let shape = glyph_shape(&outline).unwrap();
    assert_eq!(shape.contours, vec![vec![on(0, 0), off(0, 10), off(20, 10), on(20, 0)]]);
    // The neighbours of the first point are found round the ring.
    let round = vec![
        PathCommand::MoveTo(p(0, 0)),
        PathCommand::QuadTo(p(2, 0), p(2, 2)),
        PathCommand::QuadTo(p(-2, 0), p(0, 0)),
        PathCommand::Close,
    ];
    assert_eq!(
        glyph_shape(&round).unwrap().contours,
        vec![vec![off(2, 0), on(2, 2), off(-2, 0)]]
    );
}

#[test]
fn shape_errors() {
    let cubic = vec![
        PathCommand::LineTo(p(0, 0)),
        PathCommand::CubicTo(p(0, 0), p(0, 0), p(0, 0)),
    ];
    assert_eq!(glyph_shape(&cubic).map(|s| s.contours), Err(ShapeError::HasCubic));
    let headless = vec![PathCommand::LineTo(p(0, 0)), PathCommand::MoveTo(p(99999, 0))];
    assert_eq!(glyph_shape(&headless).map(|s| s.contours), Err(ShapeError::MissingMove));
    let far = vec![PathCommand::MoveTo(p(0, 0)), PathCommand::QuadTo(p(0, -16385), p(0, 0))];
    assert_eq!(glyph_shape(&far).map(|s| s.contours), Err(ShapeError::CoordinateOutOfRange));
    let edge = vec![PathCommand::MoveTo(p(-16384, 16383))];
    assert_eq!(glyph_shape(&edge).map(|s| s.contours), Ok(vec![vec![on(-16384, 16383)]]));

    let mut crowded = vec![PathCommand::MoveTo(p(0, 0))];
    for k in 0..65535 {
        crowded.push(PathCommand::LineTo(p(k % 100, 1 + k % 7)));
    }
    assert_eq!(glyph_shape(&crowded).map(|s| s.contours.len()), Err(ShapeError::Unencodable));
    crowded.pop();
    assert_eq!(glyph_shape(&crowded).map(|s| s.contours.len()), Ok(1));

    let mut scattered = Vec::new();
    for k in 0..32767 {
        scattered.push(PathCommand::MoveTo(p(k % 100, k % 7)));
    }
    assert_eq!(glyph_shape(&scattered).map(|s| s.contours.len()), Err(ShapeError::Unencodable));
    scattered.pop();
    assert_eq!(glyph_shape(&scattered).map(|s| s.contours.len()), Ok(32766));
    let icons = vec![icon("a", scattered, 1000, FillRule::NonZero, 0xE000)];
    assert!(build_font(&icons, "Icons").is_ok());
}

// The shape agrees with what the font crate itself makes of the same path.
#[test]
fn shape_agrees_with_the_font_crate() {
    let outlines = vec![
        square_path(0, 0, 100, 100),
        vec![
            PathCommand::MoveTo(p(0, 0)),
            PathCommand::QuadTo(p(0, 10), p(10, 10)),
            PathCommand::QuadTo(p(20, 10), p(20, 0)),
            PathCommand::LineTo(p(0, 0)),
            PathCommand::Close,
            PathCommand::MoveTo(p(5, 5)),
            PathCommand::QuadTo(p(-3, 9), p(7, 7)),
            PathCommand::LineTo(p(6, 6)),
        ],
        vec![
            PathCommand::MoveTo(p(3, 3)),
            PathCommand::QuadTo(p(5, 3), p(5, 5)),
            PathCommand::QuadTo(p(5, 7), p(3, 7)),
            PathCommand::QuadTo(p(1, 7), p(1, 5)),
            PathCommand::QuadTo(p(1, 3), p(3, 3)),
            PathCommand::Close,
        ],
        vec![PathCommand::MoveTo(p(1, 1)), PathCommand::Close],
    ];
    for outline in outlines {
        let mut path = kurbo::BezPath::new();
        for command in &outline {
            match *command {
                PathCommand::MoveTo(a) => path.move_to((a.x as f64, a.y as f64)),
                PathCommand::LineTo(a) => path.line_to((a.x as f64, a.y as f64)),
                PathCommand::QuadTo(c, a) => {
                    path.quad_to((c.x as f64, c.y as f64), (a.x as f64, a.y as f64))
                }
                PathCommand::CubicTo(c, d, a) => path.curve_to(
                    (c.x as f64, c.y as f64),
                    (d.x as f64, d.y as f64),
                    (a.x as f64, a.y as f64),
                ),
                PathCommand::Close => path.close_path(),
            }
        }
        let theirs = write_fonts::tables::glyf::SimpleGlyph::from_bezpath(&path).unwrap();
        let ours = glyph_shape(&outline).unwrap();
        let their_contours: Vec<Vec<CurvePoint>> = theirs
            .contours
            .iter()
            .map(|c| c.iter().map(|q| CurvePoint { x: q.x, y: q.y, on_curve: q.on_curve }).collect())
            .collect();
        assert_eq!(ours.contours, their_contours);
        assert_eq!(
            (ours.x_min, ours.y_min, ours.x_max, ours.y_max),
            (theirs.bbox.x_min, theirs.bbox.y_min, theirs.bbox.x_max, theirs.bbox.y_max)
        );
    }
}

#[test]
fn table_values() {
    let head = build_head(true);
    assert_eq!(
        (head.font_revision, head.units_per_em, head.lowest_rec_ppem, head.index_to_loc_format),
        (1, 1000, 8, 1)
    );
    assert_eq!(build_head(false).index_to_loc_format, 0);
    let hhea = build_hhea(7);
    assert_eq!((hhea.ascender, hhea.descender, hhea.line_gap), (800, -200, 0));
    assert_eq!((hhea.advance_width_max, hhea.x_max_extent), (1000, 1000));
    assert_eq!(hhea.number_of_h_metrics, 7);
    assert_eq!(build_hmtx(3), vec![Metric { advance: 1000, side_bearing: 0 }; 3]);
    assert_eq!(build_hmtx(0), vec![]);
    let os2 = build_os2();
    assert_eq!((os2.us_weight_class, os2.us_width_class), (400, 5));
    assert_eq!(os2.ul_unicode_range_4, 0x1000_0000);
    assert_eq!((os2.s_typo_ascender, os2.s_typo_descender), (hhea.ascender, hhea.descender));
    assert_eq!((os2.us_default_char, os2.us_break_char), (Some(0), Some(32)));
    assert!(build_post().is_empty());
}

#[test]
fn name_entries() {
    let entry = create_name_record(4, "Some Name");
    assert_eq!(
        (entry.platform_id, entry.encoding_id, entry.language_id, entry.name_id),
        (3, 1, 0x409, 4)
    );
    assert_eq!(entry.text, "Some Name");
    let names: Vec<(u16, String)> =
        build_name("A B  C").into_iter().map(|e| (e.name_id, e.text)).collect();
    assert_eq!(
        names,
        vec![
            (0, "Generated by svg2font".to_string()),
            (1, "A B  C".to_string()),
            (2, "Regular".to_string()),
            (3, "svg2font: A B  C".to_string()),
            (4, "A B  C".to_string()),
            (5, "Version 1.0".to_string()),
            (6, "ABC".to_string()),
        ]
    );
    assert_eq!(remove_spaces("  "), "");
    assert_eq!(remove_spaces("a\tb c"), "a\tbc");
}

#[test]
fn icons_are_numbered_from_the_private_use_area() {
    assert_eq!(PRIVATE_USE_BASE, 0xE000);
    assert_eq!(nth_codepoint(0), Some(0xE000));
    assert_eq!(nth_codepoint(1), Some(0xE001));
    assert_eq!(nth_codepoint(MAX_ICONS - 1), Some(0xE000 + 0xfffd));
    assert_eq!(nth_codepoint(MAX_ICONS), None);
    assert_eq!(nth_codepoint(usize::MAX), None);
}

#[test]
fn numbered_icons_are_all_mapped_in_order() {
    let mut icons = Vec::new();
    for k in 0..40 {
        let side = 10 + k as i32;
        icons.push(icon(
            "x",
            square_path(0, 0, side, side),
            100,
            FillRule::NonZero,
            nth_codepoint(k).unwrap(),
        ));
    }
    let mappings = build_cmap(&icons).unwrap();
    assert_eq!(mappings.len(), 40);
    for (k, mapping) in mappings.iter().enumerate() {
        assert_eq!(mapping.character as u32, 0xE000 + k as u32);
        assert_eq!(mapping.glyph, k as u32 + 1);
    }
    let glyphs = build_glyphs(&icons).unwrap();
    for k in 0..40 {
        let side = (10 + k as i16) * 10;
        assert_eq!(glyphs[k + 1].x_max, side);
    }
}

fn ten(bytes: &[u8]) -> [Option<Vec<u8>>; 10] {
    [
        Some(bytes.to_vec()),
        Some(vec![1]),
        Some(vec![2]),
        Some(vec![3]),
        Some(vec![4]),
        Some(vec![5]),
        Some(vec![6]),
        Some(vec![7]),
        Some(vec![8]),
        Some(vec![9, 9]),
    ]
}

#[test]
fn tables_go_under_their_tags_in_order() {
    let tables = font_tables(&ten(&[0, 0])).unwrap();
    let tags: Vec<&[u8; 4]> = tables.iter().map(|t| &t.tag).collect();
    assert_eq!(
        tags,
        vec![b"head", b"hhea", b"maxp", b"OS/2", b"hmtx", b"cmap", b"name", b"post", b"loca", b"glyf"]
    );
    let data: Vec<Vec<u8>> = tables.into_iter().map(|t| t.data).collect();
    assert_eq!(
        data,
        vec![vec![0, 0], vec![1], vec![2], vec![3], vec![4], vec![5], vec![6], vec![7], vec![8], vec![9, 9]]
    );
    assert_eq!(kind_of(0), TableKind::Head);
    assert_eq!(kind_of(5), TableKind::Cmap);
    assert_eq!(kind_of(9), TableKind::Glyf);
}

#[test]
fn first_refused_table_is_the_error() {
    let mut results = ten(&[0]);
    results[6] = None;
    results[3] = None;
    assert_eq!(font_tables(&results).map(|t| t.len()), Err(BuildError::Table(TableKind::Os2)));
    results[3] = Some(vec![]);
    assert_eq!(font_tables(&results).map(|t| t.len()), Err(BuildError::Table(TableKind::Name)));
    results[6] = Some(vec![]);
    assert_eq!(font_tables(&results).map(|t| t.len()), Ok(10));
    results[9] = None;
    assert_eq!(font_tables(&results).map(|t| t.len()), Err(BuildError::Table(TableKind::Glyf)));
}

#[test]
fn encodable_glyphs() {
    let mut shape = GlyphShape {
        x_min: 0,
        y_min: 0,
        x_max: 0,
        y_max: 0,
        contours: vec![vec![on(16383, -16384)], vec![off(0, 0), on(1, 1)]],
    };
    assert!(can_encode(&shape));
    assert!(can_encode(&empty_glyph()));
    // A glyph without contours has its box at the origin.
    let mut boxed = empty_glyph();
    boxed.x_max = 7;
    assert!(!can_encode(&boxed));
    assert_eq!(
        assemble_font(&vec![empty_glyph(), boxed], &vec![], "Letters"),
        Err(BuildError::Glyph { index: 1 })
    );
    shape.contours.push(vec![]);
    assert!(!can_encode(&shape));
    shape.contours[2] = vec![on(0, 16384)];
    assert!(!can_encode(&shape));
    shape.contours[2] = vec![on(-16385, 0)];
    assert!(!can_encode(&shape));
    shape.contours[2] = vec![on(0, 0); 65532];
    assert!(can_encode(&shape));
    shape.contours[2].push(on(0, 0));
    assert!(!can_encode(&shape));
    shape.contours = vec![vec![on(0, 0)]; 32766];
    assert!(can_encode(&shape));
    shape.contours.push(vec![on(0, 0)]);
    assert!(!can_encode(&shape));
}

// A small generator of numbers that look random and are the same in every
// run.
fn next(seed: &mut u64) -> u32 {
    *seed = seed.wrapping_mul(6364136223846793005).wrapping_add(1442695040888963407);
    (*seed >> 33) as u32
}

fn small_point(seed: &mut u64) -> Point {
    p((next(seed) % 7) as i32 - 3, (next(seed) % 7) as i32 - 3)
}

// Many small outlines, crowded enough that ends meet starts and points
// fall half-way between control points.
#[test]
fn shape_agrees_with_the_font_crate_on_many_outlines() {
    let mut seed = 42u64;
    let mut closed = 0;
    let mut dropped = 0;
    for _ in 0..3000 {
        let mut outline = vec![PathCommand::MoveTo(small_point(&mut seed))];
        let length = next(&mut seed) % 9;
        for _ in 0..length {
            outline.push(match next(&mut seed) % 8 {
                0 => PathCommand::MoveTo(small_point(&mut seed)),
                1 => PathCommand::Close,
                2 | 3 | 4 => PathCommand::LineTo(small_point(&mut seed)),
                _ => PathCommand::QuadTo(small_point(&mut seed), small_point(&mut seed)),
            });
        }
        let mut path = kurbo::BezPath::new();
        let mut named = 0;
        for command in &outline {
            match *command {
                PathCommand::MoveTo(a) => {
                    named += 1;
                    path.move_to((a.x as f64, a.y as f64))
                }
                PathCommand::LineTo(a) => {
                    named += 1;
                    path.line_to((a.x as f64, a.y as f64))
                }
                PathCommand::QuadTo(c, a) => {
                    named += 2;
                    path.quad_to((c.x as f64, c.y as f64), (a.x as f64, a.y as f64))
                }
                PathCommand::CubicTo(_, _, _) => unreachable!(),
                PathCommand::Close => path.close_path(),
            }
        }
        let theirs = write_fonts::tables::glyf::SimpleGlyph::from_bezpath(&path).unwrap();
        let ours = glyph_shape(&outline).unwrap();
        let their_contours: Vec<Vec<CurvePoint>> = theirs
            .contours
            .iter()
            .map(|c| c.iter().map(|q| CurvePoint { x: q.x, y: q.y, on_curve: q.on_curve }).collect())
            .collect();
        assert_eq!(ours.contours, their_contours, "{:?}", outline);
        assert_eq!(
            (ours.x_min, ours.y_min, ours.x_max, ours.y_max),
            (theirs.bbox.x_min, theirs.bbox.y_min, theirs.bbox.x_max, theirs.bbox.y_max)
        );
        let kept: usize = ours.contours.iter().map(|c| c.len()).sum();
        if kept < named {
            dropped += 1;
        }
        if outline.contains(&PathCommand::Close) {
            closed += 1;
        }
    }
    assert!(dropped > 0);
    assert!(closed > 0);
}

#[test]
fn glyph_count_and_metrics_are_written_byte_for_byte() {
    let icons = vec![
        icon("a", square_path(10, 10, 90, 90), 100, FillRule::NonZero, 0xE000),
        icon("b", square_path(20, 20, 60, 60), 100, FillRule::NonZero, 0xE001),
    ];
    let bytes = build_font(&icons, "Icons").unwrap();
    let font = FontRef::new(&bytes).unwrap();
    let maxp = font.table_data(Tag::new(b"maxp")).unwrap();
    assert_eq!(maxp.as_bytes(), &[0, 0, 0x50, 0, 0, 3]);
    let hmtx = font.table_data(Tag::new(b"hmtx")).unwrap();
    assert_eq!(hmtx.as_bytes(), &[0x03, 0xE8, 0, 0, 0x03, 0xE8, 0, 0, 0x03, 0xE8, 0, 0]);

    let mut many = Vec::new();
    for k in 0..299u32 {
        many.push(icon("x", vec![], 100, FillRule::NonZero, 0xE000 + k));
    }
    let bytes = build_font(&many, "Icons").unwrap();
    let font = FontRef::new(&bytes).unwrap();
    let maxp = font.table_data(Tag::new(b"maxp")).unwrap();
    assert_eq!(maxp.as_bytes(), &[0, 0, 0x50, 0, 1, 44]);
    assert_eq!(font.table_data(Tag::new(b"hmtx")).unwrap().as_bytes().len(), 1200);
}

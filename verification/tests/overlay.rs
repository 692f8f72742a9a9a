use arcthumb::archive::ContentKind;
use arcthumb::canvas::{Canvas, Rgba};
use arcthumb::overlay::{
    apply_overlay, border_thickness, draw_border, ext_label, group_for, label_for,
    pick_text_color, place_chip, ChipPlace, FormatGroup, LabelSlot,
};
use arcthumb::settings::Settings;

fn rgba(r: u8, g: u8, b: u8) -> Rgba {
    Rgba { r, g, b, a: 255 }
}

fn solid(w: u32, h: u32, color: Rgba) -> Canvas {
    let mut pixels = Vec::new();
    for _ in 0..w * h {
        pixels.push(color.r);
        pixels.push(color.g);
        pixels.push(color.b);
        pixels.push(color.a);
    }
    Canvas::from_raw(w, h, pixels).unwrap()
}

fn off() -> Settings {
    Settings {
        overlay_border: false,
        overlay_label: false,
        ..Settings::default()
    }
}

fn text_of(slot: LabelSlot) -> String {
    match slot {
        LabelSlot::Text(t) => t,
    }
}

#[test]
fn group_mapping_splits_archives_and_ebooks() {
    for k in [
        ContentKind::Zip,
        ContentKind::SevenZ,
        ContentKind::Rar,
        ContentKind::Tar,
    ] {
        assert_eq!(group_for(k), FormatGroup::Archive, "{k:?}");
    }
    for k in [ContentKind::Epub, ContentKind::Fb2, ContentKind::Mobi] {
        assert_eq!(group_for(k), FormatGroup::Ebook, "{k:?}");
    }
}

#[test]
fn label_prefers_real_extension_for_containers() {
    assert_eq!(text_of(label_for(ContentKind::Zip, Some("cbz"))), "CBZ");
    assert_eq!(text_of(label_for(ContentKind::Zip, Some("zip"))), "ZIP");
    assert_eq!(text_of(label_for(ContentKind::Zip, Some("livp"))), "LIVP");
    assert_eq!(text_of(label_for(ContentKind::Rar, Some("cbr"))), "CBR");
    assert_eq!(text_of(label_for(ContentKind::SevenZ, Some("cb7"))), "CB7");
    assert_eq!(text_of(label_for(ContentKind::Tar, Some("cbt"))), "CBT");
}

#[test]
fn label_falls_back_to_generic_without_a_usable_extension() {
    assert_eq!(text_of(label_for(ContentKind::Zip, None)), "ZIP");
    assert_eq!(text_of(label_for(ContentKind::SevenZ, None)), "7Z");
    assert_eq!(text_of(label_for(ContentKind::Rar, None)), "RAR");
    assert_eq!(text_of(label_for(ContentKind::Tar, None)), "TAR");
    // A renamed/odd extension shouldn't leak into the label.
    assert_eq!(text_of(label_for(ContentKind::Zip, Some("bin"))), "ZIP");
}

#[test]
fn label_content_wins_for_ebooks() {
    // .fb2.zip detected as FB2 must say FB2 even though its on-disk
    // extension is ".zip".
    assert_eq!(text_of(label_for(ContentKind::Fb2, Some("zip"))), "FB2");
    assert_eq!(text_of(label_for(ContentKind::Epub, Some("epub"))), "EPUB");
    assert_eq!(text_of(label_for(ContentKind::Mobi, None)), "MOBI");
    assert_eq!(text_of(label_for(ContentKind::Mobi, Some("azw3"))), "AZW3");
    assert_eq!(text_of(label_for(ContentKind::Mobi, Some("azw"))), "AZW");
}

#[test]
fn ext_label_checks_the_allowed_list() {
    assert_eq!(ext_label(Some("7z"), &["7z", "cb7"], "X"), "7Z");
    assert_eq!(ext_label(Some("7Z"), &["7z", "cb7"], "X"), "X");
    assert_eq!(ext_label(Some("a"), &[], "X"), "X");
    assert_eq!(ext_label(None, &["a"], "X"), "X");
}

#[test]
fn text_color_contrasts_with_background() {
    assert_eq!(
        pick_text_color(rgba(0, 0, 0)),
        rgba(255, 255, 255)
    );
    assert_eq!(
        pick_text_color(rgba(255, 255, 255)),
        rgba(0, 0, 0)
    );
    // The e-book indigo is dark enough to want white text.
    assert_eq!(
        pick_text_color(FormatGroup::Ebook.color()),
        rgba(255, 255, 255)
    );
    // The folder yellow is bright, so text (and the matching chip
    // outline) come out black.
    assert_eq!(
        pick_text_color(FormatGroup::Archive.color()),
        rgba(0, 0, 0)
    );
}

#[test]
fn text_color_matches_the_luminance_formula() {
    for r in (0..=255u8).step_by(5) {
        for g in (0..=255u8).step_by(3) {
            for b in (0..=255u8).step_by(15) {
                let lum = 0.299 * r as f32 + 0.587 * g as f32 + 0.114 * b as f32;
                let expected = if lum > 140.0 { rgba(0, 0, 0) } else { rgba(255, 255, 255) };
                assert_eq!(pick_text_color(rgba(r, g, b)), expected, "{r} {g} {b}");
            }
        }
    }
    // Colours whose brightness is 140 or next to it.
    for g in 130..150u8 {
        for r in 120..160u8 {
            for b in 120..160u8 {
                let lum = 0.299 * r as f32 + 0.587 * g as f32 + 0.114 * b as f32;
                let expected = if lum > 140.0 { rgba(0, 0, 0) } else { rgba(255, 255, 255) };
                assert_eq!(pick_text_color(rgba(r, g, b)), expected, "{r} {g} {b}");
            }
        }
    }
}

#[test]
fn group_colors_are_opaque() {
    assert_eq!(FormatGroup::Archive.color(), rgba(240, 195, 70));
    assert_eq!(FormatGroup::Ebook.color(), rgba(58, 124, 165));
    assert_eq!(FormatGroup::Other.color(), rgba(110, 110, 110));
}

#[test]
fn border_thickness_matches_the_formula() {
    for min_dim in 0..5000u32 {
        let expected = ((min_dim as f32 * 0.04).round() as u32).max(2);
        assert_eq!(border_thickness(min_dim), expected, "{min_dim}");
    }
    for min_dim in [
        65_536,
        16_777_215,
        16_777_217,
        33_554_435,
        123_456_789,
        4_000_000_007,
        u32::MAX,
    ] {
        let expected = ((min_dim as f32 * 0.04).round() as u32).max(2);
        assert_eq!(border_thickness(min_dim), expected, "{min_dim}");
    }
    assert_eq!(border_thickness(256), 10);
    assert_eq!(border_thickness(10), 2);
}

#[test]
fn both_toggles_off_is_a_no_op() {
    let original = solid(128, 128, rgba(10, 20, 30));
    let mut img = solid(128, 128, rgba(10, 20, 30));
    let label = apply_overlay(&mut img, ContentKind::Zip, Some("cbz"), &off());
    assert_eq!(img, original, "overlay off must not touch the bitmap");
    assert!(label.is_none());
}

#[test]
fn border_paints_the_corner_with_the_group_color() {
    let mut img = solid(128, 128, rgba(10, 20, 30));
    let settings = Settings {
        overlay_border: true,
        ..off()
    };
    apply_overlay(&mut img, ContentKind::Zip, None, &settings);
    assert_eq!(img.get_pixel(0, 0), FormatGroup::Archive.color());
    assert_eq!(img.get_pixel(127, 127), FormatGroup::Archive.color());
    // Centre is untouched.
    assert_eq!(img.get_pixel(64, 64), rgba(10, 20, 30));
}

#[test]
fn label_is_dropped_below_the_size_threshold() {
    // 32 px < LABEL_MIN_PX, border off → nothing should change.
    let original = solid(32, 32, rgba(10, 20, 30));
    let mut img = solid(32, 32, rgba(10, 20, 30));
    let settings = Settings {
        overlay_label: true,
        ..off()
    };
    let label = apply_overlay(&mut img, ContentKind::Zip, Some("cbz"), &settings);
    assert_eq!(img, original, "label must be skipped on tiny icons");
    assert!(label.is_none());
}

#[test]
fn label_is_asked_for_above_the_threshold() {
    let settings = Settings {
        overlay_label: true,
        ..off()
    };
    let mut img = solid(256, 48, rgba(10, 20, 30));
    let label = apply_overlay(&mut img, ContentKind::Epub, Some("zip"), &settings).unwrap();
    assert_eq!(label.text, "EPUB");
    assert_eq!(label.color, FormatGroup::Ebook.color());
    assert_eq!(label.text_color, rgba(255, 255, 255));
    let mut img = solid(256, 47, rgba(10, 20, 30));
    assert!(apply_overlay(&mut img, ContentKind::Epub, None, &settings).is_none());
}

#[test]
fn empty_pictures_are_left_alone() {
    let settings = Settings {
        overlay_border: true,
        overlay_label: true,
        ..off()
    };
    let mut img = Canvas::from_raw(0, 100, Vec::new()).unwrap();
    assert!(apply_overlay(&mut img, ContentKind::Zip, None, &settings).is_none());
    assert_eq!(img.pixels.len(), 0);
}

#[test]
fn frames_cover_exactly_the_edges() {
    let color = rgba(1, 2, 3);
    let back = rgba(9, 9, 9);
    for (w, h, t) in [(7u32, 5u32, 2u32), (6, 9, 1), (4, 4, 100), (1, 1, 1), (5, 3, 0), (9, 2, 3)] {
        let mut img = solid(w, h, back);
        draw_border(&mut img, color, t);
        let t = t.min(w.div_ceil(2)).min(h.div_ceil(2));
        for y in 0..h {
            for x in 0..w {
                let on_frame = x < t || y < t || x >= w - t || y >= h - t;
                let expected = if on_frame { color } else { back };
                assert_eq!(img.get_pixel(x, y), expected, "{x},{y} in {w}x{h}");
            }
        }
    }
}

#[test]
fn chips_sit_in_the_corner() {
    assert_eq!(
        place_chip(256, 200, 80, 40, 12),
        Some(ChipPlace { x: 164, y: 148, x_end: 244, y_end: 188 })
    );
    // The margin gives way before the chip leaves the picture.
    assert_eq!(
        place_chip(100, 100, 95, 40, 12),
        Some(ChipPlace { x: 0, y: 48, x_end: 95, y_end: 88 })
    );
    assert_eq!(place_chip(100, 100, 100, 40, 0), None);
    assert_eq!(place_chip(100, 100, 40, 100, 0), None);
}

use arcthumb::settings::{
    default_enabled_image_exts_mask, ends_with_ignore_ascii_case, is_cover_name, CoverMode,
    RegistryValues, Settings, SortOrder, SUPPORTED_IMAGE_EXTS,
};

fn empty_values() -> RegistryValues {
    RegistryValues {
        sort_order: None,
        cover_mode: None,
        prefer_cover_names: None,
        enabled_image_exts: None,
        overlay_border: None,
        overlay_label: None,
    }
}

fn settings_with_mask(mask: u32) -> Settings {
    Settings {
        enabled_image_exts_mask: mask,
        ..Settings::default()
    }
}

fn round_trip(settings: &Settings) -> Settings {
    let mut values = empty_values();
    settings.save_to_values(&mut values);
    Settings::load_from_values(Some(&values))
}

fn strings(names: &[&str]) -> Vec<String> {
    names.iter().map(|n| n.to_string()).collect()
}

#[test]
fn image_ext_recognised_lowercase() {
    let s = Settings::default();
    for ext in &[
        "jpg", "jpeg", "png", "gif", "bmp", "tiff", "tif", "webp", "ico",
    ] {
        assert!(s.accepts_image_ext(&format!("foo.{ext}")), "ext={ext}");
    }
}

#[test]
fn image_ext_case_insensitive() {
    let s = Settings::default();
    assert!(s.accepts_image_ext("foo.JPG"));
    assert!(s.accepts_image_ext("foo.PnG"));
    assert!(s.accepts_image_ext("comic/CHAPTER1/01.WEBP"));
}

#[test]
fn image_ext_rejects_non_images() {
    let s = Settings::default();
    assert!(!s.accepts_image_ext("foo.txt"));
    assert!(!s.accepts_image_ext("foo.zip"));
    assert!(!s.accepts_image_ext("README"));
    assert!(!s.accepts_image_ext(""));
}

#[test]
fn image_ext_does_not_match_substring() {
    let s = Settings::default();
    assert!(!s.accepts_image_ext("foopng"));
    assert!(!s.accepts_image_ext("imagejpg"));
}

#[test]
fn mask_disables_specific_extensions() {
    assert!(settings_with_mask(0b1).accepts_image_ext("a.jpg"));
    assert!(!settings_with_mask(0b1).accepts_image_ext("a.png"));
    assert!(!settings_with_mask(0).accepts_image_ext("a.jpg"));
    let png_idx = SUPPORTED_IMAGE_EXTS
        .iter()
        .position(|&e| e == ".png")
        .unwrap();
    let s = settings_with_mask(1u32 << png_idx);
    assert!(s.accepts_image_ext("a.png"));
    assert!(!s.accepts_image_ext("a.jpg"));
}

#[test]
fn every_supported_extension_can_be_solo_enabled() {
    for (i, target_ext) in SUPPORTED_IMAGE_EXTS.iter().enumerate() {
        let s = settings_with_mask(1u32 << i);
        let target_name = format!("foo{target_ext}");
        assert!(
            s.accepts_image_ext(&target_name),
            "{target_ext} should be recognised when its own bit (index {i}) is set"
        );
        for (j, other_ext) in SUPPORTED_IMAGE_EXTS.iter().enumerate() {
            if i == j {
                continue;
            }
            if other_ext.ends_with(target_ext) || target_ext.ends_with(other_ext) {
                continue;
            }
            let other_name = format!("bar{other_ext}");
            assert!(
                !s.accepts_image_ext(&other_name),
                "{other_ext} must NOT match when only {target_ext} (bit {i}) is set"
            );
        }
    }
}

#[test]
fn every_supported_extension_can_be_solo_disabled() {
    let all = default_enabled_image_exts_mask();
    for (i, target_ext) in SUPPORTED_IMAGE_EXTS.iter().enumerate() {
        let mask = all & !(1u32 << i);
        let s = settings_with_mask(mask);
        let target_name = format!("foo{target_ext}");
        let another_matches = SUPPORTED_IMAGE_EXTS
            .iter()
            .enumerate()
            .any(|(j, e)| j != i && (mask & (1u32 << j)) != 0 && target_ext.ends_with(e));
        if another_matches {
            continue;
        }
        assert!(
            !s.accepts_image_ext(&target_name),
            "{target_ext} should be rejected when only its bit (index {i}) is cleared"
        );
    }
    // Sanity: default mask accepts every supported extension.
    let default = Settings::default();
    for ext in SUPPORTED_IMAGE_EXTS {
        let name = format!("foo{ext}");
        assert!(
            default.accepts_image_ext(&name),
            "{ext} should match under the default (all-on) mask"
        );
    }
}

#[test]
fn mask_matches_are_case_insensitive() {
    let s = Settings::default();
    for ext in SUPPORTED_IMAGE_EXTS {
        let upper = format!("FOO{}", ext.to_uppercase());
        assert!(
            s.accepts_image_ext(&upper),
            "uppercase {ext} should still match"
        );
    }
}

#[test]
fn cover_name_detection() {
    assert!(is_cover_name("cover.jpg"));
    assert!(is_cover_name("Cover.PNG"));
    assert!(is_cover_name("comic/cover.webp"));
    assert!(is_cover_name("folder.jpg"));
    assert!(is_cover_name("thumbnail.png"));
    assert!(!is_cover_name("page01.jpg"));
    assert!(!is_cover_name("recover.jpg"));
}

#[test]
fn cover_name_handles_both_separators() {
    // Archive entries can use either / or \ depending on origin.
    assert!(is_cover_name("a/b/cover.jpg"));
    assert!(is_cover_name("a\\b\\cover.jpg"));
    assert!(is_cover_name("a/b\\cover.jpg"));
}

#[test]
fn cover_name_no_extension() {
    assert!(is_cover_name("cover"));
    assert!(is_cover_name("FOLDER"));
    assert!(!is_cover_name("page1"));
}

#[test]
fn cover_name_all_aliases() {
    for stem in &["cover", "folder", "thumb", "thumbnail", "front"] {
        assert!(is_cover_name(&format!("{stem}.jpg")), "stem={stem}");
        assert!(
            is_cover_name(&format!("{}.jpg", stem.to_uppercase())),
            "uppercase stem={stem}"
        );
    }
}

#[test]
fn cover_name_needs_the_exact_stem() {
    assert!(!is_cover_name("coverpage.png"));
    assert!(!is_cover_name("cover.old.png"));
    assert!(!is_cover_name("cover/page1.png"));
    assert!(!is_cover_name(""));
    assert!(is_cover_name("表紙/front.jpg"));
}

#[test]
fn cover_wins_over_sort() {
    let names = vec![
        "aaa.jpg".to_string(),
        "cover.jpg".to_string(),
        "zzz.jpg".to_string(),
    ];
    // With default settings (cover priority on), cover wins.
    assert_eq!(
        Settings::default().pick_first_image(names),
        Some("cover.jpg".to_string())
    );
}

#[test]
fn pick_first_image_empty() {
    assert_eq!(Settings::default().pick_first_image(vec![]), None);
}

#[test]
fn pick_first_image_only_mode_picks_cover_or_nothing() {
    let only = Settings {
        cover_mode: CoverMode::Only,
        ..Settings::default()
    };
    // Cover present: it wins over the page scan.
    let with_cover = vec![
        "page01.jpg".to_string(),
        "cover.jpg".to_string(),
        "page02.jpg".to_string(),
    ];
    assert_eq!(
        only.pick_first_image(with_cover),
        Some("cover.jpg".to_string())
    );
    let no_cover = vec!["page01.jpg".to_string(), "page02.jpg".to_string()];
    assert_eq!(only.pick_first_image(no_cover), None);
}

#[test]
fn pick_first_image_only_mode_honours_all_aliases() {
    let only = Settings {
        cover_mode: CoverMode::Only,
        ..Settings::default()
    };
    for stem in &["cover", "folder", "thumb", "thumbnail", "front"] {
        let names = vec!["page01.jpg".to_string(), format!("{stem}.jpg")];
        assert_eq!(
            only.pick_first_image(names),
            Some(format!("{stem}.jpg")),
            "only mode should accept the {stem} alias"
        );
    }
}

#[test]
fn pick_first_image_ignore_mode_skips_cover() {
    let names = vec!["thumbnail.jpg".to_string(), "aaa.jpg".to_string()];
    let ignore = Settings {
        cover_mode: CoverMode::Ignore,
        ..Settings::default()
    };
    assert_eq!(
        ignore.pick_first_image(names.clone()),
        Some("aaa.jpg".to_string())
    );
    // Sanity: the default Prefer mode would pick the cover instead,
    // proving the difference is the mode and not the sort order.
    let prefer = Settings::default();
    assert_eq!(
        prefer.pick_first_image(names),
        Some("thumbnail.jpg".to_string())
    );
}

#[test]
fn pick_follows_the_sort_order() {
    let names = strings(&["page10.jpg", "Page2.jpg", "page3.jpg"]);
    let natural = Settings::default();
    let alphabetical = Settings {
        sort_order: SortOrder::Alphabetical,
        ..Settings::default()
    };
    assert_eq!(natural.pick_first_image(names.clone()), Some("Page2.jpg".to_string()));
    assert_eq!(alphabetical.pick_first_image(names), Some("Page2.jpg".to_string()));
    let lower = strings(&["page10.jpg", "page2.jpg"]);
    assert_eq!(natural.pick_first_image(lower.clone()), Some("page2.jpg".to_string()));
    assert_eq!(alphabetical.pick_first_image(lower), Some("page10.jpg".to_string()));
}

#[test]
fn pick_keeps_the_first_of_tied_names() {
    let natural = Settings::default();
    let names = strings(&["z.jpg", "page02.jpg", "page2.jpg", "PAGE2.jpg"]);
    assert_eq!(natural.pick_first_image(names), Some("page02.jpg".to_string()));
    let names = strings(&["PAGE2.jpg", "page02.jpg", "page2.jpg"]);
    assert_eq!(natural.pick_first_image(names), Some("PAGE2.jpg".to_string()));
}

#[test]
fn pick_prefers_the_first_of_several_covers() {
    let names = strings(&["b/folder.jpg", "a/thumb.jpg", "0.jpg", "a/cover.jpg"]);
    assert_eq!(
        Settings::default().pick_first_image(names),
        Some("a/cover.jpg".to_string())
    );
}

#[test]
fn picking_equals_sorting_and_taking_the_first() {
    let names = strings(&[
        "c/10.png", "C/9.png", "c/cover.png", "b01.jpg", "b1.jpg", "front.gif", "日.png", "a",
    ]);
    for order in [SortOrder::Alphabetical, SortOrder::Natural] {
        for mode in [CoverMode::Ignore, CoverMode::Prefer, CoverMode::Only] {
            let settings = Settings {
                sort_order: order,
                cover_mode: mode,
                ..Settings::default()
            };
            let mut sorted = names.clone();
            match order {
                SortOrder::Alphabetical => sorted.sort(),
                SortOrder::Natural => {
                    sorted.sort_by(|a, b| arcthumb::natural::natural_cmp(a, b))
                }
            }
            let cover = sorted.iter().find(|n| is_cover_name(n)).cloned();
            let expected = match mode {
                CoverMode::Ignore => Some(sorted[0].clone()),
                CoverMode::Prefer => cover.or_else(|| Some(sorted[0].clone())),
                CoverMode::Only => cover,
            };
            assert_eq!(settings.pick_first_image(names.clone()), expected);
        }
    }
}

#[test]
fn cover_mode_parse_round_trip() {
    for mode in [CoverMode::Ignore, CoverMode::Prefer, CoverMode::Only] {
        let s = mode.as_registry_value();
        assert_eq!(CoverMode::from_registry_value(s), Some(mode));
    }
    // Case-insensitive parse; unknown strings fall through.
    assert_eq!(
        CoverMode::from_registry_value("ONLY"),
        Some(CoverMode::Only)
    );
    assert_eq!(CoverMode::from_registry_value("garbage"), None);
}

#[test]
fn cover_mode_registry_round_trip_all_values() {
    for mode in [CoverMode::Ignore, CoverMode::Prefer, CoverMode::Only] {
        let original = Settings {
            cover_mode: mode,
            ..Settings::default()
        };
        assert_eq!(round_trip(&original).cover_mode, mode, "round-trip {mode:?}");
    }
}

#[test]
fn legacy_prefer_cover_names_falls_back() {
    for (dword, expected) in [(1u32, CoverMode::Prefer), (0u32, CoverMode::Ignore)] {
        let mut values = empty_values();
        values.prefer_cover_names = Some(dword);
        let loaded = Settings::load_from_values(Some(&values));
        assert_eq!(loaded.cover_mode, expected, "PreferCoverNames={dword}");
    }
}

#[test]
fn malformed_cover_mode_falls_back_to_the_early_value() {
    let mut values = empty_values();
    values.cover_mode = Some("garbage".to_string());
    assert_eq!(
        Settings::load_from_values(Some(&values)).cover_mode,
        CoverMode::Prefer
    );
    values.prefer_cover_names = Some(0);
    assert_eq!(
        Settings::load_from_values(Some(&values)).cover_mode,
        CoverMode::Ignore
    );
}

#[test]
fn cover_mode_takes_precedence_over_legacy_key() {
    // When both keys exist (an upgrade that re-saved), CoverMode wins.
    let mut values = empty_values();
    values.prefer_cover_names = Some(0);
    values.cover_mode = Some("only".to_string());
    let loaded = Settings::load_from_values(Some(&values));
    assert_eq!(loaded.cover_mode, CoverMode::Only);
}

#[test]
fn sort_order_parse_aliases() {
    assert_eq!(
        SortOrder::from_registry_value("alphabetical"),
        Some(SortOrder::Alphabetical)
    );
    assert_eq!(
        SortOrder::from_registry_value("ALPHA"),
        Some(SortOrder::Alphabetical)
    );
    assert_eq!(
        SortOrder::from_registry_value("Natural"),
        Some(SortOrder::Natural)
    );
    assert_eq!(
        SortOrder::from_registry_value("NAT"),
        Some(SortOrder::Natural)
    );
    assert_eq!(SortOrder::from_registry_value("garbage"), None);
    assert_eq!(SortOrder::from_registry_value(""), None);
}

#[test]
fn sort_order_registry_value_roundtrip() {
    for order in [SortOrder::Alphabetical, SortOrder::Natural] {
        let s = order.as_registry_value();
        assert_eq!(SortOrder::from_registry_value(s), Some(order));
    }
}

#[test]
fn settings_default_matches_documented_behaviour() {
    let s = Settings::default();
    assert_eq!(s.sort_order, SortOrder::Natural);
    assert_eq!(s.cover_mode, CoverMode::Prefer);
    assert_eq!(
        s.enabled_image_exts_mask,
        default_enabled_image_exts_mask(),
        "default must enable every supported image extension"
    );
    assert!(!s.overlay_border, "border overlay defaults off");
    assert!(!s.overlay_label, "label overlay defaults off");
}

#[test]
fn settings_registry_round_trip_preserves_all_fields() {
    let original = Settings {
        sort_order: SortOrder::Alphabetical,
        cover_mode: CoverMode::Only,
        enabled_image_exts_mask: 0b1010_1010,
        overlay_border: true,
        overlay_label: true,
    };
    let loaded = round_trip(&original);
    let expected_mask = 0b1010_1010 & default_enabled_image_exts_mask();
    assert_eq!(loaded.sort_order, SortOrder::Alphabetical);
    assert_eq!(loaded.cover_mode, CoverMode::Only);
    assert_eq!(loaded.enabled_image_exts_mask, expected_mask);
    assert!(loaded.overlay_border, "border overlay round-trips");
    assert!(loaded.overlay_label, "label overlay round-trips");
}

#[test]
fn saving_leaves_the_early_value_alone() {
    let mut values = empty_values();
    values.prefer_cover_names = Some(7);
    Settings::default().save_to_values(&mut values);
    assert_eq!(values.prefer_cover_names, Some(7));
    assert_eq!(values.sort_order.as_deref(), Some("natural"));
    assert_eq!(values.cover_mode.as_deref(), Some("prefer"));
    assert_eq!(values.enabled_image_exts, Some(0x7ff));
    assert_eq!(values.overlay_border, Some(0));
    assert_eq!(values.overlay_label, Some(0));
}

#[test]
fn settings_load_missing_subkey_returns_defaults() {
    assert_eq!(Settings::load_from_values(None), Settings::default());
    assert_eq!(
        Settings::load_from_values(Some(&empty_values())),
        Settings::default()
    );
}

#[test]
fn settings_load_masks_out_of_range_high_bits() {
    let mut values = empty_values();
    values.enabled_image_exts = Some(0xFFFF_FFFF);
    let loaded = Settings::load_from_values(Some(&values));
    assert_eq!(
        loaded.enabled_image_exts_mask,
        default_enabled_image_exts_mask(),
        "high bits beyond the supported range must be cleared"
    );
}

#[test]
fn settings_round_trip_every_single_image_ext_toggle() {
    let all = default_enabled_image_exts_mask();
    for (i, ext) in SUPPORTED_IMAGE_EXTS.iter().enumerate() {
        let original = Settings {
            enabled_image_exts_mask: all & !(1u32 << i),
            ..Settings::default()
        };
        let loaded = round_trip(&original);
        assert_eq!(
            loaded.enabled_image_exts_mask, original.enabled_image_exts_mask,
            "bit {i} round-trip ({ext})"
        );
    }
}

#[test]
fn ends_with_ignore_ascii_case_matches_case_variants() {
    assert!(ends_with_ignore_ascii_case("foo.jpg", ".jpg"));
    assert!(ends_with_ignore_ascii_case("foo.JPG", ".jpg"));
    assert!(ends_with_ignore_ascii_case("foo.JpG", ".jpg"));
    assert!(ends_with_ignore_ascii_case("FOO.JPG", ".JPG"));
}

#[test]
fn ends_with_ignore_ascii_case_rejects_non_suffix() {
    assert!(!ends_with_ignore_ascii_case("foo.jpg", ".png"));
    assert!(!ends_with_ignore_ascii_case("foo", ".jpg"));
    assert!(!ends_with_ignore_ascii_case("", ".jpg"));
    // Substring match must not be treated as suffix.
    assert!(!ends_with_ignore_ascii_case("foo.jpg.txt", ".jpg"));
}

#[test]
fn ends_with_ignore_ascii_case_empty_suffix_always_matches() {
    assert!(ends_with_ignore_ascii_case("anything", ""));
    assert!(ends_with_ignore_ascii_case("", ""));
}

#[test]
fn ends_with_ignore_ascii_case_handles_non_ascii_in_input() {
    assert!(ends_with_ignore_ascii_case("日本語.jpg", ".jpg"));
    assert!(!ends_with_ignore_ascii_case("日本語.jpg", ".png"));
}

#[test]
fn default_image_mask_covers_exactly_supported_length() {
    let n = SUPPORTED_IMAGE_EXTS.len();
    let expected = if n >= 32 { u32::MAX } else { (1u32 << n) - 1 };
    assert_eq!(default_enabled_image_exts_mask(), expected);
    for i in 0..n {
        assert!(
            default_enabled_image_exts_mask() & (1u32 << i) != 0,
            "bit {i} should be set in the default mask"
        );
    }
    for i in n..32 {
        assert_eq!(
            default_enabled_image_exts_mask() & (1u32 << i),
            0,
            "bit {i} should be clear (beyond supported length)"
        );
    }
}

#[test]
fn high_efficiency_stills_are_supported() {
    let s = Settings::default();
    assert!(s.accepts_image_ext("IMG_0001.HEIC"));
    assert!(s.accepts_image_ext("IMG_0001.heif"));
    assert!(!settings_with_mask(0x1ff).accepts_image_ext("IMG_0001.HEIC"));
}

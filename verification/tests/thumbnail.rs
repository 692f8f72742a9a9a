use arcthumb::archive::ContentKind;
use arcthumb::canvas::{Canvas, Picture, Rgba, Samples};
use arcthumb::hresult::{CLASS_E_NOAGGREGATION, E_FAIL, E_POINTER};
use arcthumb::limits;
use arcthumb::settings::Settings;
use arcthumb::thumbnail::{
    clamp_thumbnail_size, compose_thumbnail, extension_of, thumbnail_status, ArcThumbClassFactory,
    ArcThumbProvider,
};

#[test]
fn extension_of_handles_names_and_paths() {
    assert_eq!(extension_of("book.cbz").as_deref(), Some("cbz"));
    assert_eq!(extension_of("BOOK.CBZ").as_deref(), Some("cbz"));
    // Last extension wins; the FB2/EPUB content kind overrides this
    // upstream anyway.
    assert_eq!(extension_of("novel.fb2.zip").as_deref(), Some("zip"));
    // A dotted folder must not be read as the extension.
    assert_eq!(extension_of("C:\\my.archives\\comic").as_deref(), None);
    assert_eq!(extension_of("comic").as_deref(), None);
    assert_eq!(extension_of("trailing.").as_deref(), None);
}

#[test]
fn extension_of_keeps_other_characters() {
    assert_eq!(extension_of("a/b.c/d.ÄB").as_deref(), Some("Äb"));
    assert_eq!(extension_of("").as_deref(), None);
    assert_eq!(extension_of(".hidden").as_deref(), Some("hidden"));
    assert_eq!(extension_of("x.y/").as_deref(), None);
}

#[test]
fn clamp_within_range_is_identity() {
    assert_eq!(clamp_thumbnail_size(64), 64);
    assert_eq!(clamp_thumbnail_size(256), 256);
    assert_eq!(
        clamp_thumbnail_size(limits::MIN_THUMBNAIL_SIZE),
        limits::MIN_THUMBNAIL_SIZE
    );
    assert_eq!(
        clamp_thumbnail_size(limits::MAX_THUMBNAIL_SIZE),
        limits::MAX_THUMBNAIL_SIZE
    );
}

#[test]
fn clamp_below_minimum() {
    assert_eq!(clamp_thumbnail_size(0), limits::MIN_THUMBNAIL_SIZE);
    assert_eq!(clamp_thumbnail_size(1), limits::MIN_THUMBNAIL_SIZE);
    assert_eq!(
        clamp_thumbnail_size(limits::MIN_THUMBNAIL_SIZE - 1),
        limits::MIN_THUMBNAIL_SIZE
    );
}

#[test]
fn clamp_above_maximum() {
    assert_eq!(clamp_thumbnail_size(u32::MAX), limits::MAX_THUMBNAIL_SIZE);
    assert_eq!(
        clamp_thumbnail_size(limits::MAX_THUMBNAIL_SIZE + 1),
        limits::MAX_THUMBNAIL_SIZE
    );
    assert_eq!(clamp_thumbnail_size(10000), limits::MAX_THUMBNAIL_SIZE);
}

#[test]
fn clamp_standard_explorer_sizes() {
    // Explorer's common thumbnail size buckets.
    for size in [16, 32, 48, 64, 96, 128, 256, 512, 1024, 2560] {
        let clamped = clamp_thumbnail_size(size);
        assert_eq!(clamped, size, "standard size {size} should pass through");
    }
}

#[test]
fn factory_checks_its_arguments() {
    let factory = ArcThumbClassFactory;
    assert_eq!(factory.create_instance(false, false, false), Ok(()));
    assert_eq!(
        factory.create_instance(true, true, true),
        Err(CLASS_E_NOAGGREGATION)
    );
    assert_eq!(factory.create_instance(false, true, false), Err(E_POINTER));
    assert_eq!(factory.create_instance(false, false, true), Err(E_POINTER));
    assert_eq!(factory.lock_server(true), Ok(()));
}

#[test]
fn provider_needs_places_and_a_stream() {
    let mut provider: ArcThumbProvider<u8> = ArcThumbProvider::new();
    assert_eq!(provider.begin_thumbnail(64, true, false), Err(E_POINTER));
    assert_eq!(provider.begin_thumbnail(64, false, true), Err(E_POINTER));
    assert_eq!(provider.begin_thumbnail(64, false, false), Err(E_FAIL));
    provider.initialize(Some(7));
    assert_eq!(provider.begin_thumbnail(64, false, false), Ok((&7, 64)));
    assert_eq!(provider.begin_thumbnail(1, false, false), Ok((&7, 16)));
    assert_eq!(provider.begin_thumbnail(64, true, true), Err(E_POINTER));
    provider.initialize(None);
    assert_eq!(provider.begin_thumbnail(64, false, false), Err(E_FAIL));
}

#[test]
fn failures_become_an_unspecified_error() {
    assert_eq!(thumbnail_status::<u8, &str>(Ok(3)), Ok(3));
    assert_eq!(thumbnail_status::<u8, &str>(Err("no images")), Err(E_FAIL));
}

fn gradient(width: u32, height: u32) -> Vec<u8> {
    let mut pixels = Vec::new();
    for y in 0..height {
        for x in 0..width {
            pixels.push((x * 7 % 256) as u8);
            pixels.push((y * 5 % 256) as u8);
            pixels.push(((x + y) % 256) as u8);
            pixels.push(255);
        }
    }
    pixels
}

#[test]
fn thumbnails_are_resampled_like_the_image_library_does() {
    for (width, height, size) in [(40u32, 30u32, 64u32), (300, 7, 64), (33, 200, 48), (64, 64, 64)] {
        let pixels = gradient(width, height);
        let picture = Canvas::from_raw(width, height, pixels.clone()).unwrap().into_picture();
        let (made, label) =
            compose_thumbnail(picture, size, ContentKind::Zip, None, &Settings::default());
        let expected = image::DynamicImage::ImageRgba8(
            image::RgbaImage::from_raw(width, height, pixels).unwrap(),
        )
        .resize(size, size, image::imageops::FilterType::Triangle)
        .to_rgba8();
        assert_eq!((made.width, made.height), expected.dimensions());
        assert_eq!(&made.pixels, expected.as_raw());
        assert!(label.is_none());
    }
}

#[test]
fn thumbnails_fit_into_the_requested_square() {
    for width in [1u32, 2, 3, 17, 255, 256, 257, 1000, 4099] {
        for height in [1u32, 5, 31, 256, 999] {
            let pixels = vec![9u8; (width * height * 4) as usize];
            let picture = Canvas::from_raw(width, height, pixels).unwrap().into_picture();
            let made = picture.fit_within(32);
            assert!(made.width >= 1 && made.width <= 32);
            assert!(made.height >= 1 && made.height <= 32);
            assert!(made.width == 32 || made.height == 32);
        }
    }
}

#[test]
fn marked_thumbnails_get_border_and_label() {
    let settings = Settings {
        overlay_border: true,
        overlay_label: true,
        ..Settings::default()
    };
    let picture = Canvas::from_raw(4, 4, vec![200u8; 64]).unwrap().into_picture();
    let (made, label) =
        compose_thumbnail(picture, 100, ContentKind::Zip, Some("cbz"), &settings);
    assert_eq!((made.width, made.height), (100, 100));
    let yellow = Rgba { r: 240, g: 195, b: 70, a: 255 };
    assert_eq!(made.get_pixel(3, 50), yellow);
    assert_ne!(made.get_pixel(4, 50), yellow);
    let label = label.unwrap();
    assert_eq!(label.text, "CBZ");
    assert_eq!(label.color, yellow);
    assert_eq!(label.text_color, Rgba { r: 0, g: 0, b: 0, a: 255 });
}

fn deep_gradient(width: u32, height: u32) -> Vec<u16> {
    (0..width * height * 4)
        .map(|k| (k.wrapping_mul(40_503) >> 3) as u16)
        .collect()
}

#[test]
fn deep_pictures_are_resampled_at_their_own_depth() {
    let (width, height, size) = (61u32, 45u32, 32u32);
    let values = deep_gradient(width, height);
    let picture = Picture {
        width,
        height,
        samples: Samples::Sixteen(values.clone()),
    };
    let (made, _) = compose_thumbnail(picture, size, ContentKind::Zip, None, &Settings::default());
    let deep = image::DynamicImage::ImageRgba16(
        image::ImageBuffer::from_raw(width, height, values).unwrap(),
    );
    let filter = image::imageops::FilterType::Triangle;
    let expected = deep.resize(size, size, filter).to_rgba8();
    assert_eq!((made.width, made.height), expected.dimensions());
    assert_eq!(&made.pixels, expected.as_raw());
    let early = image::DynamicImage::ImageRgba8(deep.to_rgba8()).resize(size, size, filter);
    assert_ne!(&made.pixels, early.to_rgba8().as_raw());
}

#[test]
fn pictures_with_fewer_channels_can_be_widened_first() {
    let (width, height, size) = (50u32, 70u32, 32u32);
    let filter = image::imageops::FilterType::Triangle;
    let values = deep_gradient(width, height);
    let narrow: Vec<u8> = values.iter().map(|v| (v >> 8) as u8).collect();
    let count = (width * height) as usize;
    let sources = [
        image::DynamicImage::ImageLuma8(
            image::ImageBuffer::from_raw(width, height, narrow[..count].to_vec()).unwrap(),
        ),
        image::DynamicImage::ImageRgb8(
            image::ImageBuffer::from_raw(width, height, narrow[..3 * count].to_vec()).unwrap(),
        ),
        image::DynamicImage::ImageLumaA8(
            image::ImageBuffer::from_raw(width, height, narrow[..2 * count].to_vec()).unwrap(),
        ),
    ];
    for source in sources {
        let samples = Samples::Eight(source.to_rgba8().into_raw());
        let made = Picture { width, height, samples }.fit_within(size);
        assert_eq!(&made.pixels, source.resize(size, size, filter).to_rgba8().as_raw());
    }
    let sources = [
        image::DynamicImage::ImageLuma16(
            image::ImageBuffer::from_raw(width, height, values[..count].to_vec()).unwrap(),
        ),
        image::DynamicImage::ImageRgb16(
            image::ImageBuffer::from_raw(width, height, values[..3 * count].to_vec()).unwrap(),
        ),
        image::DynamicImage::ImageLumaA16(
            image::ImageBuffer::from_raw(width, height, values[..2 * count].to_vec()).unwrap(),
        ),
    ];
    for source in sources {
        let samples = Samples::Sixteen(source.to_rgba16().into_raw());
        let made = Picture { width, height, samples }.fit_within(size);
        assert_eq!(&made.pixels, source.resize(size, size, filter).to_rgba8().as_raw());
    }
}

#[test]
fn only_whole_pictures_can_be_resized() {
    let picture = |width, height, count: usize| Picture {
        width,
        height,
        samples: Samples::Sixteen(vec![0; count]),
    };
    assert!(picture(3, 2, 24).can_resize());
    assert!(!picture(3, 2, 23).can_resize());
    assert!(!picture(0, 2, 0).can_resize());
    assert!(!picture(3, 32_769, 24).can_resize());
    assert!(!Picture { width: 1, height: 2, samples: Samples::Eight(vec![0; 4]) }.can_resize());
}

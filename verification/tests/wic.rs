use arcthumb::canvas::Rgba;
use arcthumb::wic::{
    check_input, finish_decode, plan_decode, thumbnail_dimensions, validate_dimensions,
    DecodeError,
};

#[test]
fn thumbnail_dimensions_preserve_aspect_ratio() {
    assert_eq!(thumbnail_dimensions(4000, 3000, 256), (512, 384));
    assert_eq!(thumbnail_dimensions(3000, 4000, 256), (384, 512));
}

#[test]
fn thumbnail_dimensions_do_not_enlarge_or_scale_for_zero_target() {
    assert_eq!(thumbnail_dimensions(200, 100, 256), (200, 100));
    assert_eq!(thumbnail_dimensions(4000, 3000, 0), (4000, 3000));
}

#[test]
fn thumbnail_dimensions_keep_thin_side_nonzero() {
    assert_eq!(thumbnail_dimensions(32768, 1, 1), (2, 1));
}

#[test]
fn thumbnail_dimensions_survive_large_targets() {
    assert_eq!(thumbnail_dimensions(100, 50, u32::MAX), (100, 50));
    assert_eq!(thumbnail_dimensions(u32::MAX, 3, u32::MAX), (u32::MAX, 3));
    assert_eq!(thumbnail_dimensions(1000, 333, 5), (10, 3));
}

#[test]
fn empty_and_oversized_images_are_refused() {
    assert_eq!(check_input(b""), Err(DecodeError::EmptyInput));
    assert_eq!(check_input(b"x"), Ok(()));
    assert_eq!(DecodeError::EmptyInput.message(), "WIC input is empty");
    assert_eq!(validate_dimensions(32768, 32768), Ok(()));
    assert_eq!(
        validate_dimensions(0, 7).unwrap_err().message(),
        "WIC returned invalid dimensions: 0x7"
    );
    assert_eq!(
        validate_dimensions(0, 40000).unwrap_err(),
        DecodeError::InvalidDimensions { width: 0, height: 40000 }
    );
    assert_eq!(
        validate_dimensions(32769, 1).unwrap_err().message(),
        "WIC dimensions too large: 32769x1"
    );
}

#[test]
fn decode_plans_bound_the_memory() {
    let plan = plan_decode(4000, 3000, 256).unwrap();
    assert_eq!((plan.width, plan.height), (512, 384));
    assert!(plan.scaled);
    assert_eq!(plan.stride, 2048);
    assert_eq!(plan.byte_count, 786_432);
    let plan = plan_decode(4, 3, 0).unwrap();
    assert!(!plan.scaled);
    assert_eq!(plan.byte_count, 48);
    let error = plan_decode(32768, 32768, 0).unwrap_err();
    assert_eq!(
        error.message(),
        "WIC decoded buffer would exceed allocation limit: 4294967296"
    );
    assert!(plan_decode(0, 3, 0).is_err());
}

#[test]
fn decoded_bytes_become_a_picture() {
    let plan = plan_decode(2, 1, 0).unwrap();
    let canvas = finish_decode(plan, vec![1, 2, 3, 4, 10, 20, 30, 255]).unwrap();
    assert_eq!((canvas.width, canvas.height), (2, 1));
    assert_eq!(canvas.get_pixel(1, 0), Rgba { r: 10, g: 20, b: 30, a: 255 });
    let error = finish_decode(plan, vec![1, 2, 3]).unwrap_err();
    assert_eq!(error, DecodeError::BufferMismatch);
    assert_eq!(error.message(), "WIC RGBA buffer size mismatch");
}

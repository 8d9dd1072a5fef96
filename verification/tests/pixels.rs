use opengl_rust::renderer::pixels::{decode_texture, TextureError, TextureImage};

// A picture of two rows of two pixels with an alpha channel: the top row
// holds the bytes 1 to 6, the bottom row 7 to 12, each pixel opaque.
const TWO_BY_TWO: [u8; 83] = [
    137, 80, 78, 71, 13, 10, 26, 10, 0, 0, 0, 13, 73, 72, 68, 82, 0, 0, 0, 2, 0, 0, 0, 2, 8, 6,
    0, 0, 0, 114, 182, 13, 36, 0, 0, 0, 26, 73, 68, 65, 84, 120, 156, 99, 96, 100, 98, 254, 207,
    194, 202, 246, 159, 129, 157, 131, 243, 63, 23, 55, 207, 127, 0, 32, 11, 4, 75, 90, 199,
    112, 119, 0, 0, 0, 0, 73, 69, 78, 68, 174, 66, 96, 130,
];

#[test]
fn decoded_image_is_upside_down_and_without_alpha() {
    let image = decode_texture(&TWO_BY_TWO, "png").unwrap();
    assert_eq!(image.width(), 2);
    assert_eq!(image.height(), 2);
    assert_eq!(image.pixels(), &vec![7, 8, 9, 10, 11, 12, 1, 2, 3, 4, 5, 6]);
}

#[test]
fn extension_is_read_without_regard_to_case() {
    let image = decode_texture(&TWO_BY_TWO, "PNG").unwrap();
    assert_eq!(image.pixels().len(), 12);
}

#[test]
fn unknown_extension_gives_no_format() {
    let error = decode_texture(&TWO_BY_TWO, "texture").unwrap_err();
    assert_eq!(error, TextureError::UnknownFormat);
    assert_eq!(error.message(), "The image format could not be determined");
}

#[test]
fn bytes_of_another_format_are_rejected() {
    let error = decode_texture(&TWO_BY_TWO, "jpg").unwrap_err();
    assert!(matches!(error, TextureError::Decode(_)));
    assert!(!error.message().is_empty());
    let error = decode_texture(&TWO_BY_TWO[..20], "png").unwrap_err();
    assert!(matches!(error, TextureError::Decode(_)));
    assert!(matches!(decode_texture(&[], "png"), Err(TextureError::Decode(_))));
}

#[test]
fn texture_image_takes_the_bytes_that_its_sides_ask_for() {
    let image = TextureImage::new(2, 1, vec![1, 2, 3, 4, 5, 6]).unwrap();
    assert_eq!((image.width(), image.height()), (2, 1));
    assert_eq!(image.pixels(), &vec![1, 2, 3, 4, 5, 6]);
    let image = TextureImage::new(1, 1, vec![1, 2, 3, 4, 5, 6]).unwrap();
    assert_eq!(image.pixels(), &vec![1, 2, 3]);
    let image = TextureImage::new(0, 5, vec![9]).unwrap();
    assert!(image.pixels().is_empty());
}

#[test]
fn texture_image_refuses_too_few_bytes_and_too_long_sides() {
    assert_eq!(TextureImage::new(2, 1, vec![1, 2, 3, 4, 5]), Err(TextureError::Truncated));
    assert_eq!(TextureImage::new(1, 1, vec![]), Err(TextureError::Truncated));
    assert_eq!(TextureImage::new(0x8000_0000, 0, vec![]), Err(TextureError::TooLarge));
    assert_eq!(TextureImage::new(0, u32::MAX, vec![]), Err(TextureError::TooLarge));
    assert_eq!(
        TextureImage::new(0x7fff_ffff, 0x7fff_ffff, vec![0; 16]),
        Err(TextureError::Truncated)
    );
    assert_eq!(TextureError::TooLarge.message(), "The image is too large");
    assert_eq!(TextureError::Truncated.message(), "The image has too few bytes");
    assert_eq!(TextureError::Decode("broken".to_string()).message(), "broken");
}

#[test]
fn every_extension_of_the_table_names_a_format() {
    let known = [
        "avif", "jpg", "jpeg", "jfif", "png", "apng", "gif", "webp", "tif", "tiff", "tga", "dds",
        "bmp", "ico", "hdr", "exr", "pbm", "pam", "ppm", "pgm", "pnm", "ff", "qoi",
    ];
    for extension in known {
        assert_ne!(decode_texture(&[], extension), Err(TextureError::UnknownFormat));
        let upper = extension.to_uppercase();
        assert_ne!(decode_texture(&[], &upper), Err(TextureError::UnknownFormat));
    }
    assert_ne!(decode_texture(&[], "JpEg"), Err(TextureError::UnknownFormat));
}

#[test]
fn no_other_extension_names_a_format() {
    let unknown = ["", "pcx", "pn", "pngx", ".png", "png ", "jp", "\u{212a}", "p\u{d1}g", "svg"];
    for extension in unknown {
        assert_eq!(decode_texture(&TWO_BY_TWO, extension), Err(TextureError::UnknownFormat));
    }
}

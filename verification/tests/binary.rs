use agent::util::binary::{
    binary_extension, content_looks_binary, image_format, is_binary_extension, is_binary_file,
    is_image_extension, validate_image_format,
};

#[test]
fn test_binary_extension_detection() {
    assert!(is_binary_extension("file.exe"));
    assert!(is_binary_extension("archive.zip"));
    assert!(is_binary_extension("data.bin"));
    assert!(!is_binary_extension("code.rs"));
    assert!(!is_binary_extension("readme.txt"));
}

#[test]
fn test_image_extension_detection() {
    assert_eq!(is_image_extension("photo.jpg"), Some("JPEG"));
    assert_eq!(is_image_extension("icon.PNG"), Some("PNG"));
    assert_eq!(is_image_extension("code.rs"), None);
}

#[test]
fn test_binary_content_detection() {
    let path = "test.txt";

    let text = b"Hello, World!";
    assert!(!is_binary_file(path, text));

    let binary = b"Hello\x00World";
    assert!(is_binary_file(path, binary));

    assert!(!is_binary_file(path, &[]));
}

#[test]
fn test_image_format_validation() {
    let png = [0x89, 0x50, 0x4E, 0x47, 0x0D, 0x0A, 0x1A, 0x0A];
    assert!(validate_image_format(&png, "PNG"));

    let not_png = [0x00, 0x00, 0x00, 0x00, 0x00, 0x00, 0x00, 0x00];
    assert!(!validate_image_format(&not_png, "PNG"));

    let jpeg = [0xFF, 0xD8, 0xFF, 0xE0, 0x00, 0x10, 0x4A, 0x46];
    assert!(validate_image_format(&jpeg, "JPEG"));
}

#[test]
fn every_known_binary_extension_is_recognized() {
    for ext in [
        "zip", "tar", "gz", "exe", "dll", "so", "class", "jar", "war", "7z", "doc", "docx",
        "xls", "xlsx", "ppt", "pptx", "odt", "ods", "odp", "bin", "dat", "obj", "o", "a", "lib",
        "wasm", "pyc", "pyo",
    ] {
        assert!(binary_extension(ext), "{}", ext);
        assert!(binary_extension(&ext.to_uppercase()), "{}", ext);
        assert!(is_binary_extension(&format!("dir/name.{}", ext)), "{}", ext);
    }
    assert!(!binary_extension("txt"));
    assert!(!binary_extension(""));
    assert!(!binary_extension("zipx"));
}

#[test]
fn every_image_extension_names_its_format() {
    assert_eq!(image_format("jpg"), Some("JPEG"));
    assert_eq!(image_format("jpeg"), Some("JPEG"));
    assert_eq!(image_format("png"), Some("PNG"));
    assert_eq!(image_format("gif"), Some("GIF"));
    assert_eq!(image_format("bmp"), Some("BMP"));
    assert_eq!(image_format("webp"), Some("WebP"));
    assert_eq!(image_format("tiff"), Some("TIFF"));
    assert_eq!(image_format("tif"), Some("TIFF"));
    assert_eq!(image_format("svg"), Some("SVG"));
    assert_eq!(image_format("ico"), Some("ICO"));
    assert_eq!(image_format("avif"), Some("AVIF"));
    assert_eq!(image_format("txt"), None);
}

#[test]
fn png_is_recognized_whatever_the_case_of_the_extension() {
    let png = [0x89, 0x50, 0x4E, 0x47, 0x0D, 0x0A, 0x1A, 0x0A, 0x00, 0x00];
    for name in ["a.png", "a.PNG", "a.Png"] {
        let format = is_image_extension(name).unwrap();
        assert_eq!(format, "PNG");
        assert!(validate_image_format(&png, format));
    }
}

#[test]
fn a_bin_file_is_binary_with_plain_text_in_it() {
    assert!(is_binary_file("data.bin", b"only letters"));
    assert!(is_binary_file("data.BIN", b"only letters"));
    assert!(is_binary_file("data.bin", b""));
}

#[test]
fn a_zero_byte_makes_a_file_binary() {
    assert!(is_binary_file("notes", b"a\x00b"));
    assert!(content_looks_binary(b"\x00"));
}

#[test]
fn a_zero_byte_beyond_the_inspected_part_is_not_seen() {
    let mut content = vec![b'a'; 4096];
    content.push(0);
    assert!(!content_looks_binary(&content));
    content[4095] = 0;
    assert!(content_looks_binary(&content));
}

#[test]
fn more_than_three_tenths_of_control_bytes_make_a_file_binary() {
    // 3 of 10 is not more than three tenths
    assert!(!content_looks_binary(b"\x01\x02\x03abcdefg"));
    // 4 of 10 is
    assert!(content_looks_binary(b"\x01\x02\x03\x04abcdef"));
    // tab, line feed and carriage return are printable
    assert!(!content_looks_binary(b"\t\n\r\x0b\x0c"));
    // 14 to 31 are not
    assert!(content_looks_binary(b"\x0e\x1f"));
}

#[test]
fn an_empty_file_is_not_binary() {
    assert!(!is_binary_file("empty.txt", b""));
    assert!(!content_looks_binary(b""));
}

#[test]
fn short_buffers_are_images_of_no_format_but_svg() {
    assert!(!validate_image_format(&[0xFF, 0xD8, 0xFF], "JPEG"));
    assert!(!validate_image_format(&[0x42, 0x4D], "BMP"));
    assert!(!validate_image_format(b"abc", "unknown"));
    assert!(validate_image_format(b"<svg/>", "SVG"));
    assert!(!validate_image_format(b"<sv", "SVG"));
}

#[test]
fn signatures_of_the_other_formats_are_checked() {
    assert!(validate_image_format(b"GIF89a\x00\x00", "GIF"));
    assert!(!validate_image_format(b"GIX89a\x00\x00", "GIF"));
    assert!(validate_image_format(b"BM\x00\x00\x00\x00\x00\x00", "BMP"));
    assert!(validate_image_format(b"RIFF\x00\x00\x00\x00WEBP", "WebP"));
    assert!(!validate_image_format(b"RIFF\x00\x00\x00\x00WEBX", "WebP"));
    assert!(!validate_image_format(b"RIFF\x00\x00\x00\x00", "WebP"));
    assert!(validate_image_format(b"II\x2a\x00\x00\x00\x00\x00", "TIFF"));
    assert!(validate_image_format(b"MM\x00\x2a\x00\x00\x00\x00", "TIFF"));
    assert!(!validate_image_format(b"MM\x2a\x00\x00\x00\x00\x00", "TIFF"));
    assert!(validate_image_format(&[0, 0, 1, 0, 0, 0, 0, 0], "ICO"));
    assert!(validate_image_format(b"\x00\x00\x00\x1cftypavif", "AVIF"));
    assert!(validate_image_format(b"\x00\x00\x00\x1cftypavis", "AVIF"));
    assert!(!validate_image_format(b"\x00\x00\x00\x1cftypheic", "AVIF"));
    assert!(!validate_image_format(b"\x00\x00\x00\x1cftyp", "AVIF"));
    assert!(validate_image_format(b"<?xml version=\"1.0\"?>", "SVG"));
    assert!(validate_image_format(b"anything at all", "RAW"));
}

#[test]
fn the_svg_tag_is_looked_for_in_the_first_thousand_bytes() {
    let mut content = vec![b' '; 996];
    content.extend_from_slice(b"<svg>");
    assert!(validate_image_format(&content, "SVG"));
    let mut content = vec![b' '; 997];
    content.extend_from_slice(b"<svg>");
    assert!(!validate_image_format(&content, "SVG"));
}

//! Telling binary files and images from text, by extension and by content.

use crate::text::{chars_lowercase, lowercase, same, to_chars};
use crate::util::path::{extension, path_extension};
use vstd::prelude::*;

verus! {

/// Whether `ext`, an extension in small letters and without its dot, is one
/// of the known extensions of binary files.
pub open spec fn is_binary_extension_name(ext: Seq<char>) -> bool {
    ||| ext == "zip"@
    ||| ext == "tar"@
    ||| ext == "gz"@
    ||| ext == "exe"@
    ||| ext == "dll"@
    ||| ext == "so"@
    ||| ext == "class"@
    ||| ext == "jar"@
    ||| ext == "war"@
    ||| ext == "7z"@
    ||| ext == "doc"@
    ||| ext == "docx"@
    ||| ext == "xls"@
    ||| ext == "xlsx"@
    ||| ext == "ppt"@
    ||| ext == "pptx"@
    ||| ext == "odt"@
    ||| ext == "ods"@
    ||| ext == "odp"@
    ||| ext == "bin"@
    ||| ext == "dat"@
    ||| ext == "obj"@
    ||| ext == "o"@
    ||| ext == "a"@
    ||| ext == "lib"@
    ||| ext == "wasm"@
    ||| ext == "pyc"@
    ||| ext == "pyo"@
}

/// Whether two texts are the same.
fn text_is(s: &Vec<char>, literal: &str) -> (b: bool)
    ensures
        b == (s@ == literal@),
{
    let l = to_chars(literal);
    same(s, &l)
}

/// Whether the extension `ext`, in any mix of capital and small letters,
/// marks a binary file.
pub fn binary_extension(ext: &str) -> (b: bool)
    ensures
        b == is_binary_extension_name(lowercase(ext@)),
{
    let e = chars_lowercase(&to_chars(ext));
    text_is(&e, "zip") || text_is(&e, "tar") || text_is(&e, "gz") || text_is(&e, "exe") || text_is(
        &e,
        "dll",
    ) || text_is(&e, "so") || text_is(&e, "class") || text_is(&e, "jar") || text_is(&e, "war")
        || text_is(&e, "7z") || text_is(&e, "doc") || text_is(&e, "docx") || text_is(&e, "xls")
        || text_is(&e, "xlsx") || text_is(&e, "ppt") || text_is(&e, "pptx") || text_is(&e, "odt")
        || text_is(&e, "ods") || text_is(&e, "odp") || text_is(&e, "bin") || text_is(&e, "dat")
        || text_is(&e, "obj") || text_is(&e, "o") || text_is(&e, "a") || text_is(&e, "lib")
        || text_is(&e, "wasm") || text_is(&e, "pyc") || text_is(&e, "pyo")
}

/// Whether the path `path` has one of the known extensions of binary files.
pub open spec fn has_binary_extension(path: Seq<char>) -> bool {
    match path_extension(path) {
        Some(ext) => is_binary_extension_name(lowercase(ext)),
        None => false,
    }
}

/// Whether the extension of `path` marks a binary file.
pub fn is_binary_extension(path: &str) -> (b: bool)
    ensures
        b == has_binary_extension(path@),
{
    match extension(path) {
        Some(ext) => binary_extension(ext.as_str()),
        None => false,
    }
}

/// The name of the image format that `ext` stands for, where `ext`, an
/// extension in small letters and without its dot, is that of an image.
pub open spec fn image_format_name(ext: Seq<char>) -> Option<Seq<char>> {
    if ext == "jpg"@ || ext == "jpeg"@ {
        Some("JPEG"@)
    } else if ext == "png"@ {
        Some("PNG"@)
    } else if ext == "gif"@ {
        Some("GIF"@)
    } else if ext == "bmp"@ {
        Some("BMP"@)
    } else if ext == "webp"@ {
        Some("WebP"@)
    } else if ext == "tiff"@ || ext == "tif"@ {
        Some("TIFF"@)
    } else if ext == "svg"@ {
        Some("SVG"@)
    } else if ext == "ico"@ {
        Some("ICO"@)
    } else if ext == "avif"@ {
        Some("AVIF"@)
    } else {
        None
    }
}

/// Whether `r` is the name `name`, or nothing where there is none.
pub open spec fn names(r: Option<&'static str>, name: Option<Seq<char>>) -> bool {
    match name {
        Some(n) => r matches Some(s) && s@ == n,
        None => r is None,
    }
}

/// The image format that the extension `ext` stands for, in any mix of
/// capital and small letters.
pub fn image_format(ext: &str) -> (r: Option<&'static str>)
    ensures
        names(r, image_format_name(lowercase(ext@))),
{
    let e = chars_lowercase(&to_chars(ext));
    if text_is(&e, "jpg") || text_is(&e, "jpeg") {
        Some("JPEG")
    } else if text_is(&e, "png") {
        Some("PNG")
    } else if text_is(&e, "gif") {
        Some("GIF")
    } else if text_is(&e, "bmp") {
        Some("BMP")
    } else if text_is(&e, "webp") {
        Some("WebP")
    } else if text_is(&e, "tiff") || text_is(&e, "tif") {
        Some("TIFF")
    } else if text_is(&e, "svg") {
        Some("SVG")
    } else if text_is(&e, "ico") {
        Some("ICO")
    } else if text_is(&e, "avif") {
        Some("AVIF")
    } else {
        None
    }
}

/// The image format that the extension of the path `path` stands for.
pub open spec fn image_format_of_path(path: Seq<char>) -> Option<Seq<char>> {
    match path_extension(path) {
        Some(ext) => image_format_name(lowercase(ext)),
        None => None,
    }
}

/// The name of the image format of `path`, judged by its extension.
pub fn is_image_extension(path: &str) -> (r: Option<&'static str>)
    ensures
        names(r, image_format_of_path(path@)),
{
    match extension(path) {
        Some(ext) => image_format(ext.as_str()),
        None => None,
    }
}

/// Whether `b` is a control byte other than tab, line feed, vertical tab,
/// form feed and carriage return.
pub open spec fn is_non_printable(b: u8) -> bool {
    b < 9 || (13 < b && b < 32)
}

/// The number of non-printable bytes in `s`.
pub open spec fn non_printable_count(s: Seq<u8>) -> nat
    decreases s.len(),
{
    if s.len() == 0 {
        0
    } else {
        non_printable_count(s.drop_last()) + if is_non_printable(s.last()) {
            1nat
        } else {
            0nat
        }
    }
}

/// The part of a file's content that is looked at: its first 4096 bytes.
pub open spec fn inspected(content: Seq<u8>) -> Seq<u8> {
    if content.len() <= 4096 {
        content
    } else {
        content.take(4096)
    }
}

/// Whether the content looks binary: it is not empty, and its inspected part
/// holds a zero byte, or more than three tenths of it are non-printable.
pub open spec fn looks_binary(content: Seq<u8>) -> bool {
    let head = inspected(content);
    content.len() > 0 && (head.contains(0u8) || non_printable_count(head) * 10 > head.len() * 3)
}

/// Whether a file is binary: by its extension, or else by its content.
pub open spec fn is_binary(path: Seq<char>, content: Seq<u8>) -> bool {
    has_binary_extension(path) || looks_binary(content)
}

/// Whether the content alone looks binary.
pub fn content_looks_binary(content: &[u8]) -> (b: bool)
    ensures
        b == looks_binary(content@),
{
    if content.len() == 0 {
        return false;
    }
    let size: usize = if content.len() < 4096 {
        content.len()
    } else {
        4096
    };
    let ghost head = inspected(content@);
    assert(head =~= content@.take(size as int));
    let mut count: usize = 0;
    let mut i: usize = 0;
    while i < size
        invariant
            i <= size <= content.len(),
            size <= 4096,
            head == content@.take(size as int),
            count == non_printable_count(head.take(i as int)),
            count <= i,
            forall|k: int| 0 <= k < i ==> head[k] != 0u8,
        decreases size - i,
    {
        let b: u8 = content[i];
        assert(head.take(i + 1).drop_last() =~= head.take(i as int));
        assert(head.take(i + 1).last() == b);
        if b == 0 {
            assert(head[i as int] == 0u8);
            return true;
        }
        if b < 9 || (b > 13 && b < 32) {
            count += 1;
        }
        i += 1;
    }
    assert(head.take(size as int) =~= head);
    count * 10 > size * 3
}

/// Whether a file is binary, judged by the extension of `path` and by its
/// `content`.
pub fn is_binary_file(path: &str, content: &[u8]) -> (b: bool)
    ensures
        b == is_binary(path@, content@),
{
    if is_binary_extension(path) {
        return true;
    }
    content_looks_binary(content)
}

/// The eight bytes that a PNG file begins with.
pub open spec fn png_signature() -> Seq<u8> {
    seq![0x89u8, 0x50u8, 0x4Eu8, 0x47u8, 0x0Du8, 0x0Au8, 0x1Au8, 0x0Au8]
}

/// The three bytes that a JPEG file begins with.
pub open spec fn jpeg_signature() -> Seq<u8> {
    seq![0xFFu8, 0xD8u8, 0xFFu8]
}

/// The bytes `GIF8`.
pub open spec fn gif_signature() -> Seq<u8> {
    seq![0x47u8, 0x49u8, 0x46u8, 0x38u8]
}

/// The bytes `BM`.
pub open spec fn bmp_signature() -> Seq<u8> {
    seq![0x42u8, 0x4Du8]
}

/// The bytes `RIFF`.
pub open spec fn riff_signature() -> Seq<u8> {
    seq![0x52u8, 0x49u8, 0x46u8, 0x46u8]
}

/// The bytes `WEBP`.
pub open spec fn webp_signature() -> Seq<u8> {
    seq![0x57u8, 0x45u8, 0x42u8, 0x50u8]
}

/// The four bytes that a little-endian TIFF file begins with.
pub open spec fn tiff_le_signature() -> Seq<u8> {
    seq![0x49u8, 0x49u8, 0x2Au8, 0x00u8]
}

/// The four bytes that a big-endian TIFF file begins with.
pub open spec fn tiff_be_signature() -> Seq<u8> {
    seq![0x4Du8, 0x4Du8, 0x00u8, 0x2Au8]
}

/// The four bytes that an ICO file begins with.
pub open spec fn ico_signature() -> Seq<u8> {
    seq![0x00u8, 0x00u8, 0x01u8, 0x00u8]
}

/// The bytes `<svg`.
pub open spec fn svg_tag() -> Seq<u8> {
    seq![0x3Cu8, 0x73u8, 0x76u8, 0x67u8]
}

/// The bytes `<?xml`.
pub open spec fn xml_tag() -> Seq<u8> {
    seq![0x3Cu8, 0x3Fu8, 0x78u8, 0x6Du8, 0x6Cu8]
}

/// The bytes `ftyp`.
pub open spec fn ftyp_tag() -> Seq<u8> {
    seq![0x66u8, 0x74u8, 0x79u8, 0x70u8]
}

/// The bytes `avif`.
pub open spec fn avif_brand() -> Seq<u8> {
    seq![0x61u8, 0x76u8, 0x69u8, 0x66u8]
}

/// The bytes `avis`.
pub open spec fn avis_brand() -> Seq<u8> {
    seq![0x61u8, 0x76u8, 0x69u8, 0x73u8]
}

/// Whether the bytes `pattern` stand in `bytes` at position `i`.
pub open spec fn bytes_at(bytes: Seq<u8>, pattern: Seq<u8>, i: int) -> bool {
    0 <= i && i + pattern.len() <= bytes.len() && bytes.subrange(i, i + pattern.len()) == pattern
}

/// Whether the bytes `pattern` stand somewhere in `bytes`.
pub open spec fn bytes_within(bytes: Seq<u8>, pattern: Seq<u8>) -> bool {
    exists|i: int| bytes_at(bytes, pattern, i)
}

/// The part of an SVG file in which its opening tag is looked for: its
/// first 1000 bytes.
pub open spec fn svg_head(bytes: Seq<u8>) -> Seq<u8> {
    if bytes.len() <= 1000 {
        bytes
    } else {
        bytes.take(1000)
    }
}

/// Whether `bytes` can be an image of the format named `format`: they begin
/// with the signature of that format. Fewer than eight bytes are an image of
/// no format but SVG; a format without a known signature is never refused.
pub open spec fn valid_image(bytes: Seq<u8>, format: Seq<char>) -> bool {
    if bytes.len() < 8 && format != "SVG"@ {
        false
    } else if format == "PNG"@ {
        bytes_at(bytes, png_signature(), 0)
    } else if format == "JPEG"@ {
        bytes_at(bytes, jpeg_signature(), 0)
    } else if format == "GIF"@ {
        bytes_at(bytes, gif_signature(), 0)
    } else if format == "BMP"@ {
        bytes_at(bytes, bmp_signature(), 0)
    } else if format == "WebP"@ {
        bytes_at(bytes, riff_signature(), 0) && bytes_at(bytes, webp_signature(), 8)
    } else if format == "TIFF"@ {
        bytes_at(bytes, tiff_le_signature(), 0) || bytes_at(bytes, tiff_be_signature(), 0)
    } else if format == "ICO"@ {
        bytes_at(bytes, ico_signature(), 0)
    } else if format == "SVG"@ {
        bytes_within(svg_head(bytes), svg_tag()) || bytes_within(svg_head(bytes), xml_tag())
    } else if format == "AVIF"@ {
        bytes_at(bytes, ftyp_tag(), 4) && (bytes_at(bytes, avif_brand(), 8) || bytes_at(
            bytes,
            avis_brand(),
            8,
        ))
    } else {
        true
    }
}

/// Whether `pattern` stands at position `at` among the first `limit` bytes.
fn holds_at(bytes: &[u8], limit: usize, pattern: &Vec<u8>, at: usize) -> (b: bool)
    requires
        limit <= bytes.len(),
    ensures
        b == bytes_at(bytes@.take(limit as int), pattern@, at as int),
{
    if pattern.len() > limit || at > limit - pattern.len() {
        return false;
    }
    let ghost head = bytes@.take(limit as int);
    let mut j: usize = 0;
    while j < pattern.len()
        invariant
            j <= pattern.len(),
            at + pattern.len() <= limit <= bytes.len(),
            head == bytes@.take(limit as int),
            forall|k: int| 0 <= k < j ==> head[at + k] == pattern@[k],
        decreases pattern.len() - j,
    {
        if bytes[at + j] != pattern[j] {
            assert(head.subrange(at as int, at + pattern.len())[j as int] == head[at + j]);
            return false;
        }
        j += 1;
    }
    assert(head.subrange(at as int, at + pattern.len()) =~= pattern@);
    true
}

/// Whether `pattern` stands somewhere among the first `limit` bytes.
fn holds_within(bytes: &[u8], limit: usize, pattern: &Vec<u8>) -> (b: bool)
    requires
        limit <= bytes.len(),
    ensures
        b == bytes_within(bytes@.take(limit as int), pattern@),
{
    if pattern.len() > limit {
        return false;
    }
    let last: usize = limit - pattern.len();
    let mut i: usize = 0;
    while i <= last
        invariant
            last == limit - pattern.len(),
            limit <= bytes.len(),
            forall|k: int| 0 <= k < i ==> !bytes_at(bytes@.take(limit as int), pattern@, k),
        decreases last + 1 - i,
    {
        if holds_at(bytes, limit, pattern, i) {
            return true;
        }
        if i == last {
            return false;
        }
        i += 1;
    }
    false
}

/// Whether the content `bytes` fits the image format named
/// `expected_format`.
pub fn validate_image_format(bytes: &[u8], expected_format: &str) -> (b: bool)
    ensures
        b == valid_image(bytes@, expected_format@),
{
    let format = to_chars(expected_format);
    let len: usize = bytes.len();
    assert(bytes@.take(len as int) =~= bytes@);
    let svg = text_is(&format, "SVG");
    if len < 8 && !svg {
        false
    } else if text_is(&format, "PNG") {
        holds_at(bytes, len, &vec![0x89u8, 0x50u8, 0x4Eu8, 0x47u8, 0x0Du8, 0x0Au8, 0x1Au8, 0x0Au8], 0)
    } else if text_is(&format, "JPEG") {
        holds_at(bytes, len, &vec![0xFFu8, 0xD8u8, 0xFFu8], 0)
    } else if text_is(&format, "GIF") {
        holds_at(bytes, len, &vec![0x47u8, 0x49u8, 0x46u8, 0x38u8], 0)
    } else if text_is(&format, "BMP") {
        holds_at(bytes, len, &vec![0x42u8, 0x4Du8], 0)
    } else if text_is(&format, "WebP") {
        holds_at(bytes, len, &vec![0x52u8, 0x49u8, 0x46u8, 0x46u8], 0) && holds_at(
            bytes,
            len,
            &vec![0x57u8, 0x45u8, 0x42u8, 0x50u8],
            8,
        )
    } else if text_is(&format, "TIFF") {
        holds_at(bytes, len, &vec![0x49u8, 0x49u8, 0x2Au8, 0x00u8], 0) || holds_at(
            bytes,
            len,
            &vec![0x4Du8, 0x4Du8, 0x00u8, 0x2Au8],
            0,
        )
    } else if text_is(&format, "ICO") {
        holds_at(bytes, len, &vec![0x00u8, 0x00u8, 0x01u8, 0x00u8], 0)
    } else if svg {
        let limit: usize = if len <= 1000 {
            len
        } else {
            1000
        };
        assert(svg_head(bytes@) =~= bytes@.take(limit as int));
        holds_within(bytes, limit, &vec![0x3Cu8, 0x73u8, 0x76u8, 0x67u8]) || holds_within(
            bytes,
            limit,
            &vec![0x3Cu8, 0x3Fu8, 0x78u8, 0x6Du8, 0x6Cu8],
        )
    } else if text_is(&format, "AVIF") {
        holds_at(bytes, len, &vec![0x66u8, 0x74u8, 0x79u8, 0x70u8], 4) && (holds_at(
            bytes,
            len,
            &vec![0x61u8, 0x76u8, 0x69u8, 0x66u8],
            8,
        ) || holds_at(bytes, len, &vec![0x61u8, 0x76u8, 0x69u8, 0x73u8], 8))
    } else {
        true
    }
}

/// A buffer whose first eight bytes are the PNG signature is a valid PNG
/// image, and an extension that spells `png` in any mix of capital and
/// small letters names that format.
pub proof fn lemma_png_is_recognized(bytes: Seq<u8>, ext: Seq<char>)
    requires
        bytes.len() >= 8,
        bytes.take(8) == png_signature(),
        lowercase(ext) == "png"@,
    ensures
        valid_image(bytes, "PNG"@),
        image_format_name(lowercase(ext)) == Some("PNG"@),
{
    reveal_strlit("PNG");
    reveal_strlit("SVG");
    reveal_strlit("png");
    reveal_strlit("jpg");
    reveal_strlit("jpeg");
    assert("png"@[0] != "jpg"@[0]);
    assert("png"@.len() != "jpeg"@.len());
    assert(bytes.subrange(0, 8) =~= bytes.take(8));
}

/// A file whose extension spells `bin` is binary whatever it holds.
pub proof fn lemma_bin_is_binary(path: Seq<char>, content: Seq<u8>)
    requires
        path_extension(path) matches Some(ext) && lowercase(ext) == "bin"@,
    ensures
        is_binary(path, content),
{
}

/// A file that holds a zero byte among its first 4096 bytes is binary
/// whatever its name is.
pub proof fn lemma_zero_byte_is_binary(path: Seq<char>, content: Seq<u8>, i: int)
    requires
        0 <= i < content.len(),
        i < 4096,
        content[i] == 0u8,
    ensures
        is_binary(path, content),
{
    assert(inspected(content)[i] == 0u8);
}

/// An empty file is binary by its extension alone.
pub proof fn lemma_empty_is_text(path: Seq<char>, content: Seq<u8>)
    requires
        content.len() == 0,
    ensures
        is_binary(path, content) == has_binary_extension(path),
{
}

} // verus!

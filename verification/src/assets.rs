//! Dropped paths: whether they are images, and the thumbnail that an image gets.
use vstd::prelude::*;
use crate::path::{
    extension_of, extension_text, stem_of, stem_text, is_separator, is_drive_letter, path_prefix,
    lemma_directory_keeps_file_name, lemma_name_upper,
};
use crate::text::{
    chars_of, chars_equal, push_char, is_ascii_text, ascii_lower, ascii_upper,
    lemma_ascii_case_chars,
};

verus! {

/// What std's `str::to_lowercase` returns for a text (full Unicode lower-casing).
pub uninterp spec fn lowercase(s: Seq<char>) -> Seq<char>;

/// Calls std's `str::to_lowercase`; its result is named `lowercase` of the input's
/// characters. Of the result it claims only that an all-ASCII text comes back with
/// its capital letters made small and its other characters as they are.
#[verifier::external_body]
fn to_lowercase(s: &str) -> (r: String)
    ensures
        r@ == lowercase(s@),
        is_ascii_text(s@) ==> r@ == ascii_lower(s@),
{
    s.to_lowercase()
}

/// Lower-case extensions of the files shown as images.
pub open spec fn is_image_extension(e: Seq<char>) -> bool {
    ||| e == "png"@
    ||| e == "jpg"@
    ||| e == "jpeg"@
    ||| e == "webp"@
    ||| e == "gif"@
    ||| e == "bmp"@
    ||| e == "svg"@
    ||| e == "ico"@
    ||| e == "avif"@
}

/// Lower-case extensions of the images that get a thumbnail.
pub open spec fn is_thumbnail_extension(e: Seq<char>) -> bool {
    ||| e == "png"@
    ||| e == "jpg"@
    ||| e == "jpeg"@
    ||| e == "webp"@
    ||| e == "gif"@
}

/// The kind of item a lower-cased extension stands for: `image` or `file`.
pub open spec fn kind_of_extension(e: Seq<char>) -> Seq<char> {
    if is_image_extension(e) {
        "image"@
    } else {
        "file"@
    }
}

/// The kind of item a path stands for, from its lower-cased extension.
pub open spec fn kind_of_path(p: Seq<char>) -> Seq<char> {
    kind_of_extension(lowercase(extension_text(p)))
}

fn is_image_ext(e: &Vec<char>) -> (r: bool)
    ensures
        r == is_image_extension(e@),
{
    chars_equal(e, "png") || chars_equal(e, "jpg") || chars_equal(e, "jpeg") || chars_equal(
        e,
        "webp",
    ) || chars_equal(e, "gif") || chars_equal(e, "bmp") || chars_equal(e, "svg") || chars_equal(
        e,
        "ico",
    ) || chars_equal(e, "avif")
}

fn is_thumbnail_ext(e: &Vec<char>) -> (r: bool)
    ensures
        r == is_thumbnail_extension(e@),
{
    chars_equal(e, "png") || chars_equal(e, "jpg") || chars_equal(e, "jpeg") || chars_equal(
        e,
        "webp",
    ) || chars_equal(e, "gif")
}

/// The kind of item that an already lower-cased extension stands for.
pub fn classify_extension(lower_ext: &str) -> (r: &'static str)
    ensures
        r@ == kind_of_extension(lower_ext@),
{
    let e = chars_of(lower_ext);
    if is_image_ext(&e) {
        "image"
    } else {
        "file"
    }
}

/// Whether a dropped path is an image or another file: `image` when its file's
/// extension, lower-cased, is png, jpg, jpeg, webp, gif, bmp, svg, ico or avif,
/// else `file`.
pub fn classify_path(path: &str) -> (r: &'static str)
    ensures
        r@ == kind_of_path(path@),
        is_ascii_text(extension_text(path@)) ==> lowercase(extension_text(path@)) == ascii_lower(
            extension_text(path@),
        ),
        is_ascii_text(extension_text(path@)) ==> r@ == kind_of_extension(
            ascii_lower(extension_text(path@)),
        ),
{
    let ext = extension_of(path);
    let lower = to_lowercase(ext.as_str());
    classify_extension(lower.as_str())
}

/// Whether an image with this (lower-cased) extension gets a thumbnail; when it
/// does not, the error message names the extension.
pub fn check_thumbnail_extension(lower_ext: &str) -> (r: Result<(), String>)
    ensures
        r is Ok <==> is_thumbnail_extension(lower_ext@),
        r matches Err(m) ==> m@ == "not a supported image type: "@ + lower_ext@,
{
    let e = chars_of(lower_ext);
    if is_thumbnail_ext(&e) {
        Ok(())
    } else {
        let mut m = "not a supported image type: ".to_owned();
        m.append(lower_ext);
        Err(m)
    }
}

/// Whether the file at `path` is one a thumbnail is made of: its lower-cased
/// extension is png, jpg, jpeg, webp or gif. Otherwise the error names that
/// extension.
pub fn check_thumbnail_source(path: &str) -> (r: Result<(), String>)
    ensures
        r is Ok <==> is_thumbnail_extension(lowercase(extension_text(path@))),
        r matches Err(m) ==> m@ == "not a supported image type: "@ + lowercase(
            extension_text(path@),
        ),
        is_ascii_text(extension_text(path@)) ==> lowercase(extension_text(path@)) == ascii_lower(
            extension_text(path@),
        ),
{
    let ext = extension_of(path);
    let lower = to_lowercase(ext.as_str());
    check_thumbnail_extension(lower.as_str())
}

/// The decimal digit for `d` (0 to 9).
pub open spec fn digit_char(d: int) -> char {
    if d == 0 {
        '0'
    } else if d == 1 {
        '1'
    } else if d == 2 {
        '2'
    } else if d == 3 {
        '3'
    } else if d == 4 {
        '4'
    } else if d == 5 {
        '5'
    } else if d == 6 {
        '6'
    } else if d == 7 {
        '7'
    } else if d == 8 {
        '8'
    } else {
        '9'
    }
}

/// The decimal digits of `n`, without leading zeros.
pub open spec fn decimal(n: nat) -> Seq<char>
    decreases n,
{
    if n < 10 {
        seq![digit_char(n as int)]
    } else {
        decimal(n / 10).push(digit_char((n % 10) as int))
    }
}

fn digit(d: u128) -> (r: char)
    requires
        d < 10,
    ensures
        r == digit_char(d as int),
{
    if d == 0 {
        '0'
    } else if d == 1 {
        '1'
    } else if d == 2 {
        '2'
    } else if d == 3 {
        '3'
    } else if d == 4 {
        '4'
    } else if d == 5 {
        '5'
    } else if d == 6 {
        '6'
    } else if d == 7 {
        '7'
    } else if d == 8 {
        '8'
    } else {
        '9'
    }
}

/// Appends the decimal digits of `n` to `s`.
pub fn push_decimal(s: &mut String, n: u128)
    ensures
        final(s)@ == old(s)@ + decimal(n as nat),
    decreases n,
{
    if n >= 10 {
        push_decimal(s, n / 10);
    }
    push_char(s, digit(n % 10));
}

/// The file name of the thumbnail made of `path` at `millis` milliseconds since
/// the Unix epoch: `qd_`, the path's stem (`img` when it has no file name), `_`,
/// the milliseconds in decimal, and `.png`.
pub open spec fn thumbnail_name(path: Seq<char>, millis: nat) -> Seq<char> {
    "qd_"@ + stem_text(path) + "_"@ + decimal(millis) + ".png"@
}

pub fn thumbnail_file_name(path: &str, millis: u128) -> (r: String)
    ensures
        r@ == thumbnail_name(path@, millis as nat),
{
    let stem = stem_of(path);
    let mut r = "qd_".to_owned();
    r.append(stem.as_str());
    r.append("_");
    push_decimal(&mut r, millis);
    r.append(".png");
    r
}

/// The largest side of a thumbnail, in pixels.
pub const THUMBNAIL_SIDE: u32 = 200;

/// The image formats that thumbnails are made from.
#[derive(Clone, Copy, Debug, PartialEq, Eq, Structural)]
pub enum SourceFormat {
    Png,
    Jpeg,
    WebP,
    Gif,
}

/// The format an image file is decoded as, from its lower-cased extension (one of
/// png, jpg, jpeg, webp and gif).
pub open spec fn source_format(lower_ext: Seq<char>) -> SourceFormat {
    if lower_ext == "png"@ {
        SourceFormat::Png
    } else if lower_ext == "jpg"@ || lower_ext == "jpeg"@ {
        SourceFormat::Jpeg
    } else if lower_ext == "webp"@ {
        SourceFormat::WebP
    } else {
        SourceFormat::Gif
    }
}

fn format_of(lower_ext: &Vec<char>) -> (r: SourceFormat)
    ensures
        r == source_format(lower_ext@),
{
    if chars_equal(lower_ext, "png") {
        SourceFormat::Png
    } else if chars_equal(lower_ext, "jpg") || chars_equal(lower_ext, "jpeg") {
        SourceFormat::Jpeg
    } else if chars_equal(lower_ext, "webp") {
        SourceFormat::WebP
    } else {
        SourceFormat::Gif
    }
}

/// What the `image` crate gives for an image file's bytes in a format, shrunk (or
/// grown) to fit a square of `max_side` pixels with its aspect ratio kept, and
/// encoded as PNG: the PNG bytes, or the text of the error that decoding or
/// encoding met.
pub uninterp spec fn png_thumbnail(format: SourceFormat, image: Seq<u8>, max_side: u32) -> Result<
    Seq<u8>,
    Seq<char>,
>;

/// Calls the `image` crate: `load_from_memory_with_format` (with default limits, as
/// `image::open` decodes), `DynamicImage::thumbnail(max_side, max_side)`, then
/// `DynamicImage::write_to` as PNG. The result is named `png_thumbnail` of the
/// arguments; nothing more is claimed of it.
#[verifier::external_body]
fn make_png_thumbnail(format: SourceFormat, image: &[u8], max_side: u32) -> (r: Result<
    Vec<u8>,
    String,
>)
    ensures
        match r {
            Ok(b) => png_thumbnail(format, image@, max_side) == Ok::<Seq<u8>, Seq<char>>(b@),
            Err(e) => png_thumbnail(format, image@, max_side) == Err::<Seq<u8>, Seq<char>>(e@),
        },
{
    let format = match format {
        SourceFormat::Png => image::ImageFormat::Png,
        SourceFormat::Jpeg => image::ImageFormat::Jpeg,
        SourceFormat::WebP => image::ImageFormat::WebP,
        SourceFormat::Gif => image::ImageFormat::Gif,
    };
    let img = image::load_from_memory_with_format(image, format).map_err(|e| e.to_string())?;
    let thumb = img.thumbnail(max_side, max_side);
    let mut out = std::io::Cursor::new(Vec::new());
    thumb.write_to(&mut out, image::ImageFormat::Png).map_err(|e| e.to_string())?;
    Ok(out.into_inner())
}

/// The thumbnail of the image file at `path`, whose bytes are `image`, made at
/// `millis` milliseconds since the Unix epoch: its file name and its PNG bytes.
/// A file whose lower-cased extension is not png, jpg, jpeg, webp or gif gets the
/// error naming that extension (and its bytes are not looked at); an image that
/// cannot be decoded or encoded gets the error the `image` crate gives.
pub fn generate_thumbnail(path: &str, image: &[u8], millis: u128) -> (r: Result<
    (String, Vec<u8>),
    String,
>)
    ensures
        !is_thumbnail_extension(lowercase(extension_text(path@))) ==> (r matches Err(m) && m@
            == "not a supported image type: "@ + lowercase(extension_text(path@))),
        is_thumbnail_extension(lowercase(extension_text(path@))) ==> match png_thumbnail(
            source_format(lowercase(extension_text(path@))),
            image@,
            THUMBNAIL_SIDE,
        ) {
            Ok(b) => r matches Ok((n, t)) && n@ == thumbnail_name(path@, millis as nat) && t@ == b,
            Err(e) => r matches Err(m) && m@ == e,
        },
        is_ascii_text(extension_text(path@)) ==> lowercase(extension_text(path@)) == ascii_lower(
            extension_text(path@),
        ),
{
    let ext = extension_of(path);
    let lower = to_lowercase(ext.as_str());
    check_thumbnail_extension(lower.as_str())?;
    let format = format_of(&chars_of(lower.as_str()));
    let bytes = make_png_thumbnail(format, image, THUMBNAIL_SIDE)?;
    Ok((thumbnail_file_name(path, millis), bytes))
}

/// Every extension that gets a thumbnail is one of an image: a file that
/// `check_thumbnail_source` accepts is classified as `image`.
pub proof fn lemma_thumbnail_sources_are_images(path: Seq<char>)
    requires
        is_thumbnail_extension(lowercase(extension_text(path))),
    ensures
        kind_of_path(path) == "image"@,
{
}

/// The directory part does not change whether a path is an image: a file name
/// keeps its kind under a directory (on the terms of `lemma_directory_keeps_file_name`).
pub proof fn lemma_directory_keeps_kind(d: Seq<char>, sep: char, f: Seq<char>)
    requires
        is_separator(sep),
        f.len() > 0,
        forall|i: int| 0 <= i < f.len() ==> !is_separator(#[trigger] f[i]),
        f != seq!['.'],
        f != seq!['.', '.'],
        !(f.len() >= 2 && is_drive_letter(f[0]) && f[1] == ':'),
        path_prefix(d + seq![sep] + f).0 <= d.len(),
        path_prefix(d + seq![sep] + f).1 ==> sep == '\\',
    ensures
        kind_of_path(d + seq![sep] + f) == kind_of_path(f),
{
    lemma_directory_keeps_file_name(d, sep, f);
}

/// ASCII letter case does not change whether a name is an image: for an ASCII name
/// (non-empty, without separators, neither `.` nor `..`, not starting with a disk
/// such as `C:`), its extension is ASCII both before and after its small letters are
/// made capital, and lower-cased the two give the same kind. With the contract of
/// `classify_path`, `classify_path` gives the same for both.
pub proof fn lemma_ascii_case_keeps_kind(f: Seq<char>)
    requires
        f.len() > 0,
        forall|i: int| 0 <= i < f.len() ==> !is_separator(#[trigger] f[i]),
        f != seq!['.'],
        f != seq!['.', '.'],
        !(f.len() >= 2 && is_drive_letter(f[0]) && f[1] == ':'),
        is_ascii_text(f),
    ensures
        is_ascii_text(extension_text(f)),
        is_ascii_text(extension_text(ascii_upper(f))),
        kind_of_extension(ascii_lower(extension_text(ascii_upper(f)))) == kind_of_extension(
            ascii_lower(extension_text(f)),
        ),
{
    lemma_name_upper(f);
    let e = extension_text(f);
    assert(ascii_lower(ascii_upper(e)) =~= ascii_lower(e)) by {
        assert forall|i: int| 0 <= i < e.len() implies ascii_lower(ascii_upper(e))[i]
            == ascii_lower(e)[i] by {
            lemma_ascii_case_chars(e[i]);
        }
    }
}

/// A path is an image exactly when its lower-cased extension is png, jpg, jpeg,
/// webp, gif, bmp, svg, ico or avif; every other path is a file.
pub proof fn lemma_image_kinds(p: Seq<char>)
    ensures
        kind_of_path(p) == "image"@ || kind_of_path(p) == "file"@,
        kind_of_path(p) == "image"@ <==> {
            let e = lowercase(extension_text(p));
            ||| e == "png"@
            ||| e == "jpg"@
            ||| e == "jpeg"@
            ||| e == "webp"@
            ||| e == "gif"@
            ||| e == "bmp"@
            ||| e == "svg"@
            ||| e == "ico"@
            ||| e == "avif"@
        },
{
    reveal_strlit("image");
    reveal_strlit("file");
    assert("image"@.len() != "file"@.len());
}

/// Thumbnails are made exactly of png, jpg, jpeg, webp and gif files, and each is
/// decoded in its own format: jpg and jpeg as JPEG.
pub proof fn lemma_thumbnail_formats(e: Seq<char>)
    ensures
        is_thumbnail_extension(e) <==> (e == "png"@ || e == "jpg"@ || e == "jpeg"@ || e == "webp"@
            || e == "gif"@),
        is_thumbnail_extension(e) ==> (source_format(e) == SourceFormat::Png <==> e == "png"@),
        is_thumbnail_extension(e) ==> (source_format(e) == SourceFormat::Jpeg <==> (e == "jpg"@
            || e == "jpeg"@)),
        is_thumbnail_extension(e) ==> (source_format(e) == SourceFormat::WebP <==> e == "webp"@),
        is_thumbnail_extension(e) ==> (source_format(e) == SourceFormat::Gif <==> e == "gif"@),
{
    reveal_strlit("png");
    reveal_strlit("jpg");
    reveal_strlit("jpeg");
    reveal_strlit("webp");
    reveal_strlit("gif");
    assert("png"@ != "jpg"@) by { assert("png"@[0] != "jpg"@[0]); }
    assert("png"@ != "gif"@) by { assert("png"@[0] != "gif"@[0]); }
    assert("jpg"@ != "gif"@) by { assert("jpg"@[0] != "gif"@[0]); }
    assert("png"@ != "jpeg"@) by { assert("png"@.len() != "jpeg"@.len()); }
    assert("png"@ != "webp"@) by { assert("png"@.len() != "webp"@.len()); }
    assert("jpg"@ != "webp"@) by { assert("jpg"@.len() != "webp"@.len()); }
    assert("jpeg"@ != "webp"@) by { assert("jpeg"@[0] != "webp"@[0]); }
    assert("jpeg"@ != "gif"@) by { assert("jpeg"@.len() != "gif"@.len()); }
    assert("webp"@ != "gif"@) by { assert("webp"@.len() != "gif"@.len()); }
}

/// The number a text of decimal digits stands for.
pub open spec fn digits_value(s: Seq<char>) -> int
    decreases s.len(),
{
    if s.len() == 0 {
        0
    } else {
        digits_value(s.drop_last()) * 10 + (s.last() as int - '0' as int)
    }
}

/// `decimal(n)` is the usual decimal writing of `n`: digits only, no leading zero
/// (but for 0 itself), standing for `n`.
pub proof fn lemma_decimal_writes_the_number(n: nat)
    ensures
        digits_value(decimal(n)) == n,
        decimal(n).len() >= 1,
        forall|i: int| 0 <= i < decimal(n).len() ==> '0' <= #[trigger] decimal(n)[i] <= '9',
        decimal(n).len() > 1 ==> decimal(n)[0] != '0',
    decreases n,
{
    let d = decimal(n);
    if n >= 10 {
        lemma_decimal_writes_the_number(n / 10);
        lemma_digit_char((n % 10) as int);
        assert(d.drop_last() =~= decimal(n / 10));
        assert(d.last() == digit_char((n % 10) as int));
        assert(forall|i: int| 0 <= i < d.len() - 1 ==> d[i] == decimal(n / 10)[i]);
        assert(d[0] == decimal(n / 10)[0]);
        assert(digits_value(d) == digits_value(decimal(n / 10)) * 10 + (n % 10) as int);
        assert((n / 10) * 10 + n % 10 == n) by (nonlinear_arith);
        if decimal(n / 10).len() == 1 {
            assert(n / 10 >= 1);
            let m: nat = n / 10;
            assert(m < 10) by {
                if m >= 10 {
                    assert(decimal(m) == decimal(m / 10).push(digit_char((m % 10) as int)));
                    lemma_decimal_writes_the_number(m / 10);
                }
            }
            lemma_digit_char(m as int);
        }
    } else {
        lemma_digit_char(n as int);
        assert(d.drop_last() =~= Seq::<char>::empty());
        assert(d.last() == digit_char(n as int));
        assert(digits_value(Seq::<char>::empty()) == 0);
        assert(digits_value(d) == digits_value(d.drop_last()) * 10 + (d.last() as int - '0' as int));
    }
}

proof fn lemma_digit_char(d: int)
    requires
        0 <= d <= 9,
    ensures
        digit_char(d) as int - '0' as int == d,
        '0' <= digit_char(d) <= '9',
{
}

} // verus!

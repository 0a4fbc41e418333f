use snapshelf::assets::{
    check_thumbnail_extension, check_thumbnail_source, classify_extension, generate_thumbnail,
    thumbnail_file_name,
};
use snapshelf::path::{extension_of, stem_of};
use snapshelf::classify_path;
use snapshelf::mode_to_u8;
use snapshelf::settings::{open_mode_of, parse_open_mode, OpenMode};

#[test]
fn mode_names_map_to_numbers() {
    assert_eq!(mode_to_u8("hover"), 0);
    assert_eq!(mode_to_u8("tab"), 1);
    assert_eq!(mode_to_u8("tray"), 2);
    assert_eq!(mode_to_u8(""), 0);
    assert_eq!(mode_to_u8("TAB"), 0);
    assert_eq!(mode_to_u8(" tab"), 0);
}

#[test]
fn open_mode_follows_the_number() {
    assert_eq!(open_mode_of("tab"), OpenMode::Tab);
    assert_eq!(open_mode_of("tray"), OpenMode::Tray);
    assert_eq!(open_mode_of("hover"), OpenMode::Hover);
    assert_eq!(open_mode_of("sideways"), OpenMode::Hover);
    for name in ["hover", "tab", "tray", "x"] {
        assert_eq!(open_mode_of(name).code(), mode_to_u8(name));
    }
    assert_eq!(OpenMode::from_code(7), OpenMode::Hover);
}

#[test]
fn saved_mode_reads_back() {
    for m in ["hover", "tab", "tray"] {
        assert_eq!(parse_open_mode(Some(m)), m);
    }
}

#[test]
fn mode_file_is_trimmed_and_checked() {
    assert_eq!(parse_open_mode(Some("  tab\r\n")), "tab");
    assert_eq!(parse_open_mode(Some("\u{3000}tray\u{2028}")), "tray");
    assert_eq!(parse_open_mode(Some("tabs")), "hover");
    assert_eq!(parse_open_mode(Some("t ab")), "hover");
    assert_eq!(parse_open_mode(Some("")), "hover");
    assert_eq!(parse_open_mode(None), "hover");
}

#[test]
fn paths_are_classified_by_extension() {
    assert_eq!(classify_path("C:\\pics\\cat.png"), "image");
    assert_eq!(classify_path("C:\\pics\\cat.PNG"), "image");
    assert_eq!(classify_path("/home/u/icon.Ico"), "image");
    assert_eq!(classify_path("photo.avif"), "image");
    assert_eq!(classify_path("drawing.svg"), "image");
    assert_eq!(classify_path("notes.txt"), "file");
    assert_eq!(classify_path("archive.tar.gz"), "file");
    assert_eq!(classify_path(".png"), "file");
    assert_eq!(classify_path("photo."), "file");
    assert_eq!(classify_path("dir/.."), "file");
    assert_eq!(classify_path(""), "file");
    assert_eq!(classify_path("a\\b.svg\\"), "image");
    assert_eq!(classify_path("a/b.gif/."), "image");
    assert_eq!(classify_path("C:shot.Jpeg"), "image");
}

#[test]
fn windows_prefixes_are_not_file_names() {
    // A share, a device or a verbatim prefix alone names no file.
    assert_eq!(classify_path("\\\\srv\\x.png"), "file");
    assert_eq!(classify_path("//srv/x.png"), "file");
    assert_eq!(classify_path("\\\\?\\pic.png"), "file");
    assert_eq!(classify_path("\\\\.\\pipe.png"), "file");
    assert_eq!(classify_path("\\\\?\\UNC\\srv\\share.png"), "file");
    assert!(check_thumbnail_source("\\\\srv\\x.png").is_err());
    assert_eq!(
        check_thumbnail_source("\\\\srv\\x.png"),
        Err("not a supported image type: ".to_string())
    );
    assert_eq!(thumbnail_file_name("\\\\srv\\x.png", 5), "qd_img_5.png");
    // Files below a prefix are named as usual.
    assert_eq!(classify_path("\\\\srv\\share\\x.png"), "image");
    assert_eq!(classify_path("\\\\?\\C:\\pics\\x.png"), "image");
    assert_eq!(classify_path("\\\\?\\UNC\\srv\\share\\x.GIF"), "image");
    assert_eq!(classify_path("\\\\.\\C:\\x.webp"), "image");
    assert_eq!(classify_path("\\\\?\\c:"), "file");
    // A server without a share is no prefix: it is a directory.
    assert_eq!(classify_path("\\\\srv"), "file");
    assert_eq!(extension_of("\\\\srv.png"), "png");
    // Verbatim paths split only at backslashes, and keep a final `.`.
    assert_eq!(extension_of("\\\\?\\C:\\a.b/c"), "b/c");
    assert_eq!(stem_of("\\\\?\\C:\\a.b/c"), "a");
    assert_eq!(extension_of("\\\\?\\C:\\x.png\\."), "");
    assert_eq!(extension_of("C:\\x.png\\."), "png");
    // `//?/` is no verbatim prefix: it reads as server `?` with share `C:`.
    assert_eq!(extension_of("//?/C:/x.png"), "png");
    assert_eq!(stem_of("\\\\srv\\share\\a.tar.gz"), "a.tar");
}

#[test]
fn ascii_case_does_not_change_the_kind() {
    for f in ["photo.jpg", "Photo.JPG", "a.WebP", "notes.txt", "x.AvIf", "noext", ".png"] {
        assert_eq!(classify_path(&f.to_ascii_uppercase()), classify_path(f), "{f}");
        assert_eq!(classify_path(&f.to_ascii_lowercase()), classify_path(f), "{f}");
    }
}

#[test]
fn directory_does_not_change_the_kind() {
    for f in ["a.png", "b.txt", "c", ".png", "d.JPG"] {
        for d in ["", "C:", "C:\\dir", "/home/u", "rel/dir", "\\\\srv\\share"] {
            for sep in ["/", "\\"] {
                let joined = format!("{d}{sep}{f}");
                assert_eq!(classify_path(&joined), classify_path(f), "{joined}");
            }
        }
    }
}

fn png_bytes(width: u32, height: u32) -> Vec<u8> {
    let img = image::RgbaImage::from_pixel(width, height, image::Rgba([10, 20, 30, 255]));
    let mut out = std::io::Cursor::new(Vec::new());
    image::DynamicImage::ImageRgba8(img).write_to(&mut out, image::ImageFormat::Png).unwrap();
    out.into_inner()
}

#[test]
fn thumbnails_are_made_in_memory() {
    let src = png_bytes(400, 100);
    let (name, bytes) = generate_thumbnail("C:\\pics\\wide.PNG", &src, 42).unwrap();
    assert_eq!(name, "qd_wide_42.png");
    assert_ne!(bytes, src);
    let thumb = image::load_from_memory_with_format(&bytes, image::ImageFormat::Png).unwrap();
    assert_eq!((thumb.width(), thumb.height()), (200, 50));
    let expected = image::load_from_memory(&src).unwrap().thumbnail(200, 200);
    let mut out = std::io::Cursor::new(Vec::new());
    expected.write_to(&mut out, image::ImageFormat::Png).unwrap();
    assert_eq!(bytes, out.into_inner());
}

#[test]
fn thumbnail_errors() {
    assert_eq!(
        generate_thumbnail("a.bmp", &[1, 2, 3], 1),
        Err("not a supported image type: bmp".to_string())
    );
    assert_eq!(
        generate_thumbnail("\\\\srv\\x.png", &png_bytes(2, 2), 1),
        Err("not a supported image type: ".to_string())
    );
    // Bytes that are no image of the named format give the decoder's error.
    let e = generate_thumbnail("a.jpg", &[1, 2, 3], 1).unwrap_err();
    assert!(!e.is_empty());
    assert!(!e.starts_with("not a supported image type"));
    // A PNG named .gif is decoded as GIF, and fails.
    assert!(generate_thumbnail("a.gif", &png_bytes(2, 2), 1).is_err());
}

#[test]
fn extension_classification_is_exact() {
    for e in ["png", "jpg", "jpeg", "webp", "gif", "bmp", "svg", "ico", "avif"] {
        assert_eq!(classify_extension(e), "image");
    }
    for e in ["PNG", "tiff", "", "pngs"] {
        assert_eq!(classify_extension(e), "file");
    }
}

#[test]
fn file_names_are_read_like_windows_paths() {
    assert_eq!(extension_of("C:\\dir\\photo.PNG"), "PNG");
    assert_eq!(extension_of("dir/archive.tar.gz"), "gz");
    assert_eq!(extension_of(".bashrc"), "");
    assert_eq!(extension_of("..hidden"), "hidden");
    assert_eq!(extension_of("C:"), "");
    assert_eq!(extension_of("C:\\"), "");
    assert_eq!(extension_of("a.b/c"), "");
    assert_eq!(stem_of("dir/archive.tar.gz"), "archive.tar");
    assert_eq!(stem_of(".bashrc"), ".bashrc");
    assert_eq!(stem_of("C:\\dir\\photo.PNG"), "photo");
    assert_eq!(stem_of("C:shot.jpeg"), "shot");
    assert_eq!(stem_of("noext"), "noext");
    assert_eq!(stem_of("/"), "img");
    assert_eq!(stem_of(""), "img");
    assert_eq!(stem_of("x/.."), "img");
}

#[test]
fn thumbnails_only_for_common_images() {
    for p in ["a.png", "a.JPG", "a.jpeg", "b/c.webp", "d.GiF"] {
        assert!(check_thumbnail_source(p).is_ok());
        assert_eq!(classify_path(p), "image");
    }
    assert_eq!(
        check_thumbnail_source("pic.BMP"),
        Err("not a supported image type: bmp".to_string())
    );
    assert_eq!(
        check_thumbnail_source("README"),
        Err("not a supported image type: ".to_string())
    );
    assert_eq!(
        check_thumbnail_source("x.ÄBC"),
        Err("not a supported image type: äbc".to_string())
    );
    assert_eq!(
        check_thumbnail_extension("svg"),
        Err("not a supported image type: svg".to_string())
    );
    assert_eq!(check_thumbnail_extension("gif"), Ok(()));
}

#[test]
fn thumbnail_names() {
    assert_eq!(
        thumbnail_file_name("C:\\x\\Cat.PNG", 1700000000123),
        "qd_Cat_1700000000123.png"
    );
    assert_eq!(thumbnail_file_name("a/b.tar.gz", 0), "qd_b.tar_0.png");
    assert_eq!(thumbnail_file_name("", 9), "qd_img_9.png");
    assert_eq!(
        thumbnail_file_name("p.png", u128::MAX),
        format!("qd_p_{}.png", u128::MAX)
    );
    assert_eq!(thumbnail_file_name("p.png", 10), "qd_p_10.png");
}

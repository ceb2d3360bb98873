use nerd_font_installer::error::InstallError;
use nerd_font_installer::pipeline::download_url;
use nerd_font_installer::pipeline::extract_fonts;
use nerd_font_installer::pipeline::font_file_name;
use nerd_font_installer::pipeline::is_font_file;
use nerd_font_installer::pipeline::FontFile;
use std::io::Cursor;
use std::io::Write;
use zip::write::FileOptions;
use zip::CompressionMethod;
use zip::ZipWriter;

fn archive(entries: &[(&str, &[u8])], method: CompressionMethod) -> Vec<u8> {
    let mut writer = ZipWriter::new(Cursor::new(Vec::new()));
    let options = FileOptions::default().compression_method(method);
    for (name, data) in entries {
        if name.ends_with('/') {
            writer.add_directory(*name, options).unwrap();
        } else {
            writer.start_file(*name, options).unwrap();
            writer.write_all(data).unwrap();
        }
    }
    writer.finish().unwrap().into_inner()
}

fn file(name: &str, data: &[u8]) -> FontFile {
    FontFile { name: name.to_string(), data: data.to_vec() }
}

#[test]
fn extraction_keeps_exactly_the_font_files() {
    let bytes = archive(
        &[("Foo.ttf", b"foo data"), ("Bar.otf", b"bar data"), ("readme.md", b"text"), ("docs/", b"")],
        CompressionMethod::Stored,
    );
    let out = extract_fonts(bytes);
    assert_eq!(out.failure, None);
    assert_eq!(out.files, vec![file("Foo.ttf", b"foo data"), file("Bar.otf", b"bar data")]);
}

#[test]
fn extraction_of_a_font_and_a_licence_gives_one_file() {
    let bytes = archive(&[("FiraCode.ttf", b"glyphs"), ("LICENSE", b"terms")], CompressionMethod::Deflated);
    let out = extract_fonts(bytes);
    assert_eq!(out.failure, None);
    assert_eq!(out.files, vec![file("FiraCode.ttf", b"glyphs")]);
}

#[test]
fn extraction_installs_under_the_base_name() {
    let bytes = archive(
        &[("fonts/", b""), ("fonts/ttf/Baz.ttf", b"baz"), ("fonts/otf/Qux.otf", b"qux")],
        CompressionMethod::Deflated,
    );
    let out = extract_fonts(bytes);
    assert_eq!(out.failure, None);
    assert_eq!(out.files, vec![file("Baz.ttf", b"baz"), file("Qux.otf", b"qux")]);
}

#[test]
fn extraction_decompresses_the_content() {
    let data: Vec<u8> = (0..20000u32).map(|i| (i % 7) as u8).collect();
    let bytes = archive(&[("Big.ttf", &data)], CompressionMethod::Deflated);
    assert!(bytes.len() < data.len());
    let out = extract_fonts(bytes);
    assert_eq!(out.failure, None);
    assert_eq!(out.files.len(), 1);
    assert_eq!(out.files[0].data, data);
}

#[test]
fn extraction_skips_upper_case_extensions_and_other_files() {
    let bytes = archive(
        &[("Loud.TTF", b"a"), ("font.ttf.bak", b"b"), ("ttf", b"c"), ("x.woff", b"d")],
        CompressionMethod::Stored,
    );
    let out = extract_fonts(bytes);
    assert_eq!(out.failure, None);
    assert!(out.files.is_empty());
}

#[test]
fn extraction_skips_paths_that_leave_the_directory() {
    let bytes = archive(&[("../Evil.ttf", b"evil"), ("Good.ttf", b"good")], CompressionMethod::Stored);
    let out = extract_fonts(bytes);
    assert_eq!(out.failure, None);
    assert_eq!(out.files, vec![file("Good.ttf", b"good")]);
}

#[test]
fn extraction_of_an_empty_archive_gives_nothing() {
    let out = extract_fonts(archive(&[], CompressionMethod::Stored));
    assert_eq!(out.failure, None);
    assert!(out.files.is_empty());
}

#[test]
fn extraction_of_bytes_that_are_no_archive_fails() {
    let out = extract_fonts(b"this is not a zip archive".to_vec());
    assert!(out.files.is_empty());
    assert!(matches!(out.failure, Some(InstallError::Archive(_))));
    let out = extract_fonts(Vec::new());
    assert!(out.files.is_empty());
    assert!(matches!(out.failure, Some(InstallError::Archive(_))));
}

#[test]
fn extraction_keeps_the_files_before_a_damaged_entry() {
    let mut bytes = archive(
        &[("One.ttf", b"first font"), ("Two.ttf", b"second font"), ("Three.ttf", b"third font")],
        CompressionMethod::Stored,
    );
    let at = bytes.windows(11).position(|w| w == b"second font").unwrap();
    bytes[at] = b'S';
    let out = extract_fonts(bytes);
    assert_eq!(out.files, vec![file("One.ttf", b"first font")]);
    assert!(matches!(out.failure, Some(InstallError::Archive(_))));
}

#[test]
fn font_file_name_is_the_base_name_of_a_font() {
    assert_eq!(font_file_name("Foo.ttf"), Some("Foo.ttf".to_string()));
    assert_eq!(font_file_name("a/b/Bar.otf"), Some("Bar.otf".to_string()));
    assert_eq!(font_file_name("a/.ttf"), Some(".ttf".to_string()));
    assert_eq!(font_file_name("readme.md"), None);
    assert_eq!(font_file_name("fonts.ttf/"), None);
    assert_eq!(font_file_name("fonts.ttf/readme"), None);
    assert_eq!(font_file_name("Foo.TTF"), None);
    assert_eq!(font_file_name(""), None);
    assert_eq!(font_file_name("é/ü.otf"), Some("ü.otf".to_string()));
}

#[test]
fn is_font_file_looks_at_the_suffix_only() {
    assert!(is_font_file("a.ttf"));
    assert!(is_font_file("a.otf"));
    assert!(is_font_file(".otf"));
    assert!(!is_font_file("a.ttf "));
    assert!(!is_font_file("a.Ttf"));
    assert!(!is_font_file("ttf"));
    assert!(!is_font_file("a.ttc"));
}

#[test]
fn download_url_points_at_the_latest_release() {
    assert_eq!(
        download_url("Hack.zip"),
        "https://github.com/ryanoasis/nerd-fonts/releases/latest/download/Hack.zip"
    );
    assert_eq!(download_url(""), "https://github.com/ryanoasis/nerd-fonts/releases/latest/download/");
}

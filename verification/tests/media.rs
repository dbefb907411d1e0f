use suisei_core::media::{
    audio_info_lines, classify_bytes, encode_b64, is_media_path, looks_binary, npy_field, npy_header, npy_lines,
    render_csv, sample_npy_values, split_csv_line, FileKind, ImageAsset, NpyFile, NpyValue,
};
use suisei_core::preview::PreviewStyle;

fn texts(lines: &[suisei_core::preview::PreviewLine]) -> Vec<(String, PreviewStyle)> {
    lines.iter().map(|l| (l.spans[0].0.clone(), l.spans[0].1)).collect()
}

fn fields(line: &str, sep: char) -> Vec<String> {
    let chars: Vec<char> = line.chars().collect();
    split_csv_line(&chars, sep).into_iter().map(|f| f.into_iter().collect()).collect()
}

#[test]
fn csv_split_honours_quotes() {
    assert_eq!(fields("a,b,c", ','), vec!["a", "b", "c"]);
    assert_eq!(fields("\"x,y\",z", ','), vec!["x,y", "z"]);
    assert_eq!(fields("\"say \"\"hi\"\"\",1", ','), vec!["say \"hi\"", "1"]);
    assert_eq!(fields("", ','), vec![""]);
    assert_eq!(fields("a\tb", '\t'), vec!["a", "b"]);
}

#[test]
fn csv_table_lines_up_columns() {
    let out = texts(&render_csv("name,qty\napple,3\nfig,12\n", false));
    assert_eq!(out[0], ("  CSV/TSV table  ·  sep=','".to_string(), PreviewStyle::Dim));
    assert_eq!(out[1], (String::new(), PreviewStyle::Normal));
    assert_eq!(out[2], ("  name  │ qty".to_string(), PreviewStyle::H3));
    assert_eq!(out[3], (format!("  {}", "─".repeat(11)), PreviewStyle::Hr));
    assert_eq!(out[4], ("  apple │ 3  ".to_string(), PreviewStyle::Normal));
    assert_eq!(out[5], ("  fig   │ 12 ".to_string(), PreviewStyle::Dim));
    assert_eq!(out.len(), 6);
}

#[test]
fn csv_wide_cells_are_clipped_with_an_ellipsis() {
    let long = "x".repeat(30);
    let out = texts(&render_csv(&format!("h\n{long}\n"), false));
    assert_eq!(out[4].0, format!("  {}", "x".repeat(24)), "cut at the column, no room for a mark");
    let wide = format!("{}한", "x".repeat(23));
    let out = texts(&render_csv(&format!("h\n{wide}\n"), false));
    assert_eq!(out[4].0, format!("  {}…", "x".repeat(23)), "a wide glyph that does not fit");
    let cjk = texts(&render_csv("한글\n", true));
    assert_eq!(cjk[0].0, "  CSV/TSV table  ·  sep='\\t'");
    assert_eq!(cjk[2].0, "  한글");
    assert_eq!(cjk[3].0, format!("  {}", "─".repeat(8)));
}

#[test]
fn csv_empty_and_truncated() {
    let out = texts(&render_csv("", false));
    assert_eq!(out.len(), 3);
    assert_eq!(out[2], ("(empty)".to_string(), PreviewStyle::Dim));
    let many: String = (0..250).map(|i| format!("{i}\n")).collect();
    let out = texts(&render_csv(&many, false));
    assert_eq!(out.len(), 2 + 2 + 199 + 1);
    assert_eq!(out.last().unwrap().0, "  … truncated (200 rows)");
}

#[test]
fn media_paths_and_kinds() {
    assert!(is_media_path("/a/b/photo.PNG"));
    assert!(is_media_path("data.csv"));
    assert!(!is_media_path("main.rs"));
    assert!(!is_media_path(".png"));
    assert!(looks_binary(&[1, 2, 0, 3]));
    assert!(!looks_binary(b"plain text"));
    assert_eq!(classify_bytes("x.unknown", Some(&[0u8, 1])), FileKind::Binary);
    assert_eq!(classify_bytes("x.unknown", Some(b"hello")), FileKind::Text);
    assert_eq!(classify_bytes("x.unknown", None), FileKind::Text);
    assert_eq!(classify_bytes("song.mp3", None), FileKind::Audio);
    assert!(FileKind::Image.is_viewer());
    assert!(!FileKind::Text.is_viewer());
}

#[test]
fn audio_card_names_the_file() {
    let out = texts(&audio_info_lines("/music/track.mp3", true));
    assert_eq!(out.len(), 7);
    assert_eq!(out[0], ("  Audio".to_string(), PreviewStyle::H2));
    assert_eq!(out[1].0, "  track.mp3");
    assert_eq!(out[2].0, "  ▶ playing");
}

fn npy_bytes(header: &str, payload: &[u8]) -> Vec<u8> {
    let mut d = vec![0x93, b'N', b'U', b'M', b'P', b'Y', 1, 0];
    d.push((header.len() & 0xff) as u8);
    d.push((header.len() >> 8) as u8);
    d.extend_from_slice(header.as_bytes());
    d.extend_from_slice(payload);
    d
}

fn shown(v: &[NpyValue]) -> Vec<String> {
    v.iter()
        .map(|x| match x {
            NpyValue::Shown(s) => s.clone(),
            NpyValue::F32(b) => format!("f32:{b:08x}"),
            NpyValue::F64(b) => format!("f64:{b:016x}"),
        })
        .collect()
}

#[test]
fn npy_header_reads_the_dict() {
    let header = "{'descr': '<i4', 'fortran_order': False, 'shape': (3,), }";
    let mut payload = Vec::new();
    for v in [1i32, -2, 300] {
        payload.extend_from_slice(&v.to_le_bytes());
    }
    let data = npy_bytes(header, &payload);
    let f = npy_header(&data).unwrap();
    assert_eq!(f.descr, "<i4");
    assert_eq!(f.fortran, "False");
    assert_eq!(f.shape, "(3,)");
    assert_eq!(f.payload_start, 10 + header.len());
    let vals = sample_npy_values(&data[f.payload_start..], &f.descr, 48);
    assert_eq!(shown(&vals), vec!["1", "-2", "300"]);
}

#[test]
fn npy_header_errors() {
    assert_eq!(npy_header(b"\x93NUMPY").unwrap_err(), "not a .npy file");
    assert_eq!(npy_header(b"PK\x03\x04 not numpy").unwrap_err(), "not a .npy file");
    let v2 = [0x93, b'N', b'U', b'M', b'P', b'Y', 2, 0, 0, 0, 0];
    assert_eq!(npy_header(&v2).unwrap_err(), "truncated npy");
    let short = [0x93, b'N', b'U', b'M', b'P', b'Y', 1, 0, 50, 0, b'{'];
    assert_eq!(npy_header(&short).unwrap_err(), "truncated npy header");
    let mut v3 = vec![0x93, b'N', b'U', b'M', b'P', b'Y', 3, 0, 2, 0, 0, 0];
    v3.extend_from_slice(b"{}");
    let f = npy_header(&v3).unwrap();
    assert_eq!(f.descr, "?");
    assert_eq!(f.fortran, "False");
    assert_eq!(f.shape, "()");
    assert_eq!(f.payload_start, 14);
}

#[test]
fn npy_fields_by_shape() {
    let h = "{'descr': \"<f8\", 'fortran_order': True , 'shape': (2, 3), 'last': x}";
    assert_eq!(npy_field(h, "descr").as_deref(), Some("<f8"));
    assert_eq!(npy_field(h, "fortran_order").as_deref(), Some("True"));
    assert_eq!(npy_field(h, "shape").as_deref(), Some("(2, 3)"));
    assert_eq!(npy_field(h, "last").as_deref(), Some("x"));
    assert_eq!(npy_field(h, "missing"), None);
    assert_eq!(npy_field("{'descr': '<f8", "descr"), None);
    assert_eq!(npy_field("{'shape': (2, 3", "shape"), None);
    assert_eq!(npy_field("{'n':  7 ", "n").as_deref(), Some("7"));
}

#[test]
fn npy_values_by_dtype() {
    assert_eq!(shown(&sample_npy_values(&[0x01, 0x02, 0xff, 0xfe], ">i2", 48)), vec!["258", "-2"]);
    assert_eq!(shown(&sample_npy_values(&[0xff, 7], "|i1", 48)), vec!["-1", "7"]);
    assert_eq!(shown(&sample_npy_values(&[0xff, 7], "|u1", 48)), vec!["255", "7"]);
    assert_eq!(shown(&sample_npy_values(&1.5f32.to_le_bytes(), "<f4", 48)), vec!["f32:3fc00000"]);
    assert_eq!(shown(&sample_npy_values(&2.0f64.to_be_bytes(), ">f8", 48)), vec!["f64:4000000000000000"]);
    assert_eq!(
        shown(&sample_npy_values(&(-5i64).to_le_bytes(), "<i8", 48)),
        vec!["-5"]
    );
    assert_eq!(shown(&sample_npy_values(&[0x0a, 0xff, 1, 2, 3, 4, 5, 6], "<U8", 48)), vec!["[0a, ff, 01, 02]"]);
    assert_eq!(shown(&sample_npy_values(&[9, 8, 7, 6, 5], "<i2", 48)), vec!["2057", "1543"], "a partial item is dropped");
    assert_eq!(sample_npy_values(&[1, 2, 3, 4, 5, 6], "|u1", 4).len(), 4);
    assert_eq!(shown(&sample_npy_values(&[1, 0, 0, 0], "<", 48)), vec!["f32:00000001"], "no digits: 4-byte floats");
    assert_eq!(sample_npy_values(&[], "<i4", 48).len(), 0);
}

#[test]
fn npy_preview_lines() {
    let f = NpyFile {
        descr: "<i4".to_string(),
        fortran: "False".to_string(),
        shape: "(7,)".to_string(),
        payload_start: 128,
    };
    let sample: Vec<String> = (1..=7).map(|n| n.to_string()).collect();
    let lines = texts(&npy_lines(&f, 28, &sample));
    assert_eq!(lines[0], ("  NumPy .npy".to_string(), PreviewStyle::H2));
    assert_eq!(lines[1], ("  dtype   <i4".to_string(), PreviewStyle::Code));
    assert_eq!(lines[2], ("  shape   (7,)".to_string(), PreviewStyle::Code));
    assert_eq!(lines[3], ("  fortran False  ·  payload 28 bytes".to_string(), PreviewStyle::Dim));
    assert_eq!(lines[4], (String::new(), PreviewStyle::Normal));
    assert_eq!(lines[5], ("  values (sample)".to_string(), PreviewStyle::H4));
    assert_eq!(lines[6], ("  1  2  3  4  5  6".to_string(), PreviewStyle::JsonNumber));
    assert_eq!(lines[7], ("  7".to_string(), PreviewStyle::JsonNumber));
    assert_eq!(lines.len(), 8);
    let empty = texts(&npy_lines(&f, 0, &[]));
    assert_eq!(empty.len(), 6);
    assert_eq!(empty[5], ("  (binary payload — no numeric sample)".to_string(), PreviewStyle::Dim));
}

#[test]
fn base64_pads_to_four() {
    assert_eq!(encode_b64(b""), "");
    assert_eq!(encode_b64(b"f"), "Zg==");
    assert_eq!(encode_b64(b"fo"), "Zm8=");
    assert_eq!(encode_b64(b"foo"), "Zm9v");
    assert_eq!(encode_b64(b"foobar"), "Zm9vYmFy");
    assert_eq!(encode_b64(&[0xfb, 0xff]), "+/8=");
}

#[test]
fn image_cache_follows_the_width() {
    let mut a = ImageAsset::new("pic.png".to_string(), 100, 50, vec![0; 100 * 50 * 4]);
    assert_eq!(a.width_cells, 48);
    assert_eq!(a.kitty_id, 88);
    assert_eq!(a.cache_size(10), (480, 240));
    assert_eq!(a.cache_size(2), (384, 192), "cells are at least 8 pixels");
    a.adjust_width(-100);
    assert_eq!(a.width_cells, 8);
    a.adjust_width(500);
    assert_eq!(a.width_cells, 120);
    a.rebuild_cache(10, vec![1, 2, 3]);
    assert_eq!((a.cached_w, a.cached_h), (1200, 600));
    assert_eq!(a.cached_b64, "AQID");
    assert_eq!(a.cached_rgba, vec![1, 2, 3]);
    let flat = ImageAsset::new("x".to_string(), 0, 5, Vec::new());
    assert_eq!(flat.cache_size(10), (480, 480));
    let thin = ImageAsset::new("x".to_string(), 1000, 1, Vec::new());
    assert_eq!(thin.cache_size(10).1, 1);
}

#[test]
fn image_bytes_decode_to_rgba_pixels() {
    let mut img = image::RgbaImage::new(2, 1);
    img.put_pixel(0, 0, image::Rgba([1, 2, 3, 255]));
    img.put_pixel(1, 0, image::Rgba([4, 5, 6, 128]));
    let mut png: Vec<u8> = Vec::new();
    image::DynamicImage::ImageRgba8(img)
        .write_to(&mut std::io::Cursor::new(&mut png), image::ImageFormat::Png)
        .unwrap();
    let a = suisei_core::media::image_from_bytes("a.png".to_string(), &png).unwrap();
    assert_eq!((a.src_w, a.src_h), (2, 1));
    assert_eq!(a.rgba, vec![1, 2, 3, 255, 4, 5, 6, 128]);
    assert_eq!(a.width_cells, 48);
    assert!(suisei_core::media::image_from_bytes("x".to_string(), b"not an image").is_err());
}

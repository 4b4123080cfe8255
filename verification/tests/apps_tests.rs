use whisplay_launcher::apps::{
    build_registry, decode_icon_file, icon_file_name_at, interpreter, load_icon, python_path,
    AppConfig, DecodedImage, IconData, Resolved, ICON_FILE_COUNT,
};

fn entry(name: &str) -> AppConfig {
    AppConfig {
        name: name.to_string(),
        script: format!("../{name}/main.py"),
        description: None,
        icon: None,
        color: None,
        resolved_script: Vec::new(),
        resolved_dir: Vec::new(),
        icon_data: None,
    }
}

#[test]
fn accent_defaults_to_green() {
    let app = entry("a");
    assert_eq!(app.accent_color(), [29, 185, 84]);
    let mut app = entry("b");
    app.color = Some([255, 200, 50]);
    assert_eq!(app.accent_color(), [255, 200, 50]);
}

#[test]
fn icon_type_defaults() {
    let app = entry("a");
    assert_eq!(app.icon_type(), "default");
    let mut app = entry("b");
    app.icon = Some("bird".to_string());
    assert_eq!(app.icon_type(), "bird");
}

#[test]
fn registry_keeps_found_entries_in_order() {
    let entries = vec![entry("one"), entry("two"), entry("three"), entry("four")];
    let found = vec![
        Some(Resolved { script: b"/x/one/main.py".to_vec(), dir: b"/x/one".to_vec(), icon_data: None }),
        None,
        Some(Resolved {
            script: b"/x/three/main.py".to_vec(),
            dir: b"/x/thr\xffee".to_vec(),
            icon_data: Some(IconData { rgba_64: vec![1], rgba_80: vec![2], rgba_96: vec![3] }),
        }),
        None,
    ];
    let apps = build_registry(entries, found);
    assert_eq!(apps.len(), 2);
    assert_eq!(apps[0].name, "one");
    assert_eq!(apps[0].resolved_script, b"/x/one/main.py".to_vec());
    assert_eq!(apps[0].resolved_dir, b"/x/one".to_vec());
    assert!(apps[0].icon_data.is_none());
    assert_eq!(apps[1].name, "three");
    assert_eq!(apps[1].script, "../three/main.py");
    assert_eq!(apps[1].resolved_dir, b"/x/thr\xffee".to_vec());
    assert_eq!(apps[1].icon_data.as_ref().unwrap().rgba_96, vec![3]);
}

#[test]
fn registry_of_nothing_is_empty() {
    assert!(build_registry(Vec::new(), Vec::new()).is_empty());
    assert!(build_registry(vec![entry("a")], vec![None]).is_empty());
}

#[test]
fn interpreter_prefers_the_venv() {
    assert_eq!(interpreter(b"/apps/x/venv/bin/python3".to_vec(), true), b"/apps/x/venv/bin/python3".to_vec());
    assert_eq!(interpreter(b"/apps/x/venv/bin/python3".to_vec(), false), b"/usr/bin/python3".to_vec());
    assert_eq!(interpreter(b"/apps/\xfe/venv/bin/python3".to_vec(), true), b"/apps/\xfe/venv/bin/python3".to_vec());
}

#[test]
fn python_path_prepends_settings() {
    assert_eq!(python_path("/l/settings", None), "/l/settings");
    assert_eq!(python_path("/l/settings", Some("/opt/lib")), "/l/settings:/opt/lib");
    assert_eq!(python_path("/l/settings", Some("")), "/l/settings:");
}

#[test]
fn icon_is_scaled_to_the_three_tile_sizes() {
    let mut rgba = Vec::new();
    for i in 0..64 * 64 {
        rgba.extend_from_slice(&[(i % 256) as u8, 100, 200, 255]);
    }
    let icon = IconData::from_image(&DecodedImage { width: 64, height: 64, rgba: rgba.clone() });
    assert_eq!(icon.rgba_64, rgba);
    assert_eq!(icon.rgba_80.len(), 80 * 80 * 4);
    assert_eq!(icon.rgba_96.len(), 96 * 96 * 4);
}

#[test]
fn solid_icon_stays_solid_when_scaled() {
    let rgba: Vec<u8> = [10u8, 20, 30, 255].repeat(16 * 16);
    let icon = IconData::from_image(&DecodedImage { width: 16, height: 16, rgba });
    assert_eq!(icon.rgba_64.len(), 64 * 64 * 4);
    for px in icon.rgba_96.chunks(4) {
        assert_eq!(px, &[10, 20, 30, 255]);
    }
}

#[test]
fn empty_icon_scales_to_transparent() {
    let icon = IconData::from_image(&DecodedImage { width: 0, height: 0, rgba: Vec::new() });
    assert_eq!(icon.rgba_80.len(), 80 * 80 * 4);
    assert!(icon.rgba_80.iter().all(|&b| b == 0));
}

#[test]
fn icon_file_bytes_are_decoded_and_scaled() {
    let mut img = image::RgbaImage::new(3, 2);
    for p in img.pixels_mut() {
        *p = image::Rgba([200, 100, 50, 255]);
    }
    let mut png = std::io::Cursor::new(Vec::new());
    img.write_to(&mut png, image::ImageFormat::Png).unwrap();
    let (icon, w, h) = IconData::decode(png.get_ref()).unwrap();
    assert_eq!((w, h), (3, 2));
    assert_eq!(icon.rgba_64.len(), 64 * 64 * 4);
    assert_eq!(icon.rgba_80.len(), 80 * 80 * 4);
    assert_eq!(icon.rgba_96.len(), 96 * 96 * 4);
}

#[test]
fn garbage_is_not_an_icon() {
    let r = IconData::decode(b"definitely not an image");
    assert!(r.is_err());
    assert!(!r.err().unwrap().is_empty());
}

fn png_bytes(w: u32, h: u32) -> Vec<u8> {
    let img = image::RgbaImage::from_pixel(w, h, image::Rgba([200, 100, 50, 255]));
    let mut png = std::io::Cursor::new(Vec::new());
    img.write_to(&mut png, image::ImageFormat::Png).unwrap();
    png.into_inner()
}

fn bmp_bytes(w: u32, h: u32) -> Vec<u8> {
    let img = image::RgbImage::from_pixel(w, h, image::Rgb([1, 2, 3]));
    let mut bmp = std::io::Cursor::new(Vec::new());
    img.write_to(&mut bmp, image::ImageFormat::Bmp).unwrap();
    bmp.into_inner()
}

#[test]
fn icon_file_names_in_order() {
    assert_eq!(ICON_FILE_COUNT, 4);
    let names: Vec<&str> = (0..ICON_FILE_COUNT).map(icon_file_name_at).collect();
    assert_eq!(names, vec!["icon.ico", "icon.png", "icon.jpg", "icon.bmp"]);
}

#[test]
fn icon_file_is_decoded_by_extension() {
    let (icon, w, h) = decode_icon_file(&png_bytes(5, 4), "icon.png").unwrap();
    assert_eq!((w, h), (5, 4));
    assert_eq!(icon.rgba_64.len(), 64 * 64 * 4);
}

#[test]
fn misnamed_icon_file_falls_back_to_its_content() {
    let (icon, w, h) = decode_icon_file(&png_bytes(7, 2), "icon.jpg").unwrap();
    assert_eq!((w, h), (7, 2));
    assert_eq!(icon.rgba_96.len(), 96 * 96 * 4);
    let (_, w, h) = decode_icon_file(&bmp_bytes(3, 9), "icon.ico").unwrap();
    assert_eq!((w, h), (3, 9));
}

#[test]
fn undecodable_icon_file_reports_both_errors() {
    let e = decode_icon_file(b"not an image", "icon.png").err().unwrap();
    assert!(e.contains("; content fallback: "));
}

#[test]
fn icon_comes_from_the_first_file_that_decodes() {
    let files = vec![None, Some(b"broken".to_vec()), Some(bmp_bytes(2, 3)), Some(png_bytes(4, 4))];
    let r = load_icon(&files);
    let (k, icon, w, h) = r.loaded.unwrap();
    assert_eq!((k, w, h), (2, 2, 3));
    assert_eq!(icon.rgba_80.len(), 80 * 80 * 4);
    assert_eq!(r.errors.len(), 2);
    assert!(r.errors[0].is_none());
    assert!(r.errors[1].is_some());
}

#[test]
fn no_icon_when_no_file_decodes() {
    let files = vec![Some(b"x".to_vec()), None, None, Some(Vec::new())];
    let r = load_icon(&files);
    assert!(r.loaded.is_none());
    assert_eq!(r.errors.len(), 4);
    assert!(r.errors[0].is_some());
    assert!(r.errors[1].is_none());
    assert!(r.errors[2].is_none());
    assert!(r.errors[3].is_some());
    let r = load_icon(&vec![None, None, None, None]);
    assert!(r.loaded.is_none());
    assert!(r.errors.iter().all(|e| e.is_none()));
}

#[test]
fn one_pixel_high_icon_scales_to_equal_rows() {
    let mut rgba = Vec::new();
    for i in 0..7u8 {
        rgba.extend_from_slice(&[i * 30, 255 - i * 20, i * 7, 255]);
    }
    let icon = IconData::from_image(&DecodedImage { width: 7, height: 1, rgba });
    for (buf, size) in [(&icon.rgba_64, 64), (&icon.rgba_80, 80), (&icon.rgba_96, 96)] {
        let row = &buf[..size * 4];
        for r in buf.chunks(size * 4) {
            assert_eq!(r, row);
        }
    }
}

#[test]
fn one_pixel_wide_icon_scales_to_equal_columns() {
    let mut rgba = Vec::new();
    for i in 0..5u8 {
        rgba.extend_from_slice(&[i * 50, 10, 255 - i * 40, 255]);
    }
    let icon = IconData::from_image(&DecodedImage { width: 1, height: 5, rgba });
    for (buf, size) in [(&icon.rgba_64, 64), (&icon.rgba_80, 80), (&icon.rgba_96, 96)] {
        for r in buf.chunks(size * 4) {
            for px in r.chunks(4) {
                assert_eq!(px, &r[..4]);
            }
        }
    }
    assert_ne!(&icon.rgba_64[..4], &icon.rgba_64[63 * 64 * 4..63 * 64 * 4 + 4]);
}

#[test]
fn undecodable_icon_error_joins_both_messages() {
    let by_extension = image::load_from_memory_with_format(b"garbage", image::ImageFormat::Png)
        .err()
        .unwrap()
        .to_string();
    let by_content = IconData::decode(b"garbage").err().unwrap();
    let e = decode_icon_file(b"garbage", "icon.png").err().unwrap();
    assert_eq!(e, format!("{by_extension}; content fallback: {by_content}"));
}

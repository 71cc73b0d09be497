use mycloud::photo_meta::{exif_date_texts, parse_exif_date, photo_fields, read_photo_meta};

#[test]
fn exif_date_both_layouts() {
    // 2026-03-15 14:30:00 UTC
    assert_eq!(parse_exif_date("2026:03:15 14:30:00"), Some(1_773_585_000));
    assert_eq!(parse_exif_date("2026-03-15 14:30:00"), Some(1_773_585_000));
    assert_eq!(parse_exif_date("  2026:03:15 14:30:00 \n"), Some(1_773_585_000));
    assert_eq!(parse_exif_date("1970:01:01 00:00:00"), Some(0));
}

#[test]
fn exif_date_rejects_other_text() {
    assert_eq!(parse_exif_date(""), None);
    assert_eq!(parse_exif_date("15/03/2026 14:30"), None);
    assert_eq!(parse_exif_date("2026:13:15 14:30:00"), None);
}

#[test]
fn exif_date_texts_replace_two_colons() {
    let (a, b) = exif_date_texts(" 2026:03:15 14:30:00 ");
    assert_eq!(a, "2026:03:15 14:30:00");
    assert_eq!(b, "2026-03-15 14:30:00");
    let (a, b) = exif_date_texts("a:b");
    assert_eq!((a.as_str(), b.as_str()), ("a:b", "a-b"));
}

fn field(tag: &str, text: &str, short: Option<Vec<u16>>) -> (String, String, Option<Vec<u16>>) {
    (tag.to_string(), text.to_string(), short)
}

#[test]
fn photo_fields_pick_date_camera_and_orientation() {
    let fields = vec![
        field("DateTimeOriginal", "not a date", None),
        field("Make", "Canon", None),
        field("DateTime", "2026:03:15 14:30:00", None),
        field("DateTimeOriginal", "2020:01:01 00:00:00", None),
        field("Model", "EOS", None),
        field("Make", "Nikon", None),
        field("Orientation", "row 0 at top", Some(vec![6, 1])),
        field("Orientation", "odd", None),
    ];
    let p = photo_fields(&fields);
    assert_eq!(p.taken_at, Some(1773585000));
    assert_eq!(p.camera_make.as_deref(), Some("Nikon"));
    assert_eq!(p.camera_model.as_deref(), Some("EOS"));
    assert_eq!(p.orientation, Some(6));
    let p = photo_fields(&vec![field("Orientation", "x", Some(vec![3])), field("Orientation", "y", Some(vec![]))]);
    assert_eq!(p.orientation, None);
    let p = photo_fields(&vec![]);
    assert!(p.taken_at.is_none() && p.camera_make.is_none() && p.camera_model.is_none() && p.orientation.is_none());
}

#[test]
fn photo_meta_reads_png_size_and_refuses_noise() {
    let png: Vec<u8> = vec![
        137, 80, 78, 71, 13, 10, 26, 10, 0, 0, 0, 13, 73, 72, 68, 82, 0, 0, 0, 3, 0, 0, 0, 2, 8, 0, 0, 0, 0, 184, 31,
        57, 198, 0, 0, 0, 11, 73, 68, 65, 84, 120, 156, 99, 96, 128, 0, 0, 0, 8, 0, 1, 183, 88, 115, 149, 0, 0, 0, 0,
        73, 69, 78, 68, 174, 66, 96, 130,
    ];
    let m = read_photo_meta(&png).unwrap();
    assert_eq!((m.width, m.height), (3, 2));
    assert!(m.exif.is_none());
    assert!(m.fields.taken_at.is_none());
    assert!(read_photo_meta(b"definitely not an image").is_none());
}

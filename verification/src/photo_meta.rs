//! A photo's size and EXIF metadata: its dimensions, the date it was taken, the camera and the
//! orientation.
use vstd::prelude::*;

use crate::text::{chars_eq, chars_of, string_from_chars, trim_whitespace, trim_ws};

verus! {

broadcast use vstd::string::group_string_axioms;

/// `s` with its first `n` occurrences of `from` replaced by `to` (`str::replacen`).
pub open spec fn replace_first(s: Seq<char>, from: char, to: char, n: nat) -> Seq<char>
    decreases s.len(),
{
    if s.len() == 0 {
        s
    } else if s[0] == from && n > 0 {
        seq![to] + replace_first(s.drop_first(), from, to, (n - 1) as nat)
    } else {
        seq![s[0]] + replace_first(s.drop_first(), from, to, n)
    }
}

fn replace_first_chars(v: &Vec<char>, from: char, to: char, n: usize) -> (r: Vec<char>)
    ensures
        r@ == replace_first(v@, from, to, n as nat),
{
    let mut r: Vec<char> = Vec::new();
    let mut left: usize = n;
    let mut i: usize = 0;
    assert(v@.skip(0) =~= v@);
    assert(r@ + replace_first(v@, from, to, n as nat) =~= replace_first(v@, from, to, n as nat));
    while i < v.len()
        invariant
            i <= v.len(),
            left <= n,
            r@ + replace_first(v@.skip(i as int), from, to, left as nat) == replace_first(
                v@,
                from,
                to,
                n as nat,
            ),
        decreases v.len() - i,
    {
        let ghost rest = v@.skip(i as int);
        assert(rest[0] == v@[i as int]);
        assert(rest.drop_first() =~= v@.skip(i + 1));
        let c = v[i];
        if c == from && left > 0 {
            assert(r@.push(to) + replace_first(v@.skip(i + 1), from, to, (left - 1) as nat)
                =~= r@ + replace_first(rest, from, to, left as nat));
            r.push(to);
            left = left - 1;
        } else {
            assert(r@.push(c) + replace_first(v@.skip(i + 1), from, to, left as nat) =~= r@
                + replace_first(rest, from, to, left as nat));
            r.push(c);
        }
        i = i + 1;
    }
    assert(v@.skip(i as int) =~= Seq::<char>::empty());
    assert(r@ + Seq::<char>::empty() =~= r@);
    r
}

/// The instant that `chrono` reads from `text` in the layout `format`, as seconds since the
/// Unix epoch taken as UTC, or `None` where the text does not match.
pub uninterp spec fn datetime_parsed(text: Seq<char>, format: Seq<char>) -> Option<i64>;

/// Reads a date and time with `chrono::NaiveDateTime::parse_from_str`, and takes it as UTC
/// seconds (`and_utc().timestamp()`). What the parser accepts is left to the name
/// `datetime_parsed`.
#[verifier::external_body]
fn parse_datetime(text: &str, format: &str) -> (r: Option<i64>)
    ensures
        r == datetime_parsed(text@, format@),
{
    match chrono::NaiveDateTime::parse_from_str(text, format) {
        Ok(t) => Some(t.and_utc().timestamp()),
        Err(_) => None,
    }
}

/// The layout both readings expect.
pub open spec fn exif_layout() -> Seq<char> {
    "%Y-%m-%d %H:%M:%S"@
}

/// The two texts that are tried for an EXIF date: the trimmed text as it is, then with its
/// first two colons made dashes (`2026:03:15 14:30:00` becomes `2026-03-15 14:30:00`).
pub open spec fn exif_date_texts_of(s: Seq<char>) -> (Seq<char>, Seq<char>) {
    (trim_ws(s), replace_first(trim_ws(s), ':', '-', 2))
}

/// The date of an EXIF date text: the first of the two texts tried that reads as a date.
pub open spec fn exif_date_value(s: Seq<char>) -> Option<i64> {
    let (a, b) = exif_date_texts_of(s);
    match datetime_parsed(a, exif_layout()) {
        Some(t) => Some(t),
        None => datetime_parsed(b, exif_layout()),
    }
}

/// The two texts tried for an EXIF date, in order.
pub fn exif_date_texts(date_str: &str) -> (r: (String, String))
    ensures
        (r.0@, r.1@) == exif_date_texts_of(date_str@),
{
    let trimmed = trim_whitespace(&chars_of(date_str));
    let fixed = replace_first_chars(&trimmed, ':', '-', 2);
    (string_from_chars(&trimmed), string_from_chars(&fixed))
}

/// An EXIF date (`YYYY-MM-DD HH:MM:SS` or `YYYY:MM:DD HH:MM:SS`) as UTC seconds since the
/// epoch, or `None` where neither form reads.
pub fn parse_exif_date(date_str: &str) -> (r: Option<i64>)
    ensures
        r == exif_date_value(date_str@),
{
    let (trimmed, fixed) = exif_date_texts(date_str);
    let layout = "%Y-%m-%d %H:%M:%S";
    proof {
        reveal_strlit("%Y-%m-%d %H:%M:%S");
    }
    match parse_datetime(trimmed.as_str(), layout) {
        Some(t) => Some(t),
        None => parse_datetime(fixed.as_str(), layout),
    }
}

// ───────────────────────── image size and EXIF fields ─────────────────────────

/// The width and height the `image` crate reads from the header of `data`, guessing the format
/// from its first bytes; `None` where the format is unknown or the header does not read.
pub uninterp spec fn image_dims_of(data: Seq<u8>) -> Option<(u32, u32)>;

/// The EXIF fields the `exif` crate reads from the container in `data`, in its order: each
/// field's tag name, its value as display text with its unit, and, when the value is of type
/// SHORT, its elements. `None` where no EXIF data reads.
pub uninterp spec fn exif_fields_of(data: Seq<u8>) -> Option<Seq<(Seq<char>, Seq<char>, Option<Seq<u16>>)>>;

/// The plain view of fields handed out as strings.
pub open spec fn exif_fields_view(v: Seq<(String, String, Option<Vec<u16>>)>) -> Seq<(Seq<char>, Seq<char>, Option<Seq<u16>>)> {
    v.map_values(|f: (String, String, Option<Vec<u16>>)| (f.0@, f.1@, match f.2 { Some(s) => Some(s@), None => None }))
}

/// `image::ImageReader::new(..).with_guessed_format()` then `into_dimensions()`: the image size
/// from its header, without decoding the pixels.
#[verifier::external_body]
fn image_dimensions(data: &[u8]) -> (r: Option<(u32, u32)>)
    ensures
        r == image_dims_of(data@),
{
    let reader = image::ImageReader::new(std::io::Cursor::new(data)).with_guessed_format().ok()?;
    reader.into_dimensions().ok()
}

/// `exif::Reader::read_from_container`, each field handed out as its tag name
/// (`Tag`'s `Display`), `display_value().with_unit(..)` text, and the elements of a SHORT
/// value.
#[verifier::external_body]
fn exif_fields(data: &[u8]) -> (r: Option<Vec<(String, String, Option<Vec<u16>>)>>)
    ensures
        match r {
            Some(v) => exif_fields_of(data@) == Some(exif_fields_view(v@)),
            None => exif_fields_of(data@) is None,
        },
{
    let exif = exif::Reader::new().read_from_container(&mut std::io::Cursor::new(data)).ok()?;
    Some(exif.fields().map(|f| {
        let short = match f.value {
            exif::Value::Short(ref v) => Some(v.clone()),
            _ => None,
        };
        (f.tag.to_string(), f.display_value().with_unit(&exif).to_string(), short)
    }).collect())
}

/// The photo facts drawn from EXIF fields.
pub struct PhotoFields {
    /// When the photo was taken, UTC seconds since the epoch.
    pub taken_at: Option<i64>,
    pub camera_make: Option<String>,
    pub camera_model: Option<String>,
    pub orientation: Option<i32>,
}

/// The facts that fields give, read in order: the date is that of the first `DateTimeOriginal`
/// or `DateTime` field whose text reads as a date; make and model are the last `Make` and
/// `Model` texts; the orientation is the first element of the last SHORT `Orientation` value.
pub open spec fn photo_fields_of(fs: Seq<(Seq<char>, Seq<char>, Option<Seq<u16>>)>) -> (Option<i64>, Option<Seq<char>>, Option<Seq<char>>, Option<i32>)
    decreases fs.len(),
{
    if fs.len() == 0 {
        (None, None, None, None)
    } else {
        let p = photo_fields_of(fs.drop_last());
        let f = fs.last();
        (
            if p.0 is None && (f.0 == "DateTimeOriginal"@ || f.0 == "DateTime"@) { exif_date_value(f.1) } else { p.0 },
            if f.0 == "Make"@ { Some(f.1) } else { p.1 },
            if f.0 == "Model"@ { Some(f.1) } else { p.2 },
            if f.0 == "Orientation"@ && f.2 is Some {
                if f.2->0.len() > 0 {
                    Some(f.2->0[0] as i32)
                } else {
                    None
                }
            } else {
                p.3
            },
        )
    }
}

/// The view of a `PhotoFields`.
pub open spec fn photo_fields_view(p: PhotoFields) -> (Option<i64>, Option<Seq<char>>, Option<Seq<char>>, Option<i32>) {
    (
        p.taken_at,
        match p.camera_make { Some(s) => Some(s@), None => None },
        match p.camera_model { Some(s) => Some(s@), None => None },
        p.orientation,
    )
}

fn text_is(a: &str, b: &str) -> (r: bool)
    ensures
        r == (a@ == b@),
{
    chars_eq(&chars_of(a), &chars_of(b))
}

/// Pick the photo facts out of EXIF fields (tag name, display text, SHORT elements).
pub fn photo_fields(fields: &Vec<(String, String, Option<Vec<u16>>)>) -> (r: PhotoFields)
    ensures
        photo_fields_view(r) == photo_fields_of(exif_fields_view(fields@)),
{
    let ghost fs = exif_fields_view(fields@);
    let mut r = PhotoFields { taken_at: None, camera_make: None, camera_model: None, orientation: None };
    let mut i: usize = 0;
    proof {
        assert(fs.take(0) =~= Seq::<(Seq<char>, Seq<char>, Option<Seq<u16>>)>::empty());
    }
    while i < fields.len()
        invariant
            i <= fields.len(),
            fs == exif_fields_view(fields@),
            photo_fields_view(r) == photo_fields_of(fs.take(i as int)),
        decreases fields.len() - i,
    {
        proof {
            assert(fs.take(i + 1).drop_last() =~= fs.take(i as int));
            assert(fs.take(i + 1).last() == fs[i as int]);
        }
        let (tag, text, short) = &fields[i];
        let tag = tag.as_str();
        if r.taken_at.is_none() && (text_is(tag, "DateTimeOriginal") || text_is(tag, "DateTime")) {
            r.taken_at = parse_exif_date(text.as_str());
        }
        if text_is(tag, "Make") {
            r.camera_make = Some(text.clone());
        }
        if text_is(tag, "Model") {
            r.camera_model = Some(text.clone());
        }
        if text_is(tag, "Orientation") {
            match short {
                Some(v) => {
                    if v.len() > 0 {
                        r.orientation = Some(v[0] as i32);
                    } else {
                        r.orientation = None;
                    }
                },
                None => {},
            }
        }
        i = i + 1;
    }
    proof {
        assert(fs.take(i as int) =~= fs);
    }
    r
}

/// A photo's size and EXIF facts, with every EXIF field as (tag name, display text) for the
/// stored metadata. `exif` is `None` where the image holds no readable EXIF data.
pub struct PhotoMeta {
    pub width: u32,
    pub height: u32,
    pub fields: PhotoFields,
    pub exif: Option<Vec<(String, String)>>,
}

/// Read a photo's size and EXIF facts from its bytes; `None` where its size cannot be read.
pub fn read_photo_meta(data: &[u8]) -> (r: Option<PhotoMeta>)
    ensures
        image_dims_of(data@) is None <==> r is None,
        r matches Some(m) ==> {
            &&& image_dims_of(data@) == Some((m.width, m.height))
            &&& photo_fields_view(m.fields) == match exif_fields_of(data@) {
                Some(fs) => photo_fields_of(fs),
                None => photo_fields_of(Seq::empty()),
            }
            &&& match (m.exif, exif_fields_of(data@)) {
                (Some(v), Some(fs)) => v@.len() == fs.len() && forall|k: int|
                    0 <= k < fs.len() ==> (#[trigger] v@[k]).0@ == fs[k].0 && v@[k].1@ == fs[k].1,
                (None, None) => true,
                _ => false,
            }
        },
{
    let (width, height) = match image_dimensions(data) {
        Some(d) => d,
        None => return None,
    };
    match exif_fields(data) {
        Some(fields) => {
            let pf = photo_fields(&fields);
            let mut pairs: Vec<(String, String)> = Vec::new();
            let mut i: usize = 0;
            while i < fields.len()
                invariant
                    i <= fields.len(),
                    pairs@.len() == i,
                    forall|k: int| 0 <= k < i ==> (#[trigger] pairs@[k]).0@ == fields@[k].0@ && pairs@[k].1@ == fields@[k].1@,
                decreases fields.len() - i,
            {
                let (tag, text, _) = &fields[i];
                pairs.push((tag.clone(), text.clone()));
                i = i + 1;
            }
            Some(PhotoMeta { width, height, fields: pf, exif: Some(pairs) })
        },
        None => {
            let empty: Vec<(String, String, Option<Vec<u16>>)> = Vec::new();
            let pf = photo_fields(&empty);
            proof {
                assert(exif_fields_view(empty@) =~= Seq::empty());
            }
            Some(PhotoMeta { width, height, fields: pf, exif: None })
        },
    }
}

} // verus!

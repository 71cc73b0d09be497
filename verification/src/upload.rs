//! Uploads into the media library: where a file is stored, which temporary files an upload
//! uses, what status a new record starts in, and which requests are well-formed.
use vstd::prelude::*;

use crate::path_id::{path_file_name, strip_tail_chars};
use crate::storage::{file_extension, file_extension_of};
use crate::text::{
    char_utf8_width, chars_of, find_after_last, lemma_after_last_index, lemma_encode_utf8_single,
    lemma_utf8_len_add, parse_u64, parse_u64_spec, push_chars, push_decimal, push_str,
    push_zero_padded, replace_char, replace_chars, starts_with, string_from_chars, sub_chars,
    utf8_len, utf8_width, zero_padded, decimal, chars_start_with,
};

verus! {

broadcast use vstd::string::group_string_axioms;

// ───────────────────────── identifiers ─────────────────────────

/// A lower-case hexadecimal digit.
pub open spec fn is_lower_hex(c: char) -> bool {
    ('0' <= c <= '9') || ('a' <= c <= 'f')
}

/// The hyphenated text of a UUID: 36 characters, hyphens at 8, 13, 18 and 23, lower-case
/// hexadecimal digits elsewhere.
pub open spec fn is_hyphenated_uuid(s: Seq<char>) -> bool {
    s.len() == 36 && forall|i: int|
        0 <= i < 36 ==> if i == 8 || i == 13 || i == 18 || i == 23 {
            #[trigger] s[i] == '-'
        } else {
            is_lower_hex(s[i])
        }
}

/// `Uuid::new_v4().to_string()`: a random UUID in its hyphenated lower-case form.
#[verifier::external_body]
pub(crate) fn new_uuid() -> (r: String)
    ensures
        is_hyphenated_uuid(r@),
{
    uuid::Uuid::new_v4().to_string()
}

/// A hexadecimal digit of either case.
pub open spec fn is_hex_digit(c: char) -> bool {
    ('0' <= c && c <= '9') || ('a' <= c && c <= 'f') || ('A' <= c && c <= 'F')
}

/// The hyphenated form: 36 characters, `-` at 8, 13, 18 and 23, hex digits elsewhere.
pub open spec fn uuid_hyphenated_text(s: Seq<char>) -> bool {
    &&& s.len() == 36
    &&& forall|i: int| 0 <= i < 36 ==> if i == 8 || i == 13 || i == 18 || i == 23 {
        #[trigger] s[i] == '-'
    } else {
        is_hex_digit(s[i])
    }
}

/// `c` is the ASCII letter or sign `l` (given in lower case), in either case.
pub open spec fn ascii_caseless(c: char, l: char) -> bool {
    c == l || ('a' <= l && l <= 'z' && c as int == l as int - 32)
}

/// The texts that `Uuid::parse_str` accepts: 32 hex digits; the hyphenated form; the
/// hyphenated form in braces; or `urn:uuid:` (in any letter case) before the hyphenated form.
pub open spec fn uuid_text_valid(s: Seq<char>) -> bool {
    ||| s.len() == 32 && forall|i: int| 0 <= i < 32 ==> is_hex_digit(#[trigger] s[i])
    ||| uuid_hyphenated_text(s)
    ||| s.len() == 38 && s[0] == '{' && s[37] == '}' && uuid_hyphenated_text(s.subrange(1, 37))
    ||| s.len() == 45 && (forall|i: int| 0 <= i < 9 ==> ascii_caseless(#[trigger] s[i], "urn:uuid:"@[i]))
        && uuid_hyphenated_text(s.subrange(9, 45))
}

/// `Uuid::parse_str(s).is_ok()`. Its length test is on bytes, but every accepted form is ASCII,
/// so counting characters accepts the same texts.
#[verifier::external_body]
fn uuid_parses(s: &str) -> (r: bool)
    ensures
        r == uuid_text_valid(s@),
{
    uuid::Uuid::parse_str(s).is_ok()
}

/// A fresh id for a new record: a random UUID in its hyphenated lower-case form, which
/// `Uuid::parse_str` reads back.
pub fn new_record_id() -> (r: String)
    ensures
        is_hyphenated_uuid(r@),
        uuid_text_valid(r@),
{
    let r = new_uuid();
    proof {
        assert(uuid_hyphenated_text(r@));
    }
    r
}

// ───────────────────────── storage layout ─────────────────────────

/// The extension a stored copy keeps: the original name's, else `bin`.
pub open spec fn stored_extension(original_name: Seq<char>) -> Seq<char> {
    match file_extension_of(path_file_name(original_name)) {
        Some(e) => e,
        None => "bin"@,
    }
}

/// The first two bytes of the hash text fall on a character boundary (or it is shorter).
pub open spec fn hash_prefix_splits(h: Seq<char>) -> bool {
    utf8_len(h) >= 2 ==> (char_utf8_width(h[0]) == 2 || (char_utf8_width(h[0]) == 1 && h.len() >= 2
        && char_utf8_width(h[1]) == 1))
}

/// The first two bytes of the hash text, or `xx` when it is shorter.
pub open spec fn hash_prefix_of(h: Seq<char>) -> Seq<char> {
    if utf8_len(h) < 2 {
        "xx"@
    } else if char_utf8_width(h[0]) == 2 {
        h.take(1)
    } else {
        h.take(2)
    }
}

/// Where an upload is stored.
pub struct StorageLayout {
    /// `<uuid>.<ext>`
    pub filename: String,
    /// `<user>/<YYYY>/<MM>/<DD>/<hash prefix>/<uuid>`
    pub storage_dir: String,
    /// `<storage_dir>/<filename>`
    pub storage_path: String,
}

/// The stored file name of an upload.
pub open spec fn stored_filename_of(file_uuid: Seq<char>, original_name: Seq<char>) -> Seq<char> {
    file_uuid + "."@ + stored_extension(original_name)
}

/// A year as chrono's `%Y` writes it: four digits with leading zeros for 0 to 9999; outside
/// that range a sign, then at least four digits (`+10000`, `-0044`).
pub open spec fn year_text(year: int) -> Seq<char> {
    if 0 <= year <= 9999 {
        zero_padded(year as nat, 4)
    } else if year > 9999 {
        "+"@ + zero_padded(year as nat, 4)
    } else {
        "-"@ + zero_padded((-year) as nat, 4)
    }
}

fn push_year(v: &mut Vec<char>, year: i32)
    ensures
        final(v)@ == old(v)@ + year_text(year as int),
{
    if 0 <= year && year <= 9999 {
        push_zero_padded(v, year as u64, 4);
    } else if year > 9999 {
        push_str(v, "+");
        push_zero_padded(v, year as u64, 4);
        proof {
            reveal_strlit("+");
        }
    } else {
        push_str(v, "-");
        let magnitude: u64 = (0 - (year as i64)) as u64;
        push_zero_padded(v, magnitude, 4);
        proof {
            reveal_strlit("-");
        }
    }
}

/// The directory an upload is stored in, dated `year/month/day` as chrono's `%Y`, `%m`, `%d`
/// write them; `:` in the user id becomes `_`.
pub open spec fn storage_dir_of(user_id: Seq<char>, file_uuid: Seq<char>, file_hash: Seq<char>, year: int, month: nat, day: nat) -> Seq<char> {
    replace_char(user_id, ':', '_') + "/"@ + year_text(year) + "/"@ + zero_padded(month, 2) + "/"@
        + zero_padded(day, 2) + "/"@ + hash_prefix_of(file_hash) + "/"@ + file_uuid
}

/// The first two bytes of the hash text.
fn hash_prefix(h: &Vec<char>) -> (r: Vec<char>)
    requires
        hash_prefix_splits(h@),
    ensures
        r@ == hash_prefix_of(h@),
{
    proof {
        if h@.len() >= 1 {
            assert(h@ =~= seq![h@[0]] + h@.drop_first());
            lemma_utf8_len_add(seq![h@[0]], h@.drop_first());
            lemma_encode_utf8_single(h@[0]);
        }
        if h@.len() >= 2 {
            assert(h@.drop_first() =~= seq![h@[1]] + h@.skip(2));
            lemma_utf8_len_add(seq![h@[1]], h@.skip(2));
            lemma_encode_utf8_single(h@[1]);
        }
        if h@.len() == 1 {
            assert(h@.drop_first() =~= Seq::<char>::empty());
        }
        if h@.len() == 0 {
            assert(utf8_len(h@) == 0);
        }
    }
    let short = h.len() == 0 || (h.len() == 1 && utf8_width(h[0]) == 1);
    if short {
        return chars_of("xx");
    }
    if utf8_width(h[0]) == 2 {
        sub_chars(h, 0, 1)
    } else {
        sub_chars(h, 0, 2)
    }
}

/// Lay out where an upload is stored, on the given date.
pub fn storage_layout(user_id: &str, file_uuid: &str, original_name: &str, file_hash: &str, year: i32, month: u32, day: u32) -> (r:
    StorageLayout)
    requires
        1 <= month <= 12,
        1 <= day <= 31,
        hash_prefix_splits(file_hash@),
    ensures
        r.filename@ == stored_filename_of(file_uuid@, original_name@),
        r.storage_dir@ == storage_dir_of(user_id@, file_uuid@, file_hash@, year as int, month as nat, day as nat),
        r.storage_path@ == r.storage_dir@ + "/"@ + r.filename@,
{
    let name = chars_of(original_name);
    let tail = strip_tail_chars(&name);
    let k = find_after_last(&tail, '/');
    proof {
        lemma_after_last_index(tail@, '/');
    }
    let last = sub_chars(&tail, k, tail.len());
    let ext = match file_extension(&last) {
        Some(e) => e,
        None => chars_of("bin"),
    };
    let mut filename: Vec<char> = Vec::new();
    push_str(&mut filename, file_uuid);
    push_str(&mut filename, ".");
    push_chars(&mut filename, &ext);
    let uid = chars_of(user_id);
    let safe_uid = replace_chars(&uid, ':', '_');
    let hv = chars_of(file_hash);
    let prefix = hash_prefix(&hv);
    let mut dir: Vec<char> = Vec::new();
    push_chars(&mut dir, &safe_uid);
    push_str(&mut dir, "/");
    push_year(&mut dir, year);
    push_str(&mut dir, "/");
    push_zero_padded(&mut dir, month as u64, 2);
    push_str(&mut dir, "/");
    push_zero_padded(&mut dir, day as u64, 2);
    push_str(&mut dir, "/");
    push_chars(&mut dir, &prefix);
    push_str(&mut dir, "/");
    push_str(&mut dir, file_uuid);
    let mut path: Vec<char> = Vec::new();
    push_chars(&mut path, &dir);
    push_str(&mut path, "/");
    push_chars(&mut path, &filename);
    proof {
        assert(filename@ =~= stored_filename_of(file_uuid@, original_name@));
        assert(dir@ =~= storage_dir_of(user_id@, file_uuid@, file_hash@, year as int, month as nat, day as nat));
    }
    StorageLayout {
        filename: string_from_chars(&filename),
        storage_dir: string_from_chars(&dir),
        storage_path: string_from_chars(&path),
    }
}

// ───────────────────────── temporary files ─────────────────────────

/// The temporary file of a whole upload: `<uuid>.bin`.
pub fn temp_file_name(file_uuid: &str) -> (r: String)
    ensures
        r@ == file_uuid@ + ".bin"@,
{
    let mut v: Vec<char> = Vec::new();
    push_str(&mut v, file_uuid);
    push_str(&mut v, ".bin");
    string_from_chars(&v)
}

/// The temporary file of a video's client-made thumbnail: `<uuid>_thumb.bin`.
pub fn thumb_temp_file_name(file_uuid: &str) -> (r: String)
    ensures
        r@ == file_uuid@ + "_thumb.bin"@,
{
    let mut v: Vec<char> = Vec::new();
    push_str(&mut v, file_uuid);
    push_str(&mut v, "_thumb.bin");
    string_from_chars(&v)
}

/// The temporary file of chunk `index` of an upload: `<file id>.part<index>`.
pub fn chunk_file_name(file_id: &str, index: usize) -> (r: String)
    ensures
        r@ == file_id@ + ".part"@ + decimal(index as nat),
{
    let mut v: Vec<char> = Vec::new();
    push_str(&mut v, file_id);
    push_str(&mut v, ".part");
    push_decimal(&mut v, index as u64);
    string_from_chars(&v)
}

/// The chunk files merged into an upload of `total_chunks` chunks, in order.
pub fn chunk_file_names(file_id: &str, total_chunks: usize) -> (r: Vec<String>)
    ensures
        r@.len() == total_chunks,
        forall|i: int| 0 <= i < total_chunks ==> (#[trigger] r@[i])@ == file_id@ + ".part"@ + decimal(i as nat),
{
    let mut r: Vec<String> = Vec::new();
    for i in 0..total_chunks
        invariant
            r@.len() == i,
            forall|k: int| 0 <= k < i ==> (#[trigger] r@[k])@ == file_id@ + ".part"@ + decimal(k as nat),
    {
        r.push(chunk_file_name(file_id, i));
    }
    r
}

// ───────────────────────── records ─────────────────────────

/// Images and videos are processed after upload; other files are ready at once.
pub open spec fn initial_status_of(mime_type: Seq<char>) -> Seq<char> {
    if starts_with(mime_type, "image/"@) || starts_with(mime_type, "video/"@) {
        "processing"@
    } else {
        "ready"@
    }
}

/// The status a new media record starts in.
pub fn initial_status(mime_type: &str) -> (r: &'static str)
    ensures
        r@ == initial_status_of(mime_type@),
{
    let v = chars_of(mime_type);
    if chars_start_with(&v, "image/") || chars_start_with(&v, "video/") {
        "processing"
    } else {
        "ready"
    }
}

/// Whether a MIME type is an image's.
pub fn is_image(mime_type: &str) -> (r: bool)
    ensures
        r == starts_with(mime_type@, "image/"@),
{
    let v = chars_of(mime_type);
    chars_start_with(&v, "image/")
}

/// Whether a MIME type is a video's.
pub fn is_video(mime_type: &str) -> (r: bool)
    ensures
        r == starts_with(mime_type@, "video/"@),
{
    let v = chars_of(mime_type);
    chars_start_with(&v, "video/")
}

// ───────────────────────── requests ─────────────────────────

/// A direct upload needs a file part with a name.
pub fn check_upload(has_file: bool, original_name: &str) -> (r: Result<(), u16>)
    ensures
        r is Ok <==> has_file && original_name@.len() > 0,
        r matches Err(s) ==> s == 400,
{
    if !has_file || original_name.is_empty() {
        Err(400)
    } else {
        Ok(())
    }
}

/// A number field of a multipart form: its `usize` value, or 0 when it does not parse.
pub fn parse_count(text: &str) -> (r: usize)
    ensures
        r == match parse_u64_spec(text@) {
            Some(n) => if n <= usize::MAX {
                n as usize
            } else {
                0usize
            },
            None => 0usize,
        },
{
    let v = chars_of(text);
    match parse_u64(&v) {
        Some(n) => if n <= usize::MAX as u64 {
            n as usize
        } else {
            0
        },
        None => 0,
    }
}

/// A chunk needs a file id that is a UUID and data.
pub fn check_chunk(file_id: &str, has_data: bool) -> (r: Result<(), u16>)
    ensures
        r is Ok <==> file_id@.len() > 0 && has_data && uuid_text_valid(file_id@),
        r matches Err(s) ==> s == 400,
{
    if file_id.is_empty() || !has_data {
        return Err(400);
    }
    if !uuid_parses(file_id) {
        return Err(400);
    }
    Ok(())
}

/// Completing a chunked upload needs a file id that is a UUID, a name and at least one chunk.
pub fn check_complete(file_id: &str, original_name: &str, total_chunks: usize) -> (r: Result<(), u16>)
    ensures
        r is Ok <==> file_id@.len() > 0 && original_name@.len() > 0 && total_chunks > 0
            && uuid_text_valid(file_id@),
        r matches Err(s) ==> s == 400,
{
    if file_id.is_empty() || original_name.is_empty() || total_chunks == 0 {
        return Err(400);
    }
    if !uuid_parses(file_id) {
        return Err(400);
    }
    Ok(())
}

/// What the worker does with an uploaded file.
#[derive(Debug)]
pub enum ProcessingPlan {
    /// Store the original and make thumbnails from it.
    ImageWithThumbnails,
    /// Store the original and make thumbnails from the client's video frame.
    VideoWithThumbnail,
    /// Store the original; the record is then ready.
    StoreOnly,
}

/// The processing of an upload: images get thumbnails; videos get one from the frame the
/// client sent, when it sent one; everything else is only stored.
pub open spec fn plan_of(mime_type: Seq<char>, has_video_thumb: bool) -> ProcessingPlan {
    if starts_with(mime_type, "image/"@) {
        ProcessingPlan::ImageWithThumbnails
    } else if starts_with(mime_type, "video/"@) && has_video_thumb {
        ProcessingPlan::VideoWithThumbnail
    } else {
        ProcessingPlan::StoreOnly
    }
}

/// Plan the processing of an upload by its MIME type and whether a video frame came with it.
pub fn plan_processing(mime_type: &str, has_video_thumb: bool) -> (r: ProcessingPlan)
    ensures
        r == plan_of(mime_type@, has_video_thumb),
{
    if is_image(mime_type) {
        ProcessingPlan::ImageWithThumbnails
    } else if is_video(mime_type) && has_video_thumb {
        ProcessingPlan::VideoWithThumbnail
    } else {
        ProcessingPlan::StoreOnly
    }
}

/// JPEG data starts with the bytes `FF D8 FF`.
pub fn is_jpeg(data: &[u8]) -> (r: bool)
    ensures
        r == (data@.len() >= 3 && data@[0] == 0xFF && data@[1] == 0xD8 && data@[2] == 0xFF),
{
    data.len() >= 3 && data[0] == 0xFF && data[1] == 0xD8 && data[2] == 0xFF
}

} // verus!

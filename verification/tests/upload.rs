use mycloud::upload::{
    check_chunk, check_complete, check_upload, chunk_file_name, chunk_file_names, initial_status,
    is_jpeg, parse_count, plan_processing, storage_layout, temp_file_name, thumb_temp_file_name,
    ProcessingPlan,
};

#[test]
fn layout_of_an_upload() {
    let l = storage_layout("google:42", "uuid-1", "holiday.JPG", "ab12cd", 2026, 3, 7);
    assert_eq!(l.filename, "uuid-1.JPG");
    assert_eq!(l.storage_dir, "google_42/2026/03/07/ab/uuid-1");
    assert_eq!(l.storage_path, "google_42/2026/03/07/ab/uuid-1/uuid-1.JPG");
    let plain = storage_layout("u", "id", "README", "", 999, 12, 31);
    assert_eq!(plain.filename, "id.bin");
    assert_eq!(plain.storage_dir, "u/0999/12/31/xx/id");
    let nested = storage_layout("u", "id", "dir/archive.tar.gz", "é9", 2026, 1, 1);
    assert_eq!(nested.filename, "id.gz");
    assert_eq!(nested.storage_dir, "u/2026/01/01/é/id");
    assert_eq!(storage_layout("u", "id", "a.png", "ab", 10000, 1, 2).storage_dir, "u/+10000/01/02/ab/id");
    assert_eq!(storage_layout("u", "id", "a.png", "ab", -44, 1, 2).storage_dir, "u/-0044/01/02/ab/id");
    assert_eq!(storage_layout("u", "id", "a.png", "ab", 0, 1, 2).storage_dir, "u/0000/01/02/ab/id");
}

#[test]
fn temporary_files() {
    assert_eq!(temp_file_name("x"), "x.bin");
    assert_eq!(thumb_temp_file_name("x"), "x_thumb.bin");
    assert_eq!(chunk_file_name("x", 12), "x.part12");
    assert_eq!(chunk_file_names("x", 3), vec!["x.part0".to_string(), "x.part1".to_string(), "x.part2".to_string()]);
}

#[test]
fn statuses_and_plans() {
    assert_eq!(initial_status("image/png"), "processing");
    assert_eq!(initial_status("video/mp4"), "processing");
    assert_eq!(initial_status("application/pdf"), "ready");
    assert!(matches!(plan_processing("image/png", false), ProcessingPlan::ImageWithThumbnails));
    assert!(matches!(plan_processing("video/mp4", true), ProcessingPlan::VideoWithThumbnail));
    assert!(matches!(plan_processing("video/mp4", false), ProcessingPlan::StoreOnly));
    assert!(is_jpeg(&[0xFF, 0xD8, 0xFF, 0xE0]));
    assert!(!is_jpeg(&[0xFF, 0xD8]));
}

#[test]
fn request_checks() {
    assert_eq!(check_upload(true, "a.jpg"), Ok(()));
    assert_eq!(check_upload(false, "a.jpg"), Err(400));
    assert_eq!(check_upload(true, ""), Err(400));
    let id = "67e55044-10b1-426f-9247-bb680e5fe0c8";
    assert_eq!(check_chunk(id, true), Ok(()));
    assert_eq!(check_chunk("nope", true), Err(400));
    assert_eq!(check_complete(id, "a.jpg", 2), Ok(()));
    assert_eq!(check_complete(id, "a.jpg", 0), Err(400));
    assert_eq!(parse_count("12"), 12);
    assert_eq!(parse_count("+3"), 3);
    assert_eq!(parse_count("-3"), 0);
    assert_eq!(parse_count(""), 0);
}

#[test]
fn chunk_ids_in_every_uuid_form() {
    assert_eq!(check_chunk("936da01f9abd4d9d80c702af85c822a8", true), Ok(()));
    assert_eq!(check_chunk("936DA01F-9ABD-4D9D-80C7-02AF85C822A8", true), Ok(()));
    assert_eq!(check_chunk("{936da01f-9abd-4d9d-80c7-02af85c822a8}", true), Ok(()));
    assert_eq!(check_chunk("URN:uuid:936da01f-9abd-4d9d-80c7-02af85c822a8", true), Ok(()));
    assert_eq!(check_chunk("936da01f-9abd-4d9d-80c7-02af85c822ag", true), Err(400));
    assert_eq!(check_chunk("936da01f-9abd4-d9d-80c7-02af85c822a8", true), Err(400));
    assert_eq!(check_chunk("urn:uuidx936da01f-9abd-4d9d-80c7-02af85c822a8", true), Err(400));
    assert_eq!(check_chunk("(936da01f-9abd-4d9d-80c7-02af85c822a8)", true), Err(400));
    assert_eq!(check_chunk("936da01f-9abd-4d9d-80c7-02af85c822a8", false), Err(400));
}

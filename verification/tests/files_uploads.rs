use admin_backend::download::{file_response_headers, FileDisposition};
use admin_backend::error::{ApiError, ErrorKind};
use admin_backend::files::{
    enabled_roots, file_extension, file_name, file_record, find_root, is_folder_marker_object, join_object_key, join_relative_path,
    mime_type, normalize_relative_path, normalize_required_path, normalize_root,
    parent_relative_path, percent_encode_segment, public_url, sanitize_download_name,
    sanitize_filename, sanitize_upload_filename, FileRootRecord,
};
use admin_backend::uploads::{
    accept_chunk, append_chunk, check_chunk_index, check_chunks_complete, check_profile_matches,
    check_rename_target, check_upload_task, ensure_allowed_extension, ensure_download_url,
    parse_uploaded_chunks, plan_rename, record_chunk, rename_target_name, require_file,
    serialize_uploaded_chunks, size_bytes_i64, sort_chunks, stored_filename, stored_visibility,
    task_chunk_path, upload_limit_bytes, upload_prefix, upload_prefix_now, validate_file_status,
    validate_visibility, CreateUploadTaskParams, UploadPayload, UploadedPart,
    new_upload_record, uploaded_part, StoredObjectInfo,
};

fn bad_request(e: &ApiError, message: &str) -> bool {
    e.kind == ErrorKind::BadRequest && e.message == message
}

#[test]
fn relative_paths_are_normalized() {
    assert_eq!(normalize_relative_path(None).unwrap(), "");
    assert_eq!(normalize_relative_path(Some("  /docs/a.txt/ ")).unwrap(), "docs/a.txt");
    assert_eq!(normalize_relative_path(Some("///")).unwrap(), "");
    assert!(bad_request(&normalize_relative_path(Some("a/../b")).unwrap_err(), "invalid file path"));
    assert!(bad_request(&normalize_relative_path(Some("a//b")).unwrap_err(), "invalid file path"));
    assert!(bad_request(&normalize_relative_path(Some("./a")).unwrap_err(), "invalid file path"));
    assert!(bad_request(&normalize_required_path(" / ").unwrap_err(), "file path is required"));
    assert_eq!(normalize_required_path("a/b").unwrap(), "a/b");
}

#[test]
fn normalized_relative_paths_are_clean() {
    for raw in ["x", "/a/b/", " a.b/c ", "..a/b.."] {
        let p = normalize_relative_path(Some(raw)).unwrap();
        assert!(!p.starts_with('/') && !p.ends_with('/'));
        assert!(p.split('/').all(|seg| !seg.is_empty() && seg != "." && seg != ".."));
    }
}

#[test]
fn path_pieces() {
    assert_eq!(join_relative_path("", "a.txt"), "a.txt");
    assert_eq!(join_relative_path("docs//", "a.txt"), "docs/a.txt");
    assert_eq!(parent_relative_path("a/b/c.txt"), Some("a/b".to_string()));
    assert_eq!(parent_relative_path("c.txt"), None);
    assert_eq!(file_name("a/b/c.txt").unwrap(), "c.txt");
    assert!(bad_request(&file_name("a/b/").unwrap_err(), "invalid file path"));
    assert_eq!(file_extension("Photo.JPG"), Some("jpg".to_string()));
    assert_eq!(file_extension("archive.tar.gz"), Some("gz".to_string()));
    assert_eq!(file_extension("README"), None);
    assert_eq!(file_extension("trailing."), None);
}

#[test]
fn media_types_by_extension() {
    assert_eq!(mime_type("a.PNG"), Some("image/png"));
    assert_eq!(mime_type("notes.md"), Some("text/markdown; charset=utf-8"));
    assert_eq!(mime_type("a.log"), Some("text/plain; charset=utf-8"));
    assert_eq!(mime_type("a.unknown"), None);
    assert_eq!(mime_type("noext"), None);
}

#[test]
fn file_names_are_sanitized() {
    assert_eq!(sanitize_filename("  my file (1).txt "), "my_file__1_.txt");
    assert_eq!(sanitize_filename(".."), "file.bin");
    assert_eq!(sanitize_filename("   "), "file.bin");
    assert_eq!(sanitize_upload_filename(""), "upload.bin");
    assert_eq!(sanitize_upload_filename("a b.png"), "a_b.png");
    assert_eq!(sanitize_download_name("a/b\"c.txt"), "a_b_c.txt");
    assert_eq!(sanitize_download_name("  "), "download");
}

#[test]
fn object_keys() {
    assert!(is_folder_marker_object("photos/"));
    assert!(is_folder_marker_object("photos/.keep"));
    assert!(!is_folder_marker_object("photos/a.keep"));
    assert_eq!(join_object_key(Some(" img/2024/ "), "a.png"), "img/2024/a.png");
    assert_eq!(join_object_key(Some("  "), "a.png"), "a.png");
    assert_eq!(join_object_key(None, "a.png"), "a.png");
}

#[test]
fn percent_encoding() {
    assert_eq!(percent_encode_segment("a b/ü~"), "a%20b%2F%C3%BC~");
    let root = FileRootRecord {
        key: "docs".to_string(),
        name: "Docs".to_string(),
        url_path: "/files/".to_string(),
        local_root: "/srv/docs".to_string(),
        enabled: true,
    };
    assert_eq!(public_url(&root, "a dir/b.txt"), "/files/a%20dir/b.txt");
    assert_eq!(public_url(&root, ""), "/files/");
}

#[test]
fn file_roots_are_checked() {
    let root = FileRootRecord {
        key: " docs ".to_string(),
        name: " Docs ".to_string(),
        url_path: " /files// ".to_string(),
        local_root: " /srv ".to_string(),
        enabled: false,
    };
    let n = normalize_root(root).unwrap();
    assert_eq!((n.key.as_str(), n.name.as_str(), n.url_path.as_str(), n.local_root.as_str()), ("docs", "Docs", "/files", "/srv"));
    assert!(!n.enabled);
    let bad = FileRootRecord {
        key: "k".to_string(),
        name: "n".to_string(),
        url_path: "files".to_string(),
        local_root: "/srv".to_string(),
        enabled: true,
    };
    assert!(bad_request(&normalize_root(bad).unwrap_err(), "file root url_path must start with /"));
    let empty = FileRootRecord {
        key: " ".to_string(),
        name: "n".to_string(),
        url_path: "/f".to_string(),
        local_root: "/srv".to_string(),
        enabled: true,
    };
    assert!(bad_request(&normalize_root(empty).unwrap_err(), "invalid file root configuration"));
}

#[test]
fn response_headers() {
    let h = file_response_headers(FileDisposition::Inline, Some("image/png"), "a.png", true);
    assert_eq!(h.content_type, "image/png");
    assert_eq!(h.content_disposition, "inline; filename=\"a.png\"");
    assert_eq!(h.cache_control.as_deref(), Some("private, no-store"));
    assert!(h.nosniff);
    let h = file_response_headers(FileDisposition::Attachment, None, "a.bin", true);
    assert_eq!(h.content_type, "application/octet-stream");
    assert_eq!(h.content_disposition, "attachment; filename=\"a.bin\"");
    assert_eq!(h.cache_control, None);
    assert!(!h.nosniff);
    assert_eq!(FileDisposition::Inline.log_action(), "preview");
    assert_eq!(FileDisposition::Attachment.as_header_value(), "attachment");
}

#[test]
fn upload_checks() {
    assert!(validate_visibility(Some("public")).is_ok());
    assert!(validate_visibility(None).is_ok());
    assert!(bad_request(&validate_visibility(Some("team")).unwrap_err(), "invalid file visibility"));
    assert!(validate_file_status(Some("deleted")).is_ok());
    assert!(bad_request(&validate_file_status(Some("gone")).unwrap_err(), "invalid file status"));
    assert_eq!(upload_limit_bytes(0), 1024 * 1024);
    assert_eq!(upload_limit_bytes(20), 20 * 1024 * 1024);
    assert!(accept_chunk(10, 5, 15).is_ok());
    assert!(bad_request(&accept_chunk(10, 6, 15).unwrap_err(), "uploaded file is too large"));
    assert!(accept_chunk(usize::MAX, 1, -1).is_ok());
    assert!(check_chunk_index(0, 1).is_ok());
    assert!(bad_request(&check_chunk_index(1, 1).unwrap_err(), "invalid chunk index"));
    assert!(bad_request(&check_chunk_index(-1, 3).unwrap_err(), "invalid chunk index"));
}

#[test]
fn chunks_are_appended_within_the_limit() {
    let mut bytes = vec![1u8, 2];
    assert!(append_chunk(&mut bytes, &[3, 4], 4).is_ok());
    assert_eq!(bytes, vec![1, 2, 3, 4]);
    let e = append_chunk(&mut bytes, &[5], 4).unwrap_err();
    assert!(bad_request(&e, "uploaded file is too large"));
    assert_eq!(bytes, vec![1, 2, 3, 4]);
}

#[test]
fn upload_tasks_are_checked() {
    let mut params = CreateUploadTaskParams {
        storage_bucket_id: 1,
        original_name: "a.bin".to_string(),
        mime_type: None,
        size_bytes: 100,
        chunk_size: 10,
        total_chunks: 10,
        prefix: None,
        category: None,
        tags: None,
        visibility: Some("private".to_string()),
    };
    assert!(check_upload_task(&params, 100).is_ok());
    assert!(bad_request(&check_upload_task(&params, 99).unwrap_err(), "uploaded file is too large"));
    params.total_chunks = 0;
    assert!(bad_request(&check_upload_task(&params, 100).unwrap_err(), "invalid upload task size"));
    params.visibility = Some("x".to_string());
    assert!(bad_request(&check_upload_task(&params, 100).unwrap_err(), "invalid file visibility"));
}

#[test]
fn received_chunks_are_recorded_once_and_sorted() {
    assert_eq!(parse_uploaded_chunks("[2,0]"), vec![2, 0]);
    assert_eq!(parse_uploaded_chunks("not json"), Vec::<i32>::new());
    assert_eq!(serialize_uploaded_chunks(&[0, 1, 2]), "[0,1,2]");
    assert_eq!(sort_chunks(vec![3, 1, 2, 1]), vec![1, 1, 2, 3]);
    let once = record_chunk(vec![2, 0], 1);
    assert_eq!(once, vec![0, 1, 2]);
    let twice = record_chunk(once.clone(), 1);
    assert_eq!(twice, once);
    assert!(check_chunks_complete(&twice, 3).is_ok());
    assert!(bad_request(&check_chunks_complete(&twice, 4).unwrap_err(), "upload task chunks are incomplete"));
}

#[test]
fn allowed_extensions() {
    let setting = "jpg, PNG ,pdf";
    assert!(ensure_allowed_extension(Some("png"), setting).is_ok());
    assert!(ensure_allowed_extension(Some("pdf"), setting).is_ok());
    assert!(bad_request(&ensure_allowed_extension(Some("exe"), setting).unwrap_err(), "uploaded file extension is not allowed"));
    assert!(bad_request(&ensure_allowed_extension(None, setting).unwrap_err(), "uploaded file extension is required"));
}

#[test]
fn stored_names_and_paths() {
    assert_eq!(stored_filename("u1", "a b.png"), "u1-a_b.png");
    assert_eq!(task_chunk_path(7, 3), "storage/upload_tasks/7/3.part");
    assert_eq!(ensure_download_url("", 9), Some("/api/admin/uploads/9/download".to_string()));
    assert_eq!(ensure_download_url("https://cdn/x", 9), None);
    assert_eq!(stored_visibility(None), "private");
    assert_eq!(stored_visibility(Some("public".to_string())), "public");
    assert_eq!(size_bytes_i64(12), 12);
    assert_eq!(upload_prefix(None, "2024/05".to_string()), "2024/05");
    assert_eq!(upload_prefix(Some("img".to_string()), "2024/05".to_string()), "img");
    assert_eq!(upload_prefix_now(Some("img".to_string())), "img");
    let now = upload_prefix_now(None);
    assert_eq!(now.len(), 7);
    assert_eq!(now.as_bytes()[4], b'/');
}

#[test]
fn upload_form_fields() {
    let mut p = UploadPayload::new();
    assert!(p.set_field("storage_bucket_id", " 12 ").is_ok());
    assert_eq!(p.storage_bucket_id, Some(12));
    assert!(p.set_field("category", "  banners ").is_ok());
    assert_eq!(p.category.as_deref(), Some("banners"));
    assert!(p.set_field("tags", "   ").is_ok());
    assert_eq!(p.tags, None);
    assert!(p.set_field("unknown", "x").is_ok());
    let e = p.set_field("storage_profile_id", "abc").unwrap_err();
    assert!(bad_request(&e, "invalid storage_profile_id"));
    assert_eq!(p.storage_profile_id, None);
    let e = p.set_field("visibility", "team").unwrap_err();
    assert!(bad_request(&e, "invalid file visibility"));
    assert!(p.set_field("visibility", "public").is_ok());
    assert_eq!(p.visibility.as_deref(), Some("public"));
    assert!(bad_request(&require_file(None).unwrap_err(), "file field is required"));
    let part = UploadedPart { original_name: "a.png".to_string(), mime_type: None, bytes: vec![1] };
    assert_eq!(require_file(Some(part)).unwrap().original_name, "a.png");
    assert!(check_profile_matches(None, 3).is_ok());
    assert!(check_profile_matches(Some(3), 3).is_ok());
    assert!(bad_request(&check_profile_matches(Some(4), 3).unwrap_err(), "storage profile does not match bucket"));
}

#[test]
fn renames_are_planned() {
    assert!(bad_request(&rename_target_name("  ").unwrap_err(), "file name is required"));
    assert_eq!(rename_target_name(" new name.png ").unwrap(), "new name.png");
    let plan = plan_rename("new name.PNG", "active", Some("img/"), "img/old.png", "png,jpg").unwrap();
    assert_eq!(plan.filename, "new_name.PNG");
    assert_eq!(plan.extension.as_deref(), Some("png"));
    assert_eq!(plan.target_key, "img/new_name.PNG");
    assert!(plan.moves);
    let same = plan_rename("old.png", "active", Some("img"), "img/old.png", "png").unwrap();
    assert!(!same.moves);
    assert!(bad_request(&plan_rename("a.png", "deleted", None, "a.png", "png").unwrap_err(), "file is not active"));
    assert!(bad_request(&plan_rename("a.exe", "active", None, "a.png", "png").unwrap_err(), "uploaded file extension is not allowed"));
    assert!(bad_request(&plan_rename("a", "active", None, "a.png", "png").unwrap_err(), "uploaded file extension is required"));
    assert!(check_rename_target(false, false).is_ok());
    assert!(bad_request(&check_rename_target(true, true).unwrap_err(), "target object already imported"));
    assert!(bad_request(&check_rename_target(false, true).unwrap_err(), "target object already exists"));
}

fn root(key: &str, url_path: &str, enabled: bool) -> FileRootRecord {
    FileRootRecord {
        key: key.to_string(),
        name: format!("Root {key}"),
        url_path: url_path.to_string(),
        local_root: "/srv/files".to_string(),
        enabled,
    }
}

#[test]
fn enabled_roots_are_normalized_and_found() {
    let roots = enabled_roots(vec![root(" a ", "/a/", true), root("b", "b", false), root("c", "/c", true)]).unwrap();
    assert_eq!(roots.iter().map(|r| r.key.as_str()).collect::<Vec<_>>(), vec!["a", "c"]);
    assert_eq!(roots[0].url_path, "/a");
    let e = enabled_roots(vec![root("a", "/a", true), root("x", "no-slash", true)]).unwrap_err();
    assert!(bad_request(&e, "file root url_path must start with /"));
    assert_eq!(find_root(roots, "c").unwrap().url_path, "/c");
    let roots = enabled_roots(vec![root("a", "/a", true)]).unwrap();
    assert!(bad_request(&find_root(roots, "z").unwrap_err(), "file root not found"));
}

#[test]
fn file_records_describe_entries() {
    let r = root("docs", "/files", true);
    let f = file_record(&r, "a dir/Report.PDF", "Report.PDF", false, true, 42, Some("t".to_string()));
    assert_eq!((f.url.as_str(), f.extension.as_deref(), f.mime_type.as_deref(), f.size_bytes), ("/files/a%20dir/Report.PDF", Some("pdf"), Some("application/pdf"), 42));
    let d = file_record(&r, "a dir", "a dir", true, false, 4096, None);
    assert_eq!((d.is_dir, d.extension, d.mime_type, d.size_bytes), (true, None, None, 0));
    let big = file_record(&r, "x.bin", "x.bin", false, true, u64::MAX, None);
    assert_eq!(big.size_bytes, i64::MAX);
}

#[test]
fn normalizing_a_normalized_path_keeps_it() {
    for p in ["  /docs//", "/a/b/c.txt/", "x", "", "///"] {
        let once = normalize_relative_path(Some(p)).unwrap();
        assert_eq!(normalize_relative_path(Some(&once)).unwrap(), once);
    }
}

#[test]
fn joined_paths_split_back() {
    let joined = join_relative_path("docs/sub", "a.txt");
    assert_eq!(joined, "docs/sub/a.txt");
    assert_eq!(parent_relative_path(&joined), Some("docs/sub".to_string()));
    assert_eq!(file_name(&joined).unwrap(), "a.txt");
    let alone = join_relative_path("", "a.txt");
    assert_eq!(parent_relative_path(&alone), None);
    assert_eq!(file_name(&alone).unwrap(), "a.txt");
}

#[test]
fn percent_encoding_uses_only_safe_characters() {
    let e = percent_encode_segment("a b/\u{fc}~x");
    assert_eq!(e, "a%20b%2F%C3%BC~x");
    let mut chars = e.chars().peekable();
    while let Some(c) = chars.next() {
        if c == '%' {
            for _ in 0..2 {
                let h = chars.next().unwrap();
                assert!(h.is_ascii_digit() || ('A'..='F').contains(&h));
            }
        } else {
            assert!(c.is_ascii_alphanumeric() || "-_.~".contains(c));
        }
    }
}

#[test]
fn sanitized_names_are_stable() {
    for name in [" my report(1).pdf ", "..", "", "a/b\\c", "  .  "] {
        let once = sanitize_filename(name);
        assert!(!once.is_empty() && once != "." && once != "..");
        assert!(once.chars().all(|c| c.is_ascii_alphanumeric() || ".-_".contains(c)));
        assert_eq!(sanitize_filename(&once), once);
    }
    assert_eq!(sanitize_filename(" my report(1).pdf "), "my_report_1_.pdf");
}

#[test]
fn upload_prefix_today_is_a_year_month_path() {
    let p = upload_prefix_now(None);
    assert_eq!(p.len(), 7);
    assert_eq!(&p[4..5], "/");
    assert!(p[..4].chars().chain(p[5..].chars()).all(|c| c.is_ascii_digit()));
    assert_eq!(upload_prefix_now(Some("x/y".to_string())), "x/y");
}

#[test]
fn upload_records_are_assembled() {
    let part = uploaded_part(None, Some("text/plain".to_string()), b"abc".to_vec());
    assert_eq!(part.original_name, "upload.bin");
    let named = uploaded_part(Some("Photo.JPG".to_string()), None, Vec::new());
    assert_eq!(named.original_name, "Photo.JPG");
    let mut form = UploadPayload::new();
    form.set_field("category", " docs ").unwrap();
    let stored = StoredObjectInfo {
        bucket: "b1".to_string(),
        prefix: Some("2024/05".to_string()),
        etag: Some("e".to_string()),
        object_key: "2024/05/k-upload.bin".to_string(),
        url: "https://x/k".to_string(),
    };
    let r = new_upload_record(form, part, "k-upload.bin".to_string(), "s3".to_string(), 7, 8, stored, 3);
    assert_eq!((r.storage.as_str(), r.storage_profile_id, r.storage_bucket_id), ("s3", Some(7), Some(8)));
    assert_eq!((r.bucket.as_deref(), r.object_key.as_str()), (Some("b1"), "2024/05/k-upload.bin"));
    assert_eq!((r.original_name.as_str(), r.filename.as_str()), ("upload.bin", "k-upload.bin"));
    assert_eq!(r.extension.as_deref(), Some("bin"));
    assert_eq!(r.size_bytes, 3);
    assert_eq!(r.sha256, "ba7816bf8f01cfea414140de5dae2223b00361a396177a9cb410ff61f20015ad");
    assert_eq!(r.category.as_deref(), Some("docs"));
    assert_eq!((r.visibility.as_str(), r.status.as_str(), r.uploader_id), ("private", "active", Some(3)));
}

use admin_backend::ai_images::{
    add_config, ai_image_response_error, check_generated_file_profile, generated_file_bucket,
    generation_source, generation_step, GenerationAction, GenerationEvent, GenerationSource,
    GenerationStage, build_config, build_generation_url,
    build_reference_summary, clamp_image_count, count_i32, generated_filename,
    generated_filename_from, generated_images, local_output_dir, normalize_config_key,
    normalize_storage_prefix, payload_field, read_failure_message, reference_image,
    remove_config, replace_config, save_mode_of, select_generation_config, storage_bucket_of,
    summarize_remote_error, AiImageConfig, AiImageConfigRecord, EffectiveGenerationParams,
    GenerationPayloadForm, PayloadField, SaveAiImageConfigParams, SaveMode,
    event_answers, generation_request_images, UploadedReferenceImage,
};
use admin_backend::commands::{
    ad_hoc_run_request, artifact_headers, build_template_command_line, check_workflow_header,
    check_workflow_step, file_name_of_path, preview_path_of, template_run_request,
    validate_template, workflow_run_name, workflow_step_rows, CommandRunLogQueryParams,
    CommandTemplate, RunCommandParams, SaveCommandTemplateParams, SaveCommandWorkflowParams,
    SaveCommandWorkflowStepParams,
};
use admin_backend::error::{ApiError, ErrorKind};
use admin_backend::scope::EffectiveDataScope;
use admin_backend::storage_profiles::{
    check_bucket_delete, check_profile_delete, check_same_tenant, default_bucket_tenant, masked_secret,
    profile_fields,
    validate_bucket, validate_profile, SaveStorageBucketParams, SaveStorageProfileParams,
};

fn is_err(e: &ApiError, kind: ErrorKind, message: &str) -> bool {
    e.kind == kind && e.message == message
}

fn bad(e: &ApiError, message: &str) -> bool {
    is_err(e, ErrorKind::BadRequest, message)
}

fn params(key: &str) -> SaveAiImageConfigParams {
    SaveAiImageConfigParams {
        key: key.to_string(),
        name: " Studio ".to_string(),
        enabled: None,
        base_url: "https://api.example.com/v1/".to_string(),
        api_key: Some(" sk-1 ".to_string()),
        model: None,
        size: Some("  ".to_string()),
        quality: Some("low".to_string()),
        n: Some(50),
        save_mode: "local".to_string(),
        local_output_dir: Some(" out ".to_string()),
        storage_bucket_id: None,
        storage_prefix: Some(" /gen/ ".to_string()),
        description: None,
    }
}

#[test]
fn configuration_keys() {
    assert_eq!(normalize_config_key("  studio-1 ").unwrap(), "studio-1");
    assert!(bad(&normalize_config_key(" ").unwrap_err(), "key is required"));
    assert!(bad(&normalize_config_key("-x").unwrap_err(), "invalid ai image config key"));
    assert!(bad(&normalize_config_key("a b").unwrap_err(), "invalid ai image config key"));
    assert_eq!(clamp_image_count(0), 1);
    assert_eq!(clamp_image_count(11), 10);
    assert_eq!(normalize_storage_prefix(Some(" //a/b// ".to_string())).as_deref(), Some("a/b/"));
    assert_eq!(normalize_storage_prefix(Some(" / ".to_string())), None);
}

#[test]
fn configurations_are_built() {
    let c = build_config(&params(" main "), None).unwrap();
    assert_eq!((c.key.as_str(), c.name.as_str(), c.api_key.as_str()), ("main", "Studio", "sk-1"));
    assert_eq!((c.model.as_str(), c.size.as_str(), c.quality.as_str(), c.n), ("gpt-image-2", "1024x1536", "low", 10));
    assert_eq!((c.local_output_dir.as_deref(), c.storage_prefix.as_deref(), c.enabled), (Some("out"), Some("gen/"), true));
    let mut update = params("main");
    update.api_key = None;
    update.quality = None;
    let again = build_config(&update, Some(&c)).unwrap();
    assert_eq!((again.api_key.as_str(), again.quality.as_str()), ("sk-1", "low"));
    assert!(bad(&build_config(&update, None).unwrap_err(), "api_key is required"));
    let mut storage = params("s");
    storage.save_mode = "storage".to_string();
    assert!(bad(&build_config(&storage, None).unwrap_err(), "storage_bucket_id is required for storage save mode"));
    storage.save_mode = "ftp".to_string();
    assert!(bad(&build_config(&storage, None).unwrap_err(), "invalid ai image save mode"));
    let mut local = params("l");
    local.local_output_dir = None;
    assert!(bad(&build_config(&local, None).unwrap_err(), "local_output_dir is required for local save mode"));
    let record = AiImageConfigRecord::from_config(c);
    assert!(record.api_key_configured);
}

fn config(key: &str, enabled: bool) -> AiImageConfig {
    let mut c = build_config(&params(key), None).unwrap();
    c.enabled = enabled;
    c
}

#[test]
fn configuration_lists_keep_keys_unique() {
    let mut configs = vec![config("a", true)];
    assert!(add_config(&mut configs, config("b", false)).is_ok());
    assert!(bad(&add_config(&mut configs, config("a", true)).unwrap_err(), "ai image config key already exists"));
    assert_eq!(configs.len(), 2);
    let mut to_c = params("c");
    to_c.enabled = Some(true);
    let saved = replace_config(&mut configs, "b", &to_c).unwrap();
    assert_eq!(saved.key, "c");
    assert!(bad(&replace_config(&mut configs, "c", &params("a")).unwrap_err(), "ai image config key already exists"));
    assert!(bad(&replace_config(&mut configs, "zz", &params("q")).unwrap_err(), "ai image config not found"));
    let keys: Vec<_> = configs.iter().map(|c| c.key.clone()).collect();
    assert_eq!(keys, vec!["a", "c"]);
    let kept = replace_config(&mut configs, "c", &params("c")).unwrap();
    assert_eq!(kept.key, "c");
    assert_eq!(configs.len(), 2);
    assert!(remove_config(&mut configs, "a").is_ok());
    assert!(bad(&remove_config(&mut configs, "a").unwrap_err(), "ai image config not found"));
    configs.push(config("off", false));
    assert_eq!(select_generation_config(&configs, "c").unwrap().key, "c");
    assert!(bad(&select_generation_config(&configs, "off").unwrap_err(), "ai image config is disabled"));
    assert!(bad(&select_generation_config(&configs, "nope").unwrap_err(), "ai image config not found"));
}

#[test]
fn generation_requests() {
    let c = config("g", true);
    let p = EffectiveGenerationParams::new(&c, "  a cat ", None, Some("512x512".to_string()), None, Some(0)).unwrap();
    assert_eq!((p.prompt.as_str(), p.model.as_str(), p.size.as_str(), p.quality.as_str(), p.n), ("a cat", "gpt-image-2", "512x512", "low", 1));
    assert!(bad(&EffectiveGenerationParams::new(&c, " ", None, None, None, None).unwrap_err(), "prompt is required"));
    assert_eq!(build_generation_url("https://x/v1//", false), "https://x/v1/images/generations");
    assert_eq!(build_generation_url("https://x/v1/images/edits/", true), "https://x/v1/images/edits");
    assert_eq!(build_reference_summary(2, 1).as_deref(), Some("uploaded:2, library:1"));
    assert_eq!(build_reference_summary(0, 3).as_deref(), Some("library:3"));
    assert_eq!(build_reference_summary(0, 0), None);
    assert_eq!(summarize_remote_error("   "), "empty response body");
    assert_eq!(summarize_remote_error(&"y".repeat(2500)).len(), 2000);
    let e = ai_image_response_error("upstream request failed", "https://x", 500, " oops ");
    assert!(bad(&e, "upstream request failed: url=https://x, status=500, body=oops"));
}

#[test]
fn provider_replies_are_read() {
    let ok = generated_images("u", 200, "{}", Some(vec![Some(" aGk= ".to_string()), Some("AAE=".to_string())])).unwrap();
    assert_eq!(ok, vec![b"hi".to_vec(), vec![0u8, 1]]);
    let e = generated_images("u", 502, "down", None).unwrap_err();
    assert!(bad(&e, "upstream request failed: url=u, status=502, body=down"));
    let e = generated_images("u", 200, "x", None).unwrap_err();
    assert!(bad(&e, "invalid ai image response: url=u, status=200, body=x"));
    let e = generated_images("u", 200, "b", Some(vec![Some("aGk=".to_string()), None])).unwrap_err();
    assert!(bad(&e, "ai image response is missing b64_json: url=u, status=200, body=b"));
    let e = generated_images("u", 200, "b", Some(vec![Some("!!".to_string())])).unwrap_err();
    assert!(bad(&e, "failed to decode ai image response: url=u, status=200, body=b"));
    let e = generated_images("u", 200, "b", Some(vec![])).unwrap_err();
    assert!(bad(&e, "ai image response returned no images: url=u, status=200, body=b"));
}

#[test]
fn generated_names() {
    assert_eq!(generated_filename_from("20240101120000", 2, "abc"), "ai-image-20240101120000-2-abc.png");
    assert_eq!(generated_filename_from("20240101120000", 0, "abc"), "ai-image-20240101120000-abc.png");
    let name = generated_filename(3);
    assert!(name.starts_with("ai-image-") && name.ends_with(".png"));
    let parts: Vec<&str> = name.trim_end_matches(".png").split('-').collect();
    assert_eq!(parts.len(), 5);
    assert_eq!(parts[2].len(), 14);
    assert_eq!(parts[3], "3");
    assert_eq!(parts[4].len(), 32);
    assert!(parts[4].chars().all(|c| c.is_ascii_hexdigit() && !c.is_ascii_uppercase()));
    assert_eq!(count_i32(5), 5);
    assert_eq!(count_i32(usize::MAX), i32::MAX);
}

#[test]
fn generation_forms() {
    assert_eq!(payload_field("reference_upload_ids[]"), PayloadField::ReferenceUploadId);
    assert_eq!(payload_field("n"), PayloadField::Count);
    assert_eq!(payload_field("other"), PayloadField::Other);
    assert_eq!(read_failure_message(PayloadField::Image).as_deref(), Some("failed to read uploaded file"));
    assert_eq!(read_failure_message(PayloadField::Other), None);
    let mut form = GenerationPayloadForm::new();
    form.accept_text(PayloadField::ConfigKey, " main ".to_string()).unwrap();
    form.accept_text(PayloadField::Prompt, " draw ".to_string()).unwrap();
    form.accept_text(PayloadField::Size, "  ".to_string()).unwrap();
    form.accept_text(PayloadField::Count, "3".to_string()).unwrap();
    form.accept_text(PayloadField::ReferenceUploadId, "7".to_string()).unwrap();
    assert!(bad(&form.accept_text(PayloadField::Count, "x".to_string()).unwrap_err(), "invalid n"));
    assert!(bad(&form.accept_text(PayloadField::ReferenceUploadId, "x".to_string()).unwrap_err(), "invalid reference_upload_ids"));
    form.add_image(reference_image(None, None, vec![1, 2]));
    let p = form.finish().unwrap();
    assert_eq!((p.config_key.as_str(), p.prompt.as_str(), p.size, p.n), ("main", "draw", None, Some(3)));
    assert_eq!(p.reference_upload_ids, vec![7]);
    assert_eq!(p.uploaded_images[0].original_name, "reference.png");
    let empty = GenerationPayloadForm::new();
    assert!(bad(&empty.finish().unwrap_err(), "config_key is required"));
}

#[test]
fn save_targets() {
    assert!(matches!(save_mode_of("local").unwrap(), SaveMode::Local));
    assert!(matches!(save_mode_of("storage").unwrap(), SaveMode::Storage));
    assert!(bad(&save_mode_of("s3").unwrap_err(), "invalid ai image save mode"));
    let c = config("x", true);
    assert_eq!(local_output_dir(&c).unwrap(), "out");
    assert!(bad(&storage_bucket_of(&c).unwrap_err(), "storage bucket is required"));
}

fn template_params() -> SaveCommandTemplateParams {
    SaveCommandTemplateParams {
        name: "Build".to_string(),
        code: "build".to_string(),
        description: None,
        working_directory: "/srv/app".to_string(),
        command: "make".to_string(),
        default_args: Some("all".to_string()),
        env_vars: Some("{\"A\":\"1\"}".to_string()),
        setup_script: None,
        python_venv_path: None,
        timeout_seconds: Some(60),
        preview_path_template: None,
        enabled: None,
    }
}

#[test]
fn command_templates() {
    assert!(validate_template(&template_params()).is_ok());
    let mut p = template_params();
    p.env_vars = Some("[1]".to_string());
    assert!(bad(&validate_template(&p).unwrap_err(), "env_vars must be a JSON object"));
    p.timeout_seconds = Some(0);
    p.env_vars = None;
    assert!(bad(&validate_template(&p).unwrap_err(), "timeout_seconds must be positive"));
    p.command = " ".to_string();
    assert!(bad(&validate_template(&p).unwrap_err(), "name, code, working directory and command are required"));
    assert_eq!(build_template_command_line("make", Some("all")), "make all");
    assert_eq!(build_template_command_line("make", Some("  ")), "make");
    assert_eq!(build_template_command_line("make", None), "make");
    assert_eq!(CommandRunLogQueryParams { after_seq: None, limit: None }.log_limit(), 500);
    assert_eq!(CommandRunLogQueryParams { after_seq: None, limit: Some(9999) }.log_limit(), 2000);
}

fn template(enabled: bool) -> CommandTemplate {
    CommandTemplate {
        id: 4,
        name: "Build".to_string(),
        working_directory: "/srv/app".to_string(),
        command: "make".to_string(),
        default_args: Some("all".to_string()),
        env_vars: None,
        setup_script: None,
        python_venv_path: None,
        timeout_seconds: Some(60),
        preview_path_template: None,
        enabled,
    }
}

fn run_params() -> RunCommandParams {
    RunCommandParams {
        name: None,
        working_directory: None,
        command_line: None,
        setup_script: None,
        python_venv_path: None,
        env_vars: None,
        timeout_seconds: None,
        preview_path_template: None,
    }
}

#[test]
fn command_runs() {
    let q = template_run_request(template(true), run_params(), 2).unwrap();
    assert_eq!((q.name.as_str(), q.command_line.as_str(), q.triggered_by.as_str(), q.template_id, q.created_by), ("Build", "make all", "manual", Some(4), Some(2)));
    let mut p = run_params();
    p.command_line = Some("make test".to_string());
    assert_eq!(template_run_request(template(true), p, 2).unwrap().command_line, "make test");
    assert!(bad(&template_run_request(template(false), run_params(), 2).unwrap_err(), "command template is disabled"));
    assert!(bad(&ad_hoc_run_request(run_params(), 2).unwrap_err(), "command line is required"));
    let mut p = run_params();
    p.command_line = Some("ls".to_string());
    assert!(bad(&ad_hoc_run_request(p, 2).unwrap_err(), "working directory is required"));
    let mut p = run_params();
    p.command_line = Some("ls".to_string());
    p.working_directory = Some("/tmp".to_string());
    assert_eq!(ad_hoc_run_request(p, 2).unwrap().name, "临时命令");
    assert_eq!(workflow_run_name(true, None, "Deploy".to_string()).unwrap(), "Deploy");
    assert!(bad(&workflow_run_name(false, None, "Deploy".to_string()).unwrap_err(), "command workflow is disabled"));
}

fn step(name: &str, sort_order: i32, enabled: Option<bool>) -> SaveCommandWorkflowStepParams {
    SaveCommandWorkflowStepParams {
        id: None,
        template_id: 1,
        name: name.to_string(),
        sort_order,
        args: None,
        env_vars: None,
        working_directory: None,
        timeout_seconds: None,
        enabled,
    }
}

#[test]
fn command_workflows() {
    let w = SaveCommandWorkflowParams {
        name: "Deploy".to_string(),
        code: "deploy".to_string(),
        description: None,
        enabled: None,
        steps: vec![step("a", 1, Some(false)), step("b", 2, None)],
    };
    assert_eq!(check_workflow_header(&w).unwrap(), vec![1]);
    let off = SaveCommandWorkflowParams {
        name: "Deploy".to_string(),
        code: "deploy".to_string(),
        description: None,
        enabled: None,
        steps: vec![step("a", 1, Some(false))],
    };
    assert!(bad(&check_workflow_header(&off).unwrap_err(), "workflow must have enabled steps"));
    assert!(bad(&check_workflow_step(&step(" ", 1, None)).unwrap_err(), "step name is required"));
    assert!(bad(&check_workflow_step(&step("a", 0, None)).unwrap_err(), "step sort order must be positive"));
    let rows = workflow_step_rows(9, vec![step("a", 1, Some(false)), step("b", 2, None)]);
    assert_eq!(rows.len(), 2);
    assert_eq!((rows[1].workflow_id, rows[1].name.as_str(), rows[1].enabled), (9, "b", true));
    assert!(!rows[0].enabled);
}

#[test]
fn run_artifacts() {
    assert!(bad(&preview_path_of(None).unwrap_err(), "command run has no preview artifact"));
    assert!(bad(&preview_path_of(Some("  ")).unwrap_err(), "command run has no preview artifact"));
    assert_eq!(preview_path_of(Some("/out/report.html")).unwrap(), "/out/report.html");
    assert_eq!(file_name_of_path("/out/report.html"), Some("report.html".to_string()));
    assert_eq!(file_name_of_path("/out/dir/."), Some("dir".to_string()));
    assert_eq!(file_name_of_path("/out/.."), None);
    assert_eq!(file_name_of_path("/"), None);
    let h = artifact_headers("/out/report.html", 3);
    assert_eq!(h.content_type, "text/html");
    assert_eq!(h.content_disposition, "inline; filename=\"report.html\"");
    assert_eq!(h.cache_control.as_deref(), Some("private, no-store"));
    assert!(h.nosniff);
    let h = artifact_headers("/", 3);
    assert_eq!((h.content_type.as_str(), h.content_disposition.as_str()), ("application/octet-stream", "inline; filename=\"command-run-3\""));
}

fn profile(provider: &str) -> SaveStorageProfileParams {
    SaveStorageProfileParams {
        tenant_id: Some(1),
        name: "Main".to_string(),
        code: "main".to_string(),
        provider: provider.to_string(),
        enabled: None,
        is_default: None,
        endpoint: None,
        region: None,
        access_key_id: Some("id".to_string()),
        secret_access_key: Some("secret".to_string()),
        public_base_url: None,
        path_style: None,
        description: None,
    }
}

#[test]
fn storage_profiles_and_buckets() {
    assert!(validate_profile(&profile("local"), None, true, None, None).is_ok());
    assert!(bad(&validate_profile(&profile("s3_compatible"), None, true, None, None).unwrap_err(), "storage endpoint is required"));
    assert!(bad(&validate_profile(&profile("ftp"), Some("unsupported storage provider"), true, None, None).unwrap_err(), "unsupported storage provider"));
    assert!(bad(&validate_profile(&profile("local"), None, false, None, None).unwrap_err(), "tenant not found"));
    assert!(bad(&validate_profile(&profile("local"), None, true, Some(3), Some(4)).unwrap_err(), "storage profile code already exists"));
    let bucket = SaveStorageBucketParams {
        tenant_id: None,
        name: "b".to_string(),
        bucket: "media".to_string(),
        base_prefix: None,
        local_root: None,
        public_prefix: None,
        enabled: None,
        is_default: None,
    };
    assert!(bad(&validate_bucket(&bucket, "local", None, None, 1).unwrap_err(), "local root is required"));
    assert!(validate_bucket(&bucket, "s3_compatible", None, None, 1).is_ok());
    assert!(bad(&validate_bucket(&bucket, "s3_compatible", None, None, 0).unwrap_err(), "tenant_id is required"));
    assert!(bad(&check_profile_delete(1, 0).unwrap_err(), "storage profile has buckets or files"));
    assert!(bad(&check_bucket_delete(2).unwrap_err(), "storage bucket has files"));
    let e = check_same_tenant(1, 2, "cannot move storage profile").unwrap_err();
    assert!(is_err(&e, ErrorKind::Forbidden, "cannot move storage profile"));
    assert_eq!(default_bucket_tenant(Some(5), EffectiveDataScope::All).unwrap(), 5);
    assert!(bad(&default_bucket_tenant(None, EffectiveDataScope::All).unwrap_err(), "tenant_id is required"));
    let e = default_bucket_tenant(Some(5), EffectiveDataScope::Tenant { tenant_id: 6 }).unwrap_err();
    assert!(is_err(&e, ErrorKind::Forbidden, "data scope denied"));
}

#[test]
fn generated_images_are_found() {
    assert!(matches!(generation_source(Some(4), Some("/x.png".to_string())).unwrap(), GenerationSource::Upload(4)));
    assert!(matches!(generation_source(None, Some("/x.png".to_string())).unwrap(), GenerationSource::Local(p) if p == "/x.png"));
    assert!(bad(&generation_source(None, None).unwrap_err(), "generated image output path is missing"));
    assert_eq!(generated_file_bucket(Some(2)).unwrap(), 2);
    assert!(bad(&generated_file_bucket(None).unwrap_err(), "generated upload file has no storage bucket"));
    assert!(check_generated_file_profile(None, 1).is_ok());
    assert!(check_generated_file_profile(Some(1), 1).is_ok());
    assert!(bad(&check_generated_file_profile(Some(2), 1).unwrap_err(), "generated upload file storage mismatch"));
}

#[test]
fn a_shown_storage_key_sent_back_keeps_the_stored_one() {
    for stored in [Some("real-key".to_string()), None] {
        let mut p = profile("s3_compatible");
        p.secret_access_key = masked_secret(&stored);
        let f = profile_fields(p, Some(stored.clone()));
        assert_eq!(f.secret_access_key, stored);
    }
    let mut p = profile("s3_compatible");
    p.secret_access_key = Some(" new ".to_string());
    assert_eq!(profile_fields(p, Some(Some("old".to_string()))).secret_access_key.as_deref(), Some("new"));
}

#[test]
fn generation_runs_keep_each_image_in_order() {
    let (stage, action) = generation_step(GenerationStage::Requesting, GenerationEvent::Replied(Ok(2)));
    assert_eq!(stage, GenerationStage::Keeping { index: 0, total: 2, saved: false });
    assert!(matches!(action, GenerationAction::SaveImage { image: 0, output_index: 1 }));
    let (stage, action) = generation_step(stage, GenerationEvent::Saved(Ok(())));
    assert_eq!(stage, GenerationStage::Keeping { index: 0, total: 2, saved: true });
    assert!(matches!(action, GenerationAction::RecordImage));
    let (stage, action) = generation_step(stage, GenerationEvent::Recorded(Ok(())));
    assert!(matches!(action, GenerationAction::SaveImage { image: 1, output_index: 2 }));
    let (stage, _) = generation_step(stage, GenerationEvent::Saved(Ok(())));
    let (stage, action) = generation_step(stage, GenerationEvent::Recorded(Ok(())));
    assert_eq!(stage, GenerationStage::Done);
    assert!(matches!(action, GenerationAction::Finish));
}

#[test]
fn generation_runs_record_failures() {
    let e = ApiError::bad_request("upstream request failed");
    let (stage, action) = generation_step(GenerationStage::Requesting, GenerationEvent::Replied(Err(e)));
    assert_eq!(stage, GenerationStage::Done);
    assert!(matches!(action, GenerationAction::RecordFailure(e) if e.message == "upstream request failed"));
    let keeping = GenerationStage::Keeping { index: 1, total: 3, saved: false };
    let (_, action) = generation_step(keeping, GenerationEvent::Saved(Err(ApiError::internal("disk full"))));
    assert!(matches!(action, GenerationAction::RecordFailure(e) if e.message == "disk full"));
    let saved = GenerationStage::Keeping { index: 1, total: 3, saved: true };
    let (stage, action) = generation_step(saved, GenerationEvent::Recorded(Err(ApiError::internal("db down"))));
    assert_eq!(stage, GenerationStage::Done);
    assert!(matches!(action, GenerationAction::Fail(e) if e.message == "db down"));
    let (_, action) = generation_step(GenerationStage::Requesting, GenerationEvent::Replied(Ok(0)));
    assert!(matches!(action, GenerationAction::Finish));
}

#[test]
fn rebuilding_a_generation_url_keeps_it() {
    for (base, edits) in [("https://api.x.com/v1/", false), ("https://api.x.com/v1/images/edits//", true), ("h", true)] {
        let u = build_generation_url(base, edits);
        assert!(u.ends_with(if edits { "/images/edits" } else { "/images/generations" }));
        assert_eq!(build_generation_url(&u, edits), u);
    }
    assert_eq!(build_generation_url("https://api.x.com/v1/", false), "https://api.x.com/v1/images/generations");
}

fn image(name: &str) -> UploadedReferenceImage {
    UploadedReferenceImage { original_name: name.to_string(), mime_type: None, bytes: vec![1] }
}

#[test]
fn request_images_join_uploaded_and_library() {
    let (images, count) = generation_request_images(vec![image("a"), image("b")], vec![image("c")]);
    let names: Vec<&str> = images.iter().map(|i| i.original_name.as_str()).collect();
    assert_eq!(names, vec!["a", "b", "c"]);
    assert_eq!(count, 3);
    let (images, count) = generation_request_images(Vec::new(), Vec::new());
    assert!(images.is_empty());
    assert_eq!(count, 0);
}

#[test]
fn events_are_checked_against_the_stage() {
    assert!(event_answers(GenerationStage::Requesting, &GenerationEvent::Replied(Ok(1))));
    assert!(!event_answers(GenerationStage::Requesting, &GenerationEvent::Saved(Ok(()))));
    let keeping = GenerationStage::Keeping { index: 0, total: 1, saved: true };
    assert!(event_answers(keeping, &GenerationEvent::Recorded(Ok(()))));
    assert!(!event_answers(keeping, &GenerationEvent::Saved(Ok(()))));
    assert!(!event_answers(GenerationStage::Done, &GenerationEvent::Replied(Ok(0))));
}

#[test]
fn generated_names_carry_a_fourteen_digit_stamp() {
    let n = generated_filename(2);
    let stamp = &n["ai-image-".len().."ai-image-".len() + 14];
    assert!(stamp.chars().all(|c| c.is_ascii_digit()));
    assert!(n.ends_with(".png"));
}

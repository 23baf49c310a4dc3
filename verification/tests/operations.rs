use admin_backend::backups::BackupQueryParams;
use admin_backend::content::{
    category_fields, parse_optional_datetime, validate_category_params, validate_slug,
    validate_status, SaveContentCategoryParams,
};
use admin_backend::departments::{
    check_department_delete, ensure_tenant_departments_enabled, validate_department,
    SaveDepartmentParams, TenantFacts,
};
use admin_backend::dicts::{check_item_delete, check_type_delete, validate_extra};
use admin_backend::email_templates::{check_recipient, validate_template, SaveEmailTemplateParams};
use admin_backend::error::{ApiError, ErrorKind};
use admin_backend::http_client::{
    check_test_url, elapsed_millis, status_line, test_record, trim_message, validate_test_url,
};
use admin_backend::logs::{operation_log, LogQueryParams};
use admin_backend::monitoring::{
    disk_usage, gpu_line_fields, health_links, matching_processes, optional_gpu_text, page_items,
    page_window, parse_optional_mib, percent_basis_points, process_matches, ProcessQueryParams,
    ProcessSort, ProcessText,
};
use admin_backend::notifications::{check_visible, is_visible, validate_notification, NotificationTarget, SaveNotificationParams};
use admin_backend::access::Actor;
use admin_backend::rate_limits::{validate_rule, SaveRateLimitRuleParams};
use admin_backend::scheduled_tasks::{
    backup_task_output, duration_ms_of, run_outcome, task_action, task_fields, validate_task,
    SaveScheduledTaskParams, TaskAction,
};
use admin_backend::settings::{
    check_setting_delete, is_float_text, shown_setting_value, updated_setting_value,
    validate_setting,
};

fn is_err(e: &ApiError, kind: ErrorKind, message: &str) -> bool {
    e.kind == kind && e.message == message
}

fn bad(e: &ApiError, message: &str) -> bool {
    is_err(e, ErrorKind::BadRequest, message)
}

#[test]
fn float_texts_follow_f64_parsing() {
    for ok in ["1", "-1.5", "+.5", "5.", "1e10", "1E-3", "inf", "-Infinity", "NaN"] {
        assert!(is_float_text(ok), "{ok}");
        assert!(ok.parse::<f64>().is_ok());
    }
    for no in ["", ".", "e5", "1e", " 1", "1 ", "--1", "abc", "1.2.3"] {
        assert!(!is_float_text(no), "{no}");
        assert!(no.parse::<f64>().is_err());
    }
}

#[test]
fn setting_values_fit_their_type() {
    assert!(validate_setting("string", "anything").is_ok());
    assert!(validate_setting("number", "3.5").is_ok());
    assert!(bad(&validate_setting("number", "x").unwrap_err(), "setting value must be a number"));
    assert!(validate_setting("boolean", "true").is_ok());
    assert!(bad(&validate_setting("boolean", "yes").unwrap_err(), "setting value must be true or false"));
    assert!(bad(&validate_setting("json", "{").unwrap_err(), "setting value must be valid json"));
    assert!(bad(&validate_setting("date", "x").unwrap_err(), "unsupported setting value type"));
    assert_eq!(shown_setting_value("secret", "s3cr3t".to_string()), "******");
    assert_eq!(shown_setting_value("string", "v".to_string()), "v");
    assert_eq!(updated_setting_value("secret", "old".to_string(), "secret", "******".to_string()).unwrap(), "old");
    assert_eq!(updated_setting_value("secret", "old".to_string(), "secret", "new".to_string()).unwrap(), "new");
    assert!(updated_setting_value("string", "old".to_string(), "number", "x".to_string()).is_err());
    assert!(bad(&check_setting_delete(true).unwrap_err(), "builtin setting cannot be deleted"));
    assert!(check_setting_delete(false).is_ok());
}

#[test]
fn rate_limit_rules() {
    let mut p = SaveRateLimitRuleParams {
        name: "login".to_string(),
        scope: "ip".to_string(),
        path_pattern: "/api/auth/*".to_string(),
        method: None,
        limit_count: 5,
        window_seconds: 60,
        enabled: None,
        description: None,
    };
    assert!(validate_rule(&p).is_ok());
    p.scope = "tenant".to_string();
    assert!(bad(&validate_rule(&p).unwrap_err(), "unsupported rate limit scope"));
    p.window_seconds = 0;
    assert!(bad(&validate_rule(&p).unwrap_err(), "rate limit count and window must be positive"));
    p.name = " ".to_string();
    assert!(bad(&validate_rule(&p).unwrap_err(), "rate limit name and path are required"));
}

fn task(task_type: &str, next_run_at: Option<&str>) -> SaveScheduledTaskParams {
    SaveScheduledTaskParams {
        name: "Nightly".to_string(),
        code: "nightly".to_string(),
        task_type: task_type.to_string(),
        cron_expr: "0 0 * * *".to_string(),
        payload: None,
        enabled: None,
        status: None,
        next_run_at: next_run_at.map(str::to_string),
    }
}

#[test]
fn scheduled_tasks() {
    assert!(validate_task(&task("database_backup", None)).is_ok());
    assert!(bad(&validate_task(&task("reboot", None)).unwrap_err(), "unsupported task type"));
    let f = task_fields(task("cleanup_logs", Some("2024-05-01T10:00:00+02:00"))).unwrap();
    assert!(f.enabled);
    assert_eq!(f.status, "idle");
    let ts = f.next_run_at.unwrap();
    assert_eq!(ts.millis, 1714550400000);
    assert_eq!(ts.offset_seconds, 7200);
    assert_eq!(task_fields(task("cleanup_logs", Some(""))).unwrap().next_run_at, None);
    assert!(bad(&task_fields(task("cleanup_logs", Some("tomorrow"))).unwrap_err(), "time must be RFC3339"));
    match task_action("cleanup_logs") {
        TaskAction::Acknowledge(m) => assert_eq!(m, "cleanup_logs task acknowledged"),
        _ => panic!("expected an acknowledgement"),
    }
    assert!(matches!(task_action("database_backup"), TaskAction::DatabaseBackup));
    assert!(matches!(task_action("x"), TaskAction::Unsupported));
    assert_eq!(backup_task_output(12, "success", Some("delivered")), "database backup 12 finished with success, delivery delivered");
    assert_eq!(backup_task_output(-3, "failed", None), "database backup -3 finished with failed, delivery -");
    let ok = run_outcome(Ok("done".to_string()));
    assert_eq!((ok.status.as_str(), ok.output.as_deref(), ok.error_message), ("success", Some("done"), None));
    let failed = run_outcome(Err("boom".to_string()));
    assert_eq!((failed.status.as_str(), failed.output, failed.error_message.as_deref()), ("failed", None, Some("boom")));
    assert_eq!(duration_ms_of(1500), 1500);
    assert_eq!(duration_ms_of(i64::MAX), 0);
}

#[test]
fn notifications() {
    let actor = Actor { id: 7, tenant_id: Some(2) };
    let all = NotificationTarget { target_type: "all".to_string(), target_user_id: None, tenant_id: None };
    let mine = NotificationTarget { target_type: "user".to_string(), target_user_id: Some(7), tenant_id: None };
    let theirs = NotificationTarget { target_type: "user".to_string(), target_user_id: Some(8), tenant_id: None };
    let tenant = NotificationTarget { target_type: "tenant".to_string(), target_user_id: None, tenant_id: Some(2) };
    assert!(is_visible(&actor, &all) && is_visible(&actor, &mine) && is_visible(&actor, &tenant));
    assert!(!is_visible(&actor, &theirs));
    let e = check_visible(false, &actor, &theirs).unwrap_err();
    assert!(is_err(&e, ErrorKind::Forbidden, "notification is not visible"));
    assert!(check_visible(true, &actor, &theirs).is_ok());
    let mut p = SaveNotificationParams {
        title: "t".to_string(),
        content: "c".to_string(),
        level: "info".to_string(),
        category: "system".to_string(),
        target_type: "all".to_string(),
        target_user_id: None,
        tenant_id: None,
    };
    assert!(validate_notification(&p).is_ok());
    p.target_type = "group".to_string();
    assert!(bad(&validate_notification(&p).unwrap_err(), "unsupported notification target type"));
    p.title = String::new();
    assert!(bad(&validate_notification(&p).unwrap_err(), "notification title and content are required"));
}

#[test]
fn dictionaries() {
    assert!(validate_extra(None).is_ok());
    assert!(validate_extra(Some("")).is_ok());
    assert!(validate_extra(Some("{\"color\":\"red\"}")).is_ok());
    assert!(bad(&validate_extra(Some("{")).unwrap_err(), "dict item extra must be valid json"));
    assert!(bad(&check_type_delete(true, 0).unwrap_err(), "builtin dict type cannot be deleted"));
    assert!(bad(&check_type_delete(false, 3).unwrap_err(), "dict type has items"));
    assert!(check_type_delete(false, 0).is_ok());
    assert!(check_item_delete(true).is_err());
    assert!(check_item_delete(false).is_ok());
}

#[test]
fn email_templates() {
    let mut p = SaveEmailTemplateParams {
        code: "welcome".to_string(),
        name: "Welcome".to_string(),
        template_type: "user".to_string(),
        subject: "Hi".to_string(),
        html_body: "<p>Hi</p>".to_string(),
        text_body: "Hi".to_string(),
        variables: "{}".to_string(),
        enabled: None,
        is_builtin: None,
        description: None,
    };
    assert!(validate_template(&p).is_ok());
    p.variables = "nope".to_string();
    assert!(bad(&validate_template(&p).unwrap_err(), "variables must be valid json"));
    p.subject = " ".to_string();
    assert!(bad(&validate_template(&p).unwrap_err(), "subject is required"));
    assert!(bad(&check_recipient("  ").unwrap_err(), "recipient email is required"));
    assert!(check_recipient("a@b.c").is_ok());
}

#[test]
fn content_rules() {
    assert!(validate_slug("news-2024").is_ok());
    assert!(bad(&validate_slug(" ").unwrap_err(), "slug is required"));
    assert!(bad(&validate_slug("News").unwrap_err(), "slug only supports lowercase letters, numbers and hyphens"));
    assert!(validate_status(" published ").is_ok());
    assert!(bad(&validate_status("hidden").unwrap_err(), "unsupported content article status"));
    let p = SaveContentCategoryParams {
        name: " News ".to_string(),
        slug: " news ".to_string(),
        description: Some("  ".to_string()),
        sort_order: None,
        enabled: None,
    };
    assert!(validate_category_params(&p).is_ok());
    let f = category_fields(p);
    assert_eq!((f.name.as_str(), f.slug.as_str(), f.description, f.sort_order, f.enabled), ("News", "news", None, 0, true));
    assert_eq!(parse_optional_datetime(None).unwrap(), None);
    assert_eq!(parse_optional_datetime(Some(" ".to_string())).unwrap(), None);
    let t = parse_optional_datetime(Some(" 1970-01-01T00:00:01Z ".to_string())).unwrap().unwrap();
    assert_eq!(t.millis, 1000);
    assert!(bad(&parse_optional_datetime(Some("yesterday".to_string())).unwrap_err(), "datetime must be RFC3339"));
}

#[test]
fn department_rules() {
    let facts = TenantFacts { enabled: true, departments_enabled: true };
    assert!(ensure_tenant_departments_enabled(Some(facts)).is_ok());
    assert!(bad(&ensure_tenant_departments_enabled(None).unwrap_err(), "tenant not found"));
    let off = TenantFacts { enabled: true, departments_enabled: false };
    let e = ensure_tenant_departments_enabled(Some(off)).unwrap_err();
    assert!(is_err(&e, ErrorKind::Forbidden, "department management is disabled"));
    let p = SaveDepartmentParams {
        tenant_id: Some(1),
        parent_id: Some(5),
        name: "Ops".to_string(),
        code: "ops".to_string(),
        description: None,
        sort_order: None,
        enabled: None,
    };
    assert!(validate_department(&p, 1, None, Some(facts), Some(1), None).is_ok());
    assert!(bad(&validate_department(&p, 1, Some(5), Some(facts), Some(1), None).unwrap_err(), "department cannot be its own parent"));
    assert!(bad(&validate_department(&p, 1, None, Some(facts), None, None).unwrap_err(), "department not found"));
    assert!(bad(&validate_department(&p, 1, None, Some(facts), Some(2), None).unwrap_err(), "parent department must belong to same tenant"));
    assert!(bad(&validate_department(&p, 1, Some(9), Some(facts), Some(1), Some(8)).unwrap_err(), "department code already exists"));
    assert!(validate_department(&p, 1, Some(9), Some(facts), Some(1), Some(9)).is_ok());
    assert!(check_department_delete(false, 0, 0).is_ok());
    assert!(check_department_delete(true, 0, 0).is_err());
}

#[test]
fn list_filters_leave_out_empty_texts() {
    let q = LogQueryParams {
        page: Some(0),
        page_size: Some(500),
        keyword: Some(String::new()),
        level: Some("error".to_string()),
        log_type: None,
        module: Some("auth".to_string()),
        status: Some(500),
    };
    assert_eq!((q.page(), q.page_size()), (1, 100));
    let f = q.filters();
    assert_eq!(f.keyword, None);
    assert_eq!(f.level.as_deref(), Some("error"));
    assert_eq!(f.log_type, None);
    assert_eq!(f.module.as_deref(), Some("auth"));
    assert_eq!(f.status, Some(500));
    let b = BackupQueryParams { page: None, page_size: None, status: Some(String::new()), trigger_type: Some("manual".to_string()) };
    assert_eq!(b.filters(), (None, Some("manual".to_string())));
    assert_eq!((b.page(), b.page_size()), (1, 10));
}

#[test]
fn trial_urls_and_records() {
    assert_eq!(validate_test_url("  https://example.com/a b ").unwrap(), "https://example.com/a%20b");
    assert_eq!(validate_test_url("http://example.com").unwrap(), "http://example.com/");
    assert!(bad(&validate_test_url("ftp://example.com").unwrap_err(), "test url must use http or https"));
    assert!(bad(&validate_test_url("not a url").unwrap_err(), "test url is invalid"));
    assert!(bad(&check_test_url(None).unwrap_err(), "test url is invalid"));
    assert_eq!(check_test_url(Some(("https://x/".to_string(), "https".to_string()))).unwrap(), "https://x/");
    assert_eq!(status_line(404), "404 Not Found");
    assert_eq!(status_line(299), "299 <unknown status code>");
    let ok = test_record(Ok(204), 12);
    assert!(ok.ok);
    assert_eq!((ok.status_code, ok.duration_ms, ok.message.as_str()), (Some(204), 12, "request completed"));
    let nf = test_record(Ok(503), 3);
    assert!(!nf.ok);
    assert_eq!(nf.message, "request completed with http 503 Service Unavailable");
    let long = "x".repeat(600);
    let failed = test_record(Err(long), 1);
    assert!(!failed.ok && failed.status_code.is_none());
    assert_eq!(failed.message.chars().count(), 500);
    assert_eq!(trim_message("短い"), "短い");
    assert_eq!(elapsed_millis(5), 5);
    assert_eq!(elapsed_millis(u128::MAX), u64::MAX);
}

#[test]
fn process_queries() {
    let q = ProcessQueryParams {
        page: None,
        page_size: Some(5),
        keyword: Some("  NGINX ".to_string()),
        sort: Some("memory".to_string()),
        order: Some("asc".to_string()),
    };
    assert_eq!((q.page(), q.page_size()), (1, 10));
    assert_eq!(q.keyword_filter().as_deref(), Some("nginx"));
    assert_eq!(q.sort_key(), ProcessSort::Memory);
    assert!(!q.descending());
    let d = ProcessQueryParams { page: None, page_size: None, keyword: Some(" ".to_string()), sort: None, order: None };
    assert_eq!(d.page_size(), 20);
    assert_eq!(d.keyword_filter(), None);
    assert_eq!(d.sort_key(), ProcessSort::Cpu);
    assert!(d.descending());
}

fn process(pid: &str, name: &str, command: &str) -> ProcessText {
    ProcessText { pid: pid.to_string(), name: name.to_string(), command: command.to_string() }
}

#[test]
fn process_keyword_filter() {
    let ps = vec![
        process("1", "systemd", "/sbin/init"),
        process("42", "Nginx", "nginx: master"),
        process("420", "bash", "-bash"),
    ];
    assert!(process_matches(&None, &ps[0]));
    assert!(process_matches(&Some("nginx".to_string()), &ps[1]));
    assert_eq!(matching_processes(&Some("42".to_string()), &ps), vec![1, 2]);
    assert_eq!(matching_processes(&Some("init".to_string()), &ps), vec![0]);
    assert_eq!(matching_processes(&None, &ps), vec![0, 1, 2]);
}

#[test]
fn process_pages() {
    assert_eq!(page_window(25, 1, 10), (0, 10));
    assert_eq!(page_window(25, 3, 10), (20, 25));
    assert_eq!(page_window(25, 4, 10), (25, 25));
    assert_eq!(page_window(25, u64::MAX, u64::MAX), (25, 25));
    let items: Vec<i32> = (0..25).collect();
    assert_eq!(page_items(items.clone(), 3, 10), vec![20, 21, 22, 23, 24]);
    assert_eq!(page_items(items, 9, 10), Vec::<i32>::new());
}

#[test]
fn usage_in_basis_points() {
    assert_eq!(percent_basis_points(1, 3), 3333);
    assert_eq!(percent_basis_points(5, 0), 0);
    assert_eq!(percent_basis_points(10, 5), 10000);
    assert_eq!(percent_basis_points(u64::MAX, u64::MAX), 1);
    assert_eq!(disk_usage(100, 25), (75, 7500));
    assert_eq!(disk_usage(100, 250), (0, 0));
    assert_eq!(health_links(), vec!["/_health", "/_readiness", "/_ping"]);
}

#[test]
fn gpu_report_lines() {
    let f = gpu_line_fields("NVIDIA A100, 535.104, 37, 40960, 1024, 41").unwrap();
    assert_eq!(f.name, "NVIDIA A100");
    assert_eq!(f.driver_version.as_deref(), Some("535.104"));
    assert_eq!(f.utilization, "37");
    assert_eq!(f.memory_total_bytes, Some(40960 * 1024 * 1024));
    assert_eq!(f.memory_used_bytes, Some(1024 * 1024 * 1024));
    assert_eq!(f.temperature, "41");
    let g = gpu_line_fields("T4, [Not Supported], [N/A], x, 0, ").unwrap();
    assert_eq!(g.driver_version, None);
    assert_eq!(g.memory_total_bytes, None);
    assert_eq!(g.memory_used_bytes, Some(0));
    assert_eq!(g.temperature, "");
    assert!(gpu_line_fields("a,b,c,d,e").is_none());
    assert!(gpu_line_fields(" ,b,c,d,e,f").is_none());
    assert_eq!(optional_gpu_text(""), None);
    assert_eq!(optional_gpu_text("[NOT SUPPORTED]"), None);
    assert_eq!(parse_optional_mib("18446744073709551615"), Some(u64::MAX));
}

#[test]
fn operation_log_entries() {
    let ok = operation_log("uploads", Some("/api/admin/uploads"), "upload", "done".to_string(), 3, Some("a@b.c".to_string()), Some(200), None);
    assert_eq!((ok.log_type.as_str(), ok.level.as_str(), ok.module.as_str(), ok.action.as_str()), ("operation", "info", "uploads", "upload"));
    assert_eq!((ok.user_id, ok.path.as_deref(), ok.status, ok.method), (Some(3), Some("/api/admin/uploads"), Some(200), None));
    let failed = operation_log("ssh", None, "close", "x".to_string(), 3, None, Some(500), Some("boom".to_string()));
    assert_eq!((failed.level.as_str(), failed.path, failed.error_message.as_deref()), ("error", None, Some("boom")));
}

#[test]
fn pages_follow_one_another() {
    for len in [0usize, 1, 9, 10, 11, 57] {
        for size in [1u64, 10, 20] {
            let mut seen = Vec::new();
            for page in 1u64..10 {
                let (start, end) = page_window(len, page, size);
                assert_eq!(end, page_window(len, page + 1, size).0);
                seen.extend(start..end);
            }
            if (len as u64) <= 9 * size {
                assert_eq!(seen, (0..len).collect::<Vec<_>>());
            }
        }
    }
}

#[test]
fn a_shown_secret_setting_sent_back_keeps_its_value() {
    let shown = shown_setting_value("secret", "hunter2".to_string());
    assert_eq!(updated_setting_value("secret", "hunter2".to_string(), "secret", shown).unwrap(), "hunter2");
}

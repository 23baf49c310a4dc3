use admin_backend::access::Actor;
use admin_backend::datetime::Timestamp;
use admin_backend::error::{ApiError, ErrorKind};
use admin_backend::payments::{
    cancel_order, channel_is_visible, check_visible, currency_or_default, manual_paid_payload_text,
    mark_order_paid, mark_order_paid_now, mark_refund_succeeded, mark_refund_succeeded_now,
    masked_secret, review_refund_now, next_no, order_is_visible, plan_order,
    request_refund, review_refund, secret_for_update, validate_channel_params, validate_order_params,
    ChannelFacts, CreatePaymentOrderParams, CreatePaymentRefundParams, MarkPaymentPaidParams,
    RefundableOrder, SavePaymentChannelParams,
};
use admin_backend::ssh::{
    all_targets, check_ticket_session, client_action, file_browser_record, find_target, local_target,
    sort_by_name, SshFileRecord,
    normalize_path_components, normalize_remote_target, resolve_local_browser_path,
    ssh_file_record, terminal_size, ClientAction, OutputBuffer, SshSessionState, SshTarget,
    SshTargetConfig, OUTPUT_BUFFER_CHUNKS,
};
use admin_backend::tickets::{TicketStore, TICKET_TTL_MILLIS};
use admin_backend::vnc::{self, VncSessionState, VncTarget, VncTargetConfig};

const NOW: Timestamp = Timestamp { millis: 1_700_000_000_000, offset_seconds: 28_800 };

fn is_err(e: &ApiError, kind: ErrorKind, message: &str) -> bool {
    e.kind == kind && e.message == message
}

fn bad(e: &ApiError, message: &str) -> bool {
    is_err(e, ErrorKind::BadRequest, message)
}

fn channel_params() -> SavePaymentChannelParams {
    SavePaymentChannelParams {
        name: "Alipay".to_string(),
        provider: "alipay".to_string(),
        channel_code: "ali".to_string(),
        currency: None,
        config: "{}".to_string(),
        secret_config: Some("******".to_string()),
        notify_url: None,
        return_url: None,
        enabled: None,
        sort_order: None,
        description: None,
    }
}

#[test]
fn payment_channels() {
    let mut p = channel_params();
    assert!(validate_channel_params(&p).is_ok());
    p.secret_config = Some("{bad".to_string());
    assert!(bad(&validate_channel_params(&p).unwrap_err(), "secret_config must be valid json"));
    p.provider = "bitcoin".to_string();
    assert!(bad(&validate_channel_params(&p).unwrap_err(), "unsupported payment provider"));
    p.name = " ".to_string();
    assert!(bad(&validate_channel_params(&p).unwrap_err(), "payment channel name and code are required"));
    assert_eq!(currency_or_default(None), "CNY");
    assert_eq!(currency_or_default(Some(" USD ".to_string())), "USD");
    assert_eq!(masked_secret(&Some("k".to_string())).as_deref(), Some("******"));
    assert_eq!(masked_secret(&None), None);
    assert_eq!(secret_for_update(Some("{\"k\":1}".to_string()), Some("******".to_string())).unwrap().as_deref(), Some("{\"k\":1}"));
    assert_eq!(secret_for_update(Some("old".to_string()), Some(" {} ".to_string())).unwrap().as_deref(), Some("{}"));
    assert_eq!(secret_for_update(Some("old".to_string()), Some("  ".to_string())).unwrap(), None);
    assert_eq!(secret_for_update(Some("old".to_string()), None).unwrap(), None);
}

fn order_params(amount: &str) -> CreatePaymentOrderParams {
    CreatePaymentOrderParams {
        channel_id: None,
        merchant_order_no: Some("  M-1 ".to_string()),
        subject: " Plan ".to_string(),
        body: None,
        amount: amount.to_string(),
        currency: None,
        provider: Some("wechat_pay".to_string()),
        expired_at: None,
        client_ip: None,
        payer_id: None,
        metadata: None,
    }
}

#[test]
fn payment_orders() {
    let actor = Actor { id: 3, tenant_id: Some(9) };
    assert!(validate_order_params(&order_params("1.5")).is_ok());
    assert!(bad(&validate_order_params(&order_params("0")).unwrap_err(), "amount must be greater than zero"));
    let mut p = order_params("1.5");
    p.provider = None;
    assert!(bad(&validate_order_params(&p).unwrap_err(), "payment provider is required"));
    p.expired_at = Some("never".to_string());
    p.provider = Some("wechat_pay".to_string());
    assert!(bad(&validate_order_params(&p).unwrap_err(), "time must be RFC3339"));
    let o = plan_order(order_params("1.5"), None, actor, "PO1".to_string()).unwrap();
    assert_eq!((o.amount.as_str(), o.subject.as_str(), o.currency.as_str(), o.provider.as_str(), o.status.as_str()), ("1.50", "Plan", "CNY", "wechat_pay", "pending"));
    assert_eq!(o.merchant_order_no.as_deref(), Some("M-1"));
    assert_eq!((o.tenant_id, o.created_by, o.channel_id), (Some(9), Some(3), None));
    let channel = ChannelFacts { id: 4, provider: "alipay".to_string(), currency: "HKD".to_string(), enabled: true };
    let o = plan_order(order_params("2"), Some(channel), actor, "PO2".to_string()).unwrap();
    assert_eq!((o.provider.as_str(), o.currency.as_str(), o.channel_id), ("alipay", "HKD", Some(4)));
    let off = ChannelFacts { id: 4, provider: "alipay".to_string(), currency: "HKD".to_string(), enabled: false };
    assert!(bad(&plan_order(order_params("2"), Some(off), actor, "PO3".to_string()).unwrap_err(), "payment channel is disabled"));
}

#[test]
fn order_life_cycle() {
    let params = MarkPaymentPaidParams { trade_no: Some(" T-9 ".to_string()), payer_id: Some("  ".to_string()), payload: None };
    let u = mark_order_paid("pending", params, 5, "FALLBACK".to_string(), NOW).unwrap();
    assert_eq!((u.status.as_str(), u.trade_no.as_str()), ("paid", "T-9"));
    assert_eq!(u.paid_at, NOW);
    assert_eq!(u.payer_id, Some(None));
    assert_eq!(u.callback.event_type, "manual_record");
    assert_eq!(u.callback.payload, "{\"action\":\"mark_paid\",\"operator_id\":5}");
    assert!(u.callback.verified && u.callback.processed);
    let params = MarkPaymentPaidParams { trade_no: None, payer_id: None, payload: Some("{}".to_string()) };
    let u = mark_order_paid("paying", params, 5, "FALLBACK".to_string(), NOW).unwrap();
    assert_eq!((u.trade_no.as_str(), u.callback.payload.as_str()), ("FALLBACK", "{}"));
    assert_eq!(u.payer_id, None);
    let params = MarkPaymentPaidParams { trade_no: None, payer_id: None, payload: None };
    assert!(bad(&mark_order_paid("paid", params, 5, "F".to_string(), NOW).unwrap_err(), "payment order cannot be marked paid"));
    assert_eq!(cancel_order("pending").unwrap(), "cancelled");
    assert!(bad(&cancel_order("cancelled").unwrap_err(), "payment order cannot be cancelled"));
    assert_eq!(manual_paid_payload_text(-1), "{\"action\":\"mark_paid\",\"operator_id\":-1}");
    let no = next_no("PO");
    assert!(no.starts_with("PO") && no.len() == 2 + 17);
    assert!(no[2..].chars().all(|c| c.is_ascii_digit()));
    let params = MarkPaymentPaidParams { trade_no: None, payer_id: None, payload: None };
    let u = mark_order_paid_now("pending", params, 5).unwrap();
    assert!(u.trade_no.starts_with("TRADE") && u.trade_no.len() == 5 + 17);
    assert_eq!(u.callback.trade_no.as_deref(), Some(u.trade_no.as_str()));
    assert!(u.paid_at.millis > 0);
    let params = MarkPaymentPaidParams { trade_no: Some("T1".to_string()), payer_id: None, payload: None };
    assert_eq!(mark_order_paid_now("paying", params, 5).unwrap().trade_no, "T1");
    let params = MarkPaymentPaidParams { trade_no: None, payer_id: None, payload: None };
    assert!(bad(&mark_order_paid_now("cancelled", params, 5).unwrap_err(), "payment order cannot be marked paid"));
}

#[test]
fn refunds_stay_within_the_payment() {
    let order = RefundableOrder { id: 8, tenant_id: Some(1), status: "paid".to_string(), amount: "10.00".to_string() };
    let params = |amount: &str| CreatePaymentRefundParams { amount: amount.to_string(), reason: Some(" late ".to_string()), metadata: None };
    let r = request_refund(&order, params("10"), "RF1".to_string(), 2).unwrap();
    assert_eq!((r.amount.as_str(), r.status.as_str(), r.order_status.as_str(), r.payment_order_id), ("10.00", "pending", "refunding", 8));
    assert!(bad(&request_refund(&order, params("10.01"), "RF2".to_string(), 2).unwrap_err(), "refund amount exceeds payment amount"));
    let pending = RefundableOrder { id: 8, tenant_id: None, status: "pending".to_string(), amount: "10.00".to_string() };
    assert!(bad(&request_refund(&pending, params("1"), "RF3".to_string(), 2).unwrap_err(), "payment order cannot be refunded"));
    let v = review_refund("pending", "approved", 3, NOW).unwrap();
    assert_eq!((v.status.as_str(), v.reviewed_by, v.reviewed_at), ("approved", 3, NOW));
    assert!(bad(&review_refund("approved", "rejected", 3, NOW).unwrap_err(), "refund is not pending review"));
    assert!(bad(&review_refund("pending", "maybe", 3, NOW).unwrap_err(), "unsupported refund status"));
    let v = review_refund_now("pending", "rejected", 4).unwrap();
    assert_eq!((v.status.as_str(), v.reviewed_by), ("rejected", 4));
    let v = mark_refund_succeeded("processing", 3, NOW).unwrap();
    assert_eq!((v.status.as_str(), v.order_status.as_str(), v.reviewed_by, v.reviewed_at), ("succeeded", "refunded", 3, NOW));
    assert!(bad(&mark_refund_succeeded("succeeded", 3, NOW).unwrap_err(), "refund cannot be marked succeeded"));
    let v = mark_refund_succeeded_now("approved", 9).unwrap();
    assert_eq!((v.status.as_str(), v.order_status.as_str(), v.reviewed_by), ("succeeded", "refunded", 9));
    assert!(bad(&mark_refund_succeeded_now("pending", 9).unwrap_err(), "refund cannot be marked succeeded"));
}

#[test]
fn payment_visibility() {
    let actor = Actor { id: 3, tenant_id: Some(9) };
    assert!(channel_is_visible(&actor, None));
    assert!(channel_is_visible(&actor, Some(9)));
    assert!(!channel_is_visible(&actor, Some(8)));
    assert!(order_is_visible(&actor, Some(3), Some(1)));
    assert!(order_is_visible(&actor, None, Some(9)));
    assert!(!order_is_visible(&actor, Some(4), None));
    let e = check_visible(false, false, "payment order is not visible").unwrap_err();
    assert!(is_err(&e, ErrorKind::Forbidden, "payment order is not visible"));
    assert!(check_visible(true, false, "x").is_ok());
}

#[test]
fn tickets_are_single_use_and_expire() {
    let mut store: TicketStore<u32> = TicketStore::new();
    let (key, expires_at) = store.issue_fresh(7, 1_000);
    assert_eq!(expires_at, 1_000 + TICKET_TTL_MILLIS);
    assert_eq!(key.len(), 36);
    assert_eq!(store.consume(&key, 2_000, "invalid ticket").unwrap(), 7);
    let e = store.consume(&key, 2_000, "invalid ticket").unwrap_err();
    assert!(is_err(&e, ErrorKind::Unauthorized, "invalid ticket"));
    store.issue("k".to_string(), 1, 5_000);
    let e = store.consume("k", 5_000, "expired").unwrap_err();
    assert!(is_err(&e, ErrorKind::Unauthorized, "expired"));
    store.issue("a".to_string(), 1, 100);
    store.issue("b".to_string(), 2, 300);
    store.issue("a".to_string(), 3, 400);
    store.purge_expired(200);
    assert_eq!(store.consume("a", 200, "x").unwrap(), 3);
    assert_eq!(store.consume("b", 299, "x").unwrap(), 2);
}

fn remote(key: &str, enabled: bool) -> SshTargetConfig {
    SshTargetConfig {
        key: format!(" {key} "),
        name: "Build box".to_string(),
        host: "10.0.0.5".to_string(),
        port: None,
        username: "deploy".to_string(),
        key_path: Some("  ".to_string()),
        enabled,
    }
}

#[test]
fn ssh_targets() {
    let local = local_target();
    assert_eq!((local.key.as_str(), local.target_type.as_str()), ("local-shell", "local"));
    let t = normalize_remote_target(remote("build", true)).unwrap();
    assert_eq!(t.key, "build");
    assert_eq!(t.key_path, None);
    assert!(bad(&normalize_remote_target(remote("-oProxyCommand", true)).unwrap_err(), "invalid ssh target configuration"));
    let mut bad_target = remote("x", true);
    bad_target.port = Some(0);
    assert!(bad(&normalize_remote_target(bad_target).unwrap_err(), "invalid ssh target port"));
    let targets = all_targets(vec![remote("a", true), remote("b", false)]).unwrap();
    assert_eq!(targets.len(), 2);
    let found = find_target(targets, " a ").unwrap();
    let record = found.record();
    assert_eq!((record.key.as_str(), record.target_type.as_str(), record.port), ("a", "ssh", Some(22)));
    let cmd = found.command(None);
    assert_eq!(cmd.program, "ssh");
    assert_eq!(cmd.args, vec!["-tt", "-o", "StrictHostKeyChecking=accept-new", "-o", "ServerAliveInterval=30", "-p", "22", "deploy@10.0.0.5"]);
    let local_cmd = SshTarget::Local(local_target()).command(Some("  ".to_string()));
    assert_eq!((local_cmd.program.as_str(), local_cmd.args.clone()), ("/bin/sh", vec!["-i".to_string()]));
    assert_eq!(local_cmd.env, vec![("TERM".to_string(), "xterm-256color".to_string())]);
    let targets = all_targets(vec![]).unwrap();
    assert!(bad(&find_target(targets, " ").unwrap_err(), "ssh target is required"));
    let targets = all_targets(vec![]).unwrap();
    assert!(bad(&find_target(targets, "zzz").unwrap_err(), "ssh target not found"));
    let mut broken = remote("c", true);
    broken.username = " ".to_string();
    assert!(all_targets(vec![broken]).is_err());
}

#[test]
fn terminal_sizes_and_messages() {
    assert_eq!(terminal_size(None, None), (120, 32));
    assert_eq!(terminal_size(Some(5), Some(500)), (20, 100));
    assert!(matches!(client_action("input", Some("ls\n".to_string()), None, None), ClientAction::Input(d) if d == "ls\n"));
    assert!(matches!(client_action("resize", None, Some(90), None), ClientAction::Resize(90, 32)));
    assert!(matches!(client_action("ping", None, None, None), ClientAction::Ignore));
    assert!(check_ticket_session("s1", "s1").is_ok());
    let e = check_ticket_session("s1", "s2").unwrap_err();
    assert!(is_err(&e, ErrorKind::Unauthorized, "invalid ssh session ticket"));
}

#[test]
fn output_buffer_keeps_the_latest_chunks() {
    let mut b = OutputBuffer::new();
    for i in 0..(OUTPUT_BUFFER_CHUNKS + 3) {
        b.push(i.to_string());
    }
    let h = b.history();
    assert_eq!(h.len(), OUTPUT_BUFFER_CHUNKS);
    assert_eq!(h[0], "3");
    assert_eq!(h[OUTPUT_BUFFER_CHUNKS - 1], (OUTPUT_BUFFER_CHUNKS + 2).to_string());
}

#[test]
fn ssh_sessions() {
    let mut s = SshSessionState::new("id1".to_string(), &SshTarget::Local(local_target()), 4, 80, 24, "/home/u".to_string());
    assert_eq!((s.status.as_str(), s.current_directory.as_str()), ("running", "/home/u"));
    assert!(s.check_file_browser().is_ok());
    assert_eq!(s.resize(1000, 1), (300, 8));
    s.append_output("hi".to_string());
    s.mark_closed();
    let r = s.record("c".to_string(), "u".to_string());
    assert_eq!((r.status.as_str(), r.cols, r.rows, r.created_by), ("closed", 300, 8, 4));
    let remote_target = SshTarget::Remote(normalize_remote_target(remote("r", true)).unwrap());
    let s = SshSessionState::new("id2".to_string(), &remote_target, 4, 80, 24, "/x".to_string());
    assert_eq!(s.current_directory, "~");
    assert!(bad(&s.check_file_browser().unwrap_err(), "remote ssh file browser is not supported yet"));
}

#[test]
fn local_paths_are_resolved() {
    assert_eq!(normalize_path_components("/a/./b/../c//").unwrap(), "/a/c");
    assert_eq!(normalize_path_components("/../..").unwrap(), "/");
    assert!(bad(&normalize_path_components("..").unwrap_err(), "invalid path"));
    assert_eq!(resolve_local_browser_path("/home/u", None).unwrap(), "/home/u");
    assert_eq!(resolve_local_browser_path("/home/u", Some(" docs/.. /x ")).unwrap(), "/home/u/docs/.. /x");
    assert_eq!(resolve_local_browser_path("/home/u", Some("../v")).unwrap(), "/home/v");
    assert_eq!(resolve_local_browser_path("/home/u", Some("/etc")).unwrap(), "/etc");
    assert!(bad(&resolve_local_browser_path("/home/u", Some("a\u{7}b")).unwrap_err(), "invalid path"));
    let f = ssh_file_record("notes.TXT", "/home/u/notes.TXT".to_string(), false, u64::MAX, None);
    assert_eq!((f.extension.as_deref(), f.size_bytes), (Some("TXT"), i64::MAX));
    let d = ssh_file_record(".bashrc", "/home/u/.bashrc".to_string(), true, 4096, None);
    assert_eq!(d.extension, None);
}

#[test]
fn vnc_targets_and_sessions() {
    let local = vnc::local_target();
    assert_eq!((local.key.as_str(), local.host.as_str(), local.port), ("local-vnc", "127.0.0.1", 5900));
    let cfg = VncTargetConfig { key: " lab ".to_string(), name: "Lab".to_string(), host: "10.1.1.1".to_string(), port: None, password: Some(" pw ".to_string()), enabled: true };
    let t = vnc::normalize_remote_target(cfg).unwrap();
    assert_eq!((t.key.as_str(), t.password.as_deref()), ("lab", Some("pw")));
    let targets = vnc::all_targets(vec![t]).unwrap();
    let found = vnc::find_target(targets, "lab").unwrap();
    assert_eq!(found.password().as_deref(), Some("pw"));
    let r = found.record();
    assert_eq!((r.target_type.as_str(), r.port, r.requires_password), ("vnc", 5900, true));
    let mut s = VncSessionState::new("v1".to_string(), &found, 2);
    assert_eq!((s.status.as_str(), s.address().as_str()), ("ready", "10.1.1.1:5900"));
    s.mark_status("connected");
    assert_eq!(s.record("c".to_string(), "u".to_string()).status, "connected");
    assert_eq!(VncTarget::Local(vnc::local_target()).password(), None);
    let e = vnc::check_ticket_session("a", "b").unwrap_err();
    assert!(is_err(&e, ErrorKind::Unauthorized, "invalid vnc session ticket"));
    let bad_port = VncTargetConfig { key: "k".to_string(), name: "n".to_string(), host: "h".to_string(), port: Some(0), password: None, enabled: true };
    assert!(bad(&vnc::normalize_remote_target(bad_port).unwrap_err(), "invalid vnc target port"));
}

fn entry(name: &str, is_dir: bool) -> SshFileRecord {
    ssh_file_record(name, format!("/home/u/{name}"), is_dir, 1, None)
}

#[test]
fn directory_listings_are_split_and_sorted() {
    let sorted = sort_by_name(vec![entry("b", false), entry("Z", false), entry("a", false), entry("é", false), entry("ab", false)]);
    assert_eq!(sorted.iter().map(|r| r.name.as_str()).collect::<Vec<_>>(), vec!["Z", "a", "ab", "b", "é"]);
    let listing = file_browser_record(
        "s1".to_string(),
        "/home/u".to_string(),
        vec![(entry("notes.txt", false), true), (entry("src", true), false), (entry("bin", true), false), (entry("dangling", false), false), (entry("a.md", false), true)],
    );
    assert_eq!((listing.session_id.as_str(), listing.current_directory.as_str(), listing.path.as_str()), ("s1", "/home/u", "/home/u"));
    assert_eq!(listing.directories.iter().map(|r| r.name.as_str()).collect::<Vec<_>>(), vec!["bin", "src"]);
    assert_eq!(listing.files.iter().map(|r| r.name.as_str()).collect::<Vec<_>>(), vec!["a.md", "notes.txt"]);
}

#[test]
fn normalized_paths_are_stable() {
    for raw in ["/a/./b/../c//", "x/../y/z", "/", "/../a b/.. ./c"] {
        let once = normalize_path_components(raw).unwrap();
        assert_eq!(normalize_path_components(&once).unwrap(), once);
    }
}

#[test]
fn a_shown_secret_sent_back_keeps_the_stored_one() {
    for stored in [Some("{\"key\":\"s\"}".to_string()), None] {
        let shown = masked_secret(&stored);
        assert_eq!(secret_for_update(stored.clone(), shown).unwrap(), stored);
    }
}

#[test]
fn output_buffer_keeps_the_last_of_many_writes() {
    let mut b = OutputBuffer::new();
    let n = 3 * OUTPUT_BUFFER_CHUNKS + 7;
    for i in 0..n {
        b.push(i.to_string());
        let h = b.history();
        assert_eq!(h.len(), (i + 1).min(OUTPUT_BUFFER_CHUNKS));
        assert_eq!(h.last().unwrap(), &i.to_string());
    }
    let h = b.history();
    let expected: Vec<String> = (n - OUTPUT_BUFFER_CHUNKS..n).map(|i| i.to_string()).collect();
    assert_eq!(h, expected);
}

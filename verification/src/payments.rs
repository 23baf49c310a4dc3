use vstd::prelude::*;

use crate::access::{same_tenant, tenant_is_visible, Actor};
use crate::amount::{normalize_amount, normalized_amount, parse_amount, parse_amount_spec};
use crate::datetime::{
    clock_digits, local_now, local_now_compact_millis, parse_rfc3339, rfc3339_instant, Timestamp,
};
use crate::error::{is_bad_request, ApiError, ApiResult};
use crate::json::{json_shape, validate_json, JsonShape};
use crate::numbers::{i32_string, int_text};
use crate::pagination::{page, page_number, page_size, page_size_number};
use crate::text::{
    clone_opt, is_blank_seq, opt_view, str_eq, trim, trim_optional, trim_optional_spec, trim_seq,
};

verus! {

/// What the API shows in place of a stored secret configuration.
pub const SECRET_MASK: &'static str = "******";

/// The payment providers an order or channel may name.
pub open spec fn supported_provider(p: Seq<char>) -> bool {
    ||| p == "yipay"@
    ||| p == "paypal"@
    ||| p == "stripe"@
    ||| p == "alipay"@
    ||| p == "wechat_pay"@
    ||| p == "tokenpay"@
    ||| p == "bepusdt"@
    ||| p == "epusdt"@
    ||| p == "okpay"@
}

/// The statuses a payment order may have.
pub open spec fn supported_payment_status(s: Seq<char>) -> bool {
    ||| s == "pending"@
    ||| s == "paying"@
    ||| s == "paid"@
    ||| s == "failed"@
    ||| s == "cancelled"@
    ||| s == "expired"@
    ||| s == "refunding"@
    ||| s == "refunded"@
}

/// The statuses a refund may have.
pub open spec fn supported_refund_status(s: Seq<char>) -> bool {
    ||| s == "pending"@
    ||| s == "approved"@
    ||| s == "processing"@
    ||| s == "succeeded"@
    ||| s == "failed"@
    ||| s == "rejected"@
}

/// Whether a payment provider is supported.
pub fn is_supported_provider(p: &str) -> (b: bool)
    ensures
        b == supported_provider(p@),
{
    str_eq(p, "yipay") || str_eq(p, "paypal") || str_eq(p, "stripe") || str_eq(p, "alipay")
        || str_eq(p, "wechat_pay") || str_eq(p, "tokenpay") || str_eq(p, "bepusdt") || str_eq(
        p,
        "epusdt",
    ) || str_eq(p, "okpay")
}

/// Whether a payment order status is supported.
pub fn is_supported_payment_status(s: &str) -> (b: bool)
    ensures
        b == supported_payment_status(s@),
{
    str_eq(s, "pending") || str_eq(s, "paying") || str_eq(s, "paid") || str_eq(s, "failed")
        || str_eq(s, "cancelled") || str_eq(s, "expired") || str_eq(s, "refunding") || str_eq(
        s,
        "refunded",
    )
}

/// Whether a refund status is supported.
pub fn is_supported_refund_status(s: &str) -> (b: bool)
    ensures
        b == supported_refund_status(s@),
{
    str_eq(s, "pending") || str_eq(s, "approved") || str_eq(s, "processing") || str_eq(
        s,
        "succeeded",
    ) || str_eq(s, "failed") || str_eq(s, "rejected")
}

/// Fails with `message` unless `value` is one of `supported`.
pub fn validate_value(value: &str, supported: &[&str], message: &str) -> (r: ApiResult<()>)
    ensures
        r is Ok <==> exists|i: int| 0 <= i < supported@.len() && (#[trigger] supported@[i])@ == value@,
        r matches Err(e) ==> is_bad_request(e, message@),
{
    if crate::text::is_one_of(value, supported) {
        Ok(())
    } else {
        Err(ApiError::bad_request(message))
    }
}

/// Fails with "unsupported payment provider" unless `provider` is supported.
pub fn validate_provider(provider: &str) -> (r: ApiResult<()>)
    ensures
        r is Ok <==> supported_provider(provider@),
        r matches Err(e) ==> is_bad_request(e, "unsupported payment provider"@),
{
    if is_supported_provider(provider) {
        Ok(())
    } else {
        Err(ApiError::bad_request("unsupported payment provider"))
    }
}

/// Fails with "unsupported payment status" unless `status` is a payment status.
pub fn validate_payment_status(status: &str) -> (r: ApiResult<()>)
    ensures
        r is Ok <==> supported_payment_status(status@),
        r matches Err(e) ==> is_bad_request(e, "unsupported payment status"@),
{
    if is_supported_payment_status(status) {
        Ok(())
    } else {
        Err(ApiError::bad_request("unsupported payment status"))
    }
}

// ---------------------------------------------------------------------------
// Query parameters
// ---------------------------------------------------------------------------

#[derive(Debug)]
pub struct PaymentChannelQueryParams {
    pub page: Option<u64>,
    pub page_size: Option<u64>,
    pub keyword: Option<String>,
    pub provider: Option<String>,
    pub enabled: Option<bool>,
}

#[derive(Debug)]
pub struct PaymentOrderQueryParams {
    pub page: Option<u64>,
    pub page_size: Option<u64>,
    pub keyword: Option<String>,
    pub provider: Option<String>,
    pub status: Option<String>,
    pub channel_id: Option<i32>,
    pub merchant_order_no: Option<String>,
}

#[derive(Debug)]
pub struct PaymentCallbackQueryParams {
    pub page: Option<u64>,
    pub page_size: Option<u64>,
    pub provider: Option<String>,
    pub processed: Option<bool>,
    pub payment_order_id: Option<i32>,
}

#[derive(Debug)]
pub struct PaymentRefundQueryParams {
    pub page: Option<u64>,
    pub page_size: Option<u64>,
    pub status: Option<String>,
    pub payment_order_id: Option<i32>,
}

impl PaymentChannelQueryParams {
    pub fn page(&self) -> (p: u64)
        ensures
            p == page_number(self.page),
    {
        page(self.page)
    }

    pub fn page_size(&self) -> (s: u64)
        ensures
            s == page_size_number(self.page_size),
    {
        page_size(self.page_size)
    }
}

impl PaymentOrderQueryParams {
    pub fn page(&self) -> (p: u64)
        ensures
            p == page_number(self.page),
    {
        page(self.page)
    }

    pub fn page_size(&self) -> (s: u64)
        ensures
            s == page_size_number(self.page_size),
    {
        page_size(self.page_size)
    }

    /// The status filter of an order listing: absent or empty means none;
    /// otherwise it must be a payment status.
    pub fn status_filter(&self) -> (r: ApiResult<Option<String>>)
        ensures
            match self.status {
                None => r matches Ok(None),
                Some(s) => if s@.len() == 0 {
                    r matches Ok(None)
                } else if supported_payment_status(s@) {
                    r matches Ok(Some(t)) && t@ == s@
                } else {
                    r matches Err(e) && is_bad_request(e, "unsupported payment status"@)
                },
            },
    {
        match &self.status {
            None => Ok(None),
            Some(s) => {
                if s.as_str().is_empty() {
                    Ok(None)
                } else {
                    validate_payment_status(s.as_str())?;
                    Ok(Some(s.clone()))
                }
            },
        }
    }
}

impl PaymentCallbackQueryParams {
    pub fn page(&self) -> (p: u64)
        ensures
            p == page_number(self.page),
    {
        page(self.page)
    }

    pub fn page_size(&self) -> (s: u64)
        ensures
            s == page_size_number(self.page_size),
    {
        page_size(self.page_size)
    }
}

impl PaymentRefundQueryParams {
    pub fn page(&self) -> (p: u64)
        ensures
            p == page_number(self.page),
    {
        page(self.page)
    }

    pub fn page_size(&self) -> (s: u64)
        ensures
            s == page_size_number(self.page_size),
    {
        page_size(self.page_size)
    }
}

// ---------------------------------------------------------------------------
// Request bodies and their checks
// ---------------------------------------------------------------------------

#[derive(Debug)]
pub struct SavePaymentChannelParams {
    pub name: String,
    pub provider: String,
    pub channel_code: String,
    pub currency: Option<String>,
    pub config: String,
    pub secret_config: Option<String>,
    pub notify_url: Option<String>,
    pub return_url: Option<String>,
    pub enabled: Option<bool>,
    pub sort_order: Option<i32>,
    pub description: Option<String>,
}

#[derive(Debug)]
pub struct CreatePaymentOrderParams {
    pub channel_id: Option<i32>,
    pub merchant_order_no: Option<String>,
    pub subject: String,
    pub body: Option<String>,
    pub amount: String,
    pub currency: Option<String>,
    pub provider: Option<String>,
    pub expired_at: Option<String>,
    pub client_ip: Option<String>,
    pub payer_id: Option<String>,
    pub metadata: Option<String>,
}

#[derive(Debug)]
pub struct MarkPaymentPaidParams {
    pub trade_no: Option<String>,
    pub payer_id: Option<String>,
    pub payload: Option<String>,
}

#[derive(Debug)]
pub struct CreatePaymentRefundParams {
    pub amount: String,
    pub reason: Option<String>,
    pub metadata: Option<String>,
}

/// Holds when the secret text needs no JSON check: absent, empty, or the mask.
pub open spec fn secret_skips_check(secret: Option<String>) -> bool {
    match secret {
        None => true,
        Some(s) => s@.len() == 0 || s@ == SECRET_MASK@,
    }
}

/// The first problem of a channel body, in the order the checks run, or none.
pub open spec fn channel_params_problem(params: SavePaymentChannelParams) -> Option<Seq<char>> {
    if is_blank_seq(params.name@) || is_blank_seq(params.channel_code@) {
        Some("payment channel name and code are required"@)
    } else if !supported_provider(params.provider@) {
        Some("unsupported payment provider"@)
    } else if json_shape(params.config@) == JsonShape::Invalid {
        Some("config"@ + " must be valid json"@)
    } else if !secret_skips_check(params.secret_config) && json_shape(
        params.secret_config->0@,
    ) == JsonShape::Invalid {
        Some("secret_config"@ + " must be valid json"@)
    } else {
        None
    }
}

/// Checks a payment channel body: name and code present, a supported
/// provider, JSON configuration, and JSON secret configuration unless it is
/// empty or the mask.
pub fn validate_channel_params(params: &SavePaymentChannelParams) -> (r: ApiResult<()>)
    ensures
        match channel_params_problem(*params) {
            None => r is Ok,
            Some(m) => r matches Err(e) && is_bad_request(e, m),
        },
{
    if crate::text::is_blank(params.name.as_str()) || crate::text::is_blank(
        params.channel_code.as_str(),
    ) {
        return Err(ApiError::bad_request("payment channel name and code are required"));
    }
    validate_provider(params.provider.as_str())?;
    validate_json("config", params.config.as_str())?;
    if let Some(secret_config) = &params.secret_config {
        if !secret_config.as_str().is_empty() {
            if !str_eq(secret_config.as_str(), SECRET_MASK) {
                validate_json("secret_config", secret_config.as_str())?;
            }
        }
    }
    Ok(())
}

/// Holds when an optional time text needs no parsing: absent or empty.
pub open spec fn time_text_absent(value: Option<String>) -> bool {
    match value {
        None => true,
        Some(s) => s@.len() == 0,
    }
}

/// The first problem of an order body, in the order the checks run, or none.
pub open spec fn order_params_problem(params: CreatePaymentOrderParams) -> Option<Seq<char>> {
    if is_blank_seq(params.subject@) {
        Some("payment order subject is required"@)
    } else if parse_amount_spec(params.amount@) is Err {
        Some(crate::amount::amount_problem_message(parse_amount_spec(params.amount@)->Err_0))
    } else if params.channel_id is None && params.provider is None {
        Some("payment provider is required"@)
    } else if params.channel_id is None && !supported_provider(params.provider->0@) {
        Some("unsupported payment provider"@)
    } else if !(params.metadata is None || params.metadata->0@.len() == 0) && json_shape(
        params.metadata->0@,
    ) == JsonShape::Invalid {
        Some("metadata"@ + " must be valid json"@)
    } else if !time_text_absent(params.expired_at) && rfc3339_instant(
        params.expired_at->0@,
    ) is None {
        Some("time must be RFC3339"@)
    } else {
        None
    }
}

/// An optional RFC 3339 time: absent or empty gives `None`; otherwise it
/// must parse ("time must be RFC3339").
pub fn parse_time(value: Option<&str>) -> (r: ApiResult<Option<Timestamp>>)
    ensures
        match value {
            None => r matches Ok(None),
            Some(s) => if s@.len() == 0 {
                r matches Ok(None)
            } else {
                match rfc3339_instant(s@) {
                    Some(t) => r == Ok::<Option<Timestamp>, ApiError>(Some(t)),
                    None => r matches Err(e) && is_bad_request(e, "time must be RFC3339"@),
                }
            },
        },
{
    match value {
        None => Ok(None),
        Some(s) => {
            if s.is_empty() {
                return Ok(None);
            }
            match parse_rfc3339(s) {
                Some(t) => Ok(Some(t)),
                None => Err(ApiError::bad_request("time must be RFC3339")),
            }
        },
    }
}

/// Checks an order body: a subject, a valid amount, a supported provider
/// when no channel is given, JSON metadata and an RFC 3339 expiry.
pub fn validate_order_params(params: &CreatePaymentOrderParams) -> (r: ApiResult<()>)
    ensures
        match order_params_problem(*params) {
            None => r is Ok,
            Some(m) => r matches Err(e) && is_bad_request(e, m),
        },
{
    if crate::text::is_blank(params.subject.as_str()) {
        return Err(ApiError::bad_request("payment order subject is required"));
    }
    normalize_amount(params.amount.as_str())?;
    if params.channel_id.is_none() {
        match &params.provider {
            None => {
                return Err(ApiError::bad_request("payment provider is required"));
            },
            Some(provider) => {
                validate_provider(provider.as_str())?;
            },
        }
    }
    if let Some(metadata) = &params.metadata {
        if !metadata.as_str().is_empty() {
            validate_json("metadata", metadata.as_str())?;
        }
    }
    match &params.expired_at {
        None => {},
        Some(t) => {
            parse_time(Some(t.as_str()))?;
        },
    }
    Ok(())
}

/// The secret configuration to store: trimmed, `None` when blank, and it
/// must be JSON ("secret_config must be valid json").
pub fn normalize_secret(value: Option<String>) -> (r: ApiResult<Option<String>>)
    ensures
        match trim_optional_spec(opt_view(value)) {
            None => r matches Ok(None),
            Some(t) => if json_shape(t) == JsonShape::Invalid {
                r matches Err(e) && is_bad_request(e, "secret_config"@ + " must be valid json"@)
            } else {
                r matches Ok(Some(s)) && s@ == t
            },
        },
{
    match trim_optional(value) {
        None => Ok(None),
        Some(t) => {
            validate_json("secret_config", t.as_str())?;
            Ok(Some(t))
        },
    }
}

/// The currency to store: the trimmed value, or "CNY" when absent or blank.
pub fn currency_or_default(value: Option<String>) -> (r: String)
    ensures
        r@ == match trim_optional_spec(opt_view(value)) {
            Some(t) => t,
            None => "CNY"@,
        },
{
    match trim_optional(value) {
        Some(t) => t,
        None => String::from_str("CNY"),
    }
}

/// The secret configuration an update stores: the stored one when the body
/// sends back the mask, otherwise the normalized new value.
pub fn secret_for_update(stored: Option<String>, sent: Option<String>) -> (r: ApiResult<
    Option<String>,
>)
    ensures
        match r {
            Ok(v) => secret_update(opt_view(stored), opt_view(sent)) == Ok::<
                Option<Seq<char>>,
                Seq<char>,
            >(opt_view(v)),
            Err(e) => secret_update(opt_view(stored), opt_view(sent)) matches Err(m) && is_bad_request(
                e,
                m,
            ),
        },
        match sent {
            Some(s) => if s@ == SECRET_MASK@ {
                r matches Ok(v) && opt_view(v) == opt_view(stored)
            } else {
                match trim_optional_spec(Some(s@)) {
                    None => r matches Ok(None),
                    Some(t) => if json_shape(t) == JsonShape::Invalid {
                        r matches Err(e) && is_bad_request(e, "secret_config"@ + " must be valid json"@)
                    } else {
                        r matches Ok(Some(v)) && v@ == t
                    },
                }
            },
            None => r matches Ok(None),
        },
{
    match sent {
        Some(s) => {
            if str_eq(s.as_str(), SECRET_MASK) {
                Ok(stored)
            } else {
                normalize_secret(Some(s))
            }
        },
        None => Ok(None),
    }
}

/// A stored secret as the API shows it: the mask when present.
pub open spec fn shown_secret(stored: Option<Seq<char>>) -> Option<Seq<char>> {
    match stored {
        Some(_) => Some(SECRET_MASK@),
        None => None,
    }
}

/// What an update stores of the secret configuration `sent` over `stored`:
/// the stored one when the mask is sent back, otherwise the sent text,
/// trimmed, blank dropped, and JSON.
pub open spec fn secret_update(stored: Option<Seq<char>>, sent: Option<Seq<char>>) -> Result<
    Option<Seq<char>>,
    Seq<char>,
> {
    match sent {
        Some(s) => if s == SECRET_MASK@ {
            Ok(stored)
        } else {
            match trim_optional_spec(Some(s)) {
                None => Ok(None),
                Some(t) => if json_shape(t) == JsonShape::Invalid {
                    Err("secret_config"@ + " must be valid json"@)
                } else {
                    Ok(Some(t))
                },
            }
        },
        None => Ok(None),
    }
}

/// A stored secret as the API shows it (see `shown_secret`).
pub fn masked_secret(stored: &Option<String>) -> (r: Option<String>)
    ensures
        opt_view(r) == shown_secret(opt_view(*stored)),
{
    match stored {
        Some(_) => Some(String::from_str(SECRET_MASK)),
        None => None,
    }
}

// ---------------------------------------------------------------------------
// Visibility
// ---------------------------------------------------------------------------

/// Holds when a channel of `channel_tenant` is visible to the actor: shared
/// channels (no tenant) to everyone, others to their tenant's members.
pub open spec fn channel_visible(actor: Actor, channel_tenant: Option<i32>) -> bool {
    channel_tenant is None || same_tenant(actor, channel_tenant)
}

/// Holds when an order is visible to the actor: its creator, or members of
/// its tenant.
pub open spec fn order_visible(actor: Actor, created_by: Option<i32>, tenant_id: Option<i32>) -> bool {
    created_by == Some(actor.id) || same_tenant(actor, tenant_id)
}

/// Whether a channel is visible to the actor (see `channel_visible`).
pub fn channel_is_visible(actor: &Actor, channel_tenant: Option<i32>) -> (b: bool)
    ensures
        b == channel_visible(*actor, channel_tenant),
{
    channel_tenant.is_none() || tenant_is_visible(actor, channel_tenant)
}

/// Whether an order is visible to the actor (see `order_visible`).
pub fn order_is_visible(actor: &Actor, created_by: Option<i32>, tenant_id: Option<i32>) -> (b: bool)
    ensures
        b == order_visible(*actor, created_by, tenant_id),
{
    let creator = match created_by {
        Some(c) => c == actor.id,
        None => false,
    };
    creator || tenant_is_visible(actor, tenant_id)
}

/// The outcome of a lookup of a payment row by a non-super-admin: the row
/// when visible, otherwise "<what> is not visible" (forbidden). Super
/// admins see every row.
pub fn check_visible(is_super_admin: bool, visible: bool, what_not_visible: &str) -> (r: ApiResult<()>)
    ensures
        r is Ok <==> (is_super_admin || visible),
        r matches Err(e) ==> crate::error::is_error(
            e,
            crate::error::ErrorKind::Forbidden,
            what_not_visible@,
        ),
{
    if is_super_admin || visible {
        Ok(())
    } else {
        Err(ApiError::forbidden(what_not_visible))
    }
}

// ---------------------------------------------------------------------------
// Order and refund life cycle
// ---------------------------------------------------------------------------

/// An order may be paid or cancelled only while it is open.
pub open spec fn order_is_open(status: Seq<char>) -> bool {
    status == "pending"@ || status == "paying"@
}

/// A refund may be requested only for a paid (or refunding) order.
pub open spec fn order_is_refundable(status: Seq<char>) -> bool {
    status == "paid"@ || status == "refunding"@
}

/// A refund may be marked succeeded only once approved or processing.
pub open spec fn refund_is_settleable(status: Seq<char>) -> bool {
    status == "approved"@ || status == "processing"@
}

/// The callback recorded beside a state change of an order.
#[derive(Debug)]
pub struct NewPaymentCallback {
    pub event_type: String,
    pub trade_no: Option<String>,
    pub payload: String,
    pub verified: bool,
    pub processed: bool,
    pub error_message: Option<String>,
}

/// What marking an order paid writes.
#[derive(Debug)]
pub struct MarkPaidUpdate {
    pub status: String,
    pub trade_no: String,
    /// `Some(value)` when the payer id is to be overwritten with `value`.
    pub payer_id: Option<Option<String>>,
    /// When the order was paid.
    pub paid_at: Timestamp,
    pub callback: NewPaymentCallback,
}

/// The payload recorded for a manual payment by `operator_id`.
pub open spec fn manual_paid_payload(operator_id: i32) -> Seq<char> {
    "{\"action\":\"mark_paid\",\"operator_id\":"@ + int_text(operator_id as int) + "}"@
}

/// The JSON payload `{"action":"mark_paid","operator_id":<id>}`.
pub fn manual_paid_payload_text(operator_id: i32) -> (s: String)
    ensures
        s@ == manual_paid_payload(operator_id),
{
    let s = String::from_str("{\"action\":\"mark_paid\",\"operator_id\":");
    let id = i32_string(operator_id);
    let s = s.concat(id.as_str());
    s.concat("}")
}

/// What marking an order paid writes, given the sent parameters, the
/// operator, the trade number used when none is sent, and the time: the
/// order becomes "paid" at that time, with the sent trade number (trimmed)
/// or the fallback; the payer id is overwritten only when one is sent; a
/// verified and processed `manual_record` callback is written with the sent
/// payload or a payload naming the operator.
pub open spec fn marks_paid(
    u: MarkPaidUpdate,
    params: MarkPaymentPaidParams,
    operator_id: i32,
    fallback_trade_no: Seq<char>,
    now: Timestamp,
) -> bool {
    let trade = match trim_optional_spec(opt_view(params.trade_no)) {
        Some(t) => t,
        None => fallback_trade_no,
    };
    &&& u.status@ == "paid"@
    &&& u.trade_no@ == trade
    &&& u.paid_at == now
    &&& match params.payer_id {
        None => u.payer_id is None,
        Some(p) => u.payer_id matches Some(v) && opt_view(v) == trim_optional_spec(Some(p@)),
    }
    &&& u.callback.event_type@ == "manual_record"@
    &&& u.callback.trade_no matches Some(t) && t@ == trade
    &&& u.callback.payload@ == match params.payload {
        Some(p) => p@,
        None => manual_paid_payload(operator_id),
    }
    &&& u.callback.verified && u.callback.processed
    &&& u.callback.error_message is None
}

/// Marks an open order paid by hand at `now` (see `marks_paid`).
pub fn mark_order_paid(
    status: &str,
    params: MarkPaymentPaidParams,
    operator_id: i32,
    fallback_trade_no: String,
    now: Timestamp,
) -> (r: ApiResult<MarkPaidUpdate>)
    ensures
        r is Ok <==> order_is_open(status@),
        r matches Err(e) ==> is_bad_request(e, "payment order cannot be marked paid"@),
        r matches Ok(u) ==> marks_paid(u, params, operator_id, fallback_trade_no@, now),
{
    if !(str_eq(status, "pending") || str_eq(status, "paying")) {
        return Err(ApiError::bad_request("payment order cannot be marked paid"));
    }
    let trade_no = match trim_optional(params.trade_no) {
        Some(t) => t,
        None => fallback_trade_no,
    };
    let payer_id = match params.payer_id {
        Some(p) => Some(trim_optional(Some(p))),
        None => None,
    };
    let payload = match params.payload {
        Some(p) => p,
        None => manual_paid_payload_text(operator_id),
    };
    let callback = NewPaymentCallback {
        event_type: String::from_str("manual_record"),
        trade_no: Some(trade_no.clone()),
        payload,
        verified: true,
        processed: true,
        error_message: None,
    };
    Ok(
        MarkPaidUpdate {
            status: String::from_str("paid"),
            trade_no,
            payer_id,
            paid_at: now,
            callback,
        },
    )
}

/// Marks an open order paid by hand now: the time is the local clock's, and
/// when no trade number is sent a fresh one starting with "TRADE" is made.
pub fn mark_order_paid_now(status: &str, params: MarkPaymentPaidParams, operator_id: i32) -> (r:
    ApiResult<MarkPaidUpdate>)
    ensures
        r is Ok <==> order_is_open(status@),
        r matches Err(e) ==> is_bad_request(e, "payment order cannot be marked paid"@),
        r matches Ok(u) ==> exists|fallback: Seq<char>|
            #[trigger] marks_paid(u, params, operator_id, fallback, u.paid_at) && fallback.len()
                >= 5 && fallback.take(5) == "TRADE"@,
{
    let ghost sent = params;
    let fallback = if trim_optional(clone_opt(&params.trade_no)).is_some() {
        String::new()
    } else {
        next_no("TRADE")
    };
    let now = local_now();
    let r = mark_order_paid(status, params, operator_id, fallback, now);
    proof {
        if r is Ok {
            let u = r->Ok_0;
            reveal_strlit("TRADE");
            reveal_strlit("");
            let f = fallback@;
            if trim_optional_spec(opt_view(sent.trade_no)) is None {
                assert(f.take(5) =~= "TRADE"@);
                assert(marks_paid(u, sent, operator_id, f, u.paid_at));
            } else {
                let t = "TRADE"@;
                assert(marks_paid(u, sent, operator_id, t, u.paid_at));
                assert(t.take(5) =~= t);
            }
        }
    }
    r
}

/// Cancels an open order: the new status is "cancelled".
pub fn cancel_order(status: &str) -> (r: ApiResult<String>)
    ensures
        r is Ok <==> order_is_open(status@),
        r matches Ok(s) ==> s@ == "cancelled"@,
        r matches Err(e) ==> is_bad_request(e, "payment order cannot be cancelled"@),
{
    if !(str_eq(status, "pending") || str_eq(status, "paying")) {
        return Err(ApiError::bad_request("payment order cannot be cancelled"));
    }
    Ok(String::from_str("cancelled"))
}

/// A new order, trade or refund number: `prefix` followed by the local time
/// down to milliseconds (year, month, day, hour, minute, second and
/// millisecond digits).
pub fn next_no(prefix: &str) -> (r: String)
    ensures
        r@.len() >= prefix@.len(),
        r@.subrange(0, prefix@.len() as int) == prefix@,
        clock_digits(r@.skip(prefix@.len() as int), 13),
{
    let stamp = local_now_compact_millis();
    let r = String::from_str(prefix).concat(stamp.as_str());
    assert(r@.subrange(0, prefix@.len() as int) =~= prefix@);
    assert(r@.skip(prefix@.len() as int) =~= stamp@);
    r
}

/// The channel facts an order reads.
#[derive(Debug)]
pub struct ChannelFacts {
    pub id: i32,
    pub provider: String,
    pub currency: String,
    pub enabled: bool,
}

/// A payment order to insert.
#[derive(Debug)]
pub struct NewOrder {
    pub tenant_id: Option<i32>,
    pub channel_id: Option<i32>,
    pub order_no: String,
    pub merchant_order_no: Option<String>,
    pub subject: String,
    pub body: Option<String>,
    pub amount: String,
    pub currency: String,
    pub provider: String,
    pub status: String,
    pub expired_at: Option<Timestamp>,
    pub client_ip: Option<String>,
    pub payer_id: Option<String>,
    pub metadata: Option<String>,
    pub created_by: Option<i32>,
}

/// Holds when the order names a channel that is disabled.
pub open spec fn channel_disabled(channel: Option<ChannelFacts>) -> bool {
    match channel {
        Some(c) => !c.enabled,
        None => false,
    }
}

/// The provider an order is created with: the channel's, or the one sent.
pub open spec fn order_provider(params: CreatePaymentOrderParams, channel: Option<ChannelFacts>) -> Seq<char> {
    match channel {
        Some(c) => c.provider@,
        None => match params.provider {
            Some(p) => p@,
            None => Seq::empty(),
        },
    }
}

/// Plans a new payment order: the body's checks, an enabled channel when one
/// is named, a supported provider; the order starts "pending" with the
/// channel's provider and currency (or the sent ones), the canonical amount
/// text and trimmed optional fields.
pub fn plan_order(
    params: CreatePaymentOrderParams,
    channel: Option<ChannelFacts>,
    actor: Actor,
    order_no: String,
) -> (r: ApiResult<NewOrder>)
    ensures
        r is Ok <==> (order_params_problem(params) is None && !channel_disabled(channel)
            && supported_provider(order_provider(params, channel))),
        order_params_problem(params) matches Some(m) ==> (r matches Err(e) && is_bad_request(e, m)),
        order_params_problem(params) is None && channel_disabled(channel) ==> (
        r matches Err(e) && is_bad_request(e, "payment channel is disabled"@)),
        order_params_problem(params) is None && !channel_disabled(channel)
            && !supported_provider(order_provider(params, channel)) ==> (r matches Err(e)
            && is_bad_request(e, "unsupported payment provider"@)),
        r matches Ok(o) ==> {
            &&& order_params_problem(params) is None
            &&& supported_provider(o.provider@)
            &&& o.provider@ == order_provider(params, channel)
            &&& o.tenant_id == actor.tenant_id
            &&& o.created_by == Some(actor.id)
            &&& o.channel_id == match channel {
                Some(c) => Some(c.id),
                None => None,
            }
            &&& o.order_no@ == order_no@
            &&& o.status@ == "pending"@
            &&& o.amount@ == normalized_amount(trim_seq(params.amount@))
            &&& o.subject@ == trim_seq(params.subject@)
            &&& o.currency@ == match channel {
                Some(c) => c.currency@,
                None => match trim_optional_spec(opt_view(params.currency)) {
                    Some(t) => t,
                    None => "CNY"@,
                },
            }
            &&& opt_view(o.merchant_order_no) == trim_optional_spec(opt_view(params.merchant_order_no))
            &&& opt_view(o.body) == trim_optional_spec(opt_view(params.body))
            &&& opt_view(o.client_ip) == trim_optional_spec(opt_view(params.client_ip))
            &&& opt_view(o.payer_id) == trim_optional_spec(opt_view(params.payer_id))
            &&& opt_view(o.metadata) == trim_optional_spec(opt_view(params.metadata))
            &&& o.expired_at == match params.expired_at {
                Some(t) => if t@.len() == 0 { None } else { rfc3339_instant(t@) },
                None => None,
            }
        },
{
    validate_order_params(&params)?;
    let (channel_id, provider, currency) = match channel {
        Some(c) => {
            if !c.enabled {
                return Err(ApiError::bad_request("payment channel is disabled"));
            }
            (Some(c.id), c.provider, c.currency)
        },
        None => {
            let provider = match params.provider {
                Some(p) => p,
                None => String::new(),
            };
            (None, provider, currency_or_default(params.currency))
        },
    };
    validate_provider(provider.as_str())?;
    let amount = normalize_amount(params.amount.as_str())?;
    let expired_at = match &params.expired_at {
        Some(t) => parse_time(Some(t.as_str()))?,
        None => None,
    };
    Ok(
        NewOrder {
            tenant_id: actor.tenant_id,
            channel_id,
            order_no,
            merchant_order_no: trim_optional(params.merchant_order_no),
            subject: trim(params.subject.as_str()),
            body: trim_optional(params.body),
            amount,
            currency,
            provider,
            status: String::from_str("pending"),
            expired_at,
            client_ip: trim_optional(params.client_ip),
            payer_id: trim_optional(params.payer_id),
            metadata: trim_optional(params.metadata),
            created_by: Some(actor.id),
        },
    )
}

/// The order facts a refund request reads.
#[derive(Debug)]
pub struct RefundableOrder {
    pub id: i32,
    pub tenant_id: Option<i32>,
    pub status: String,
    pub amount: String,
}

/// A refund to insert, and the status the order moves to.
#[derive(Debug)]
pub struct NewRefund {
    pub tenant_id: Option<i32>,
    pub payment_order_id: i32,
    pub refund_no: String,
    pub amount: String,
    pub reason: Option<String>,
    pub status: String,
    pub requested_by: Option<i32>,
    pub metadata: Option<String>,
    pub order_status: String,
}

/// The first problem of a refund request, in the order the checks run.
pub open spec fn refund_problem(order: RefundableOrder, params: CreatePaymentRefundParams) -> Option<
    Seq<char>,
> {
    if !order_is_refundable(order.status@) {
        Some("payment order cannot be refunded"@)
    } else if parse_amount_spec(params.amount@) is Err {
        Some(crate::amount::amount_problem_message(parse_amount_spec(params.amount@)->Err_0))
    } else if parse_amount_spec(order.amount@) is Err {
        Some(crate::amount::amount_problem_message(parse_amount_spec(order.amount@)->Err_0))
    } else if parse_amount_spec(params.amount@)->Ok_0 > parse_amount_spec(order.amount@)->Ok_0 {
        Some("refund amount exceeds payment amount"@)
    } else if !(params.metadata is None || params.metadata->0@.len() == 0) && json_shape(
        params.metadata->0@,
    ) == JsonShape::Invalid {
        Some("metadata"@ + " must be valid json"@)
    } else {
        None
    }
}

/// Requests a refund of a paid order: the amount must be valid and at most
/// the order's amount; the refund is stored pending with the canonical
/// amount text, and the order moves to "refunding".
pub fn request_refund(
    order: &RefundableOrder,
    params: CreatePaymentRefundParams,
    refund_no: String,
    actor_id: i32,
) -> (r: ApiResult<NewRefund>)
    ensures
        match refund_problem(*order, params) {
            Some(m) => r matches Err(e) && is_bad_request(e, m),
            None => r matches Ok(n) && {
                &&& n.tenant_id == order.tenant_id
                &&& n.payment_order_id == order.id
                &&& n.refund_no@ == refund_no@
                &&& n.amount@ == normalized_amount(trim_seq(params.amount@))
                &&& opt_view(n.reason) == trim_optional_spec(opt_view(params.reason))
                &&& n.status@ == "pending"@
                &&& n.requested_by == Some(actor_id)
                &&& opt_view(n.metadata) == trim_optional_spec(opt_view(params.metadata))
                &&& n.order_status@ == "refunding"@
            },
        },
{
    if !(str_eq(order.status.as_str(), "paid") || str_eq(order.status.as_str(), "refunding")) {
        return Err(ApiError::bad_request("payment order cannot be refunded"));
    }
    let refund_amount = parse_amount(params.amount.as_str())?;
    let order_amount = parse_amount(order.amount.as_str())?;
    if refund_amount > order_amount {
        return Err(ApiError::bad_request("refund amount exceeds payment amount"));
    }
    if let Some(metadata) = &params.metadata {
        if !metadata.as_str().is_empty() {
            validate_json("metadata", metadata.as_str())?;
        }
    }
    let amount = normalize_amount(params.amount.as_str())?;
    Ok(
        NewRefund {
            tenant_id: order.tenant_id,
            payment_order_id: order.id,
            refund_no,
            amount,
            reason: trim_optional(params.reason),
            status: String::from_str("pending"),
            requested_by: Some(actor_id),
            metadata: trim_optional(params.metadata),
            order_status: String::from_str("refunding"),
        },
    )
}

/// What reviewing a refund writes: its new status, who reviewed it and when.
#[derive(Debug)]
pub struct RefundReview {
    pub status: String,
    pub reviewed_by: i32,
    pub reviewed_at: Timestamp,
}

/// Reviews a pending refund as `reviewer_id` at `now`: `decision` must be a
/// refund status ("unsupported refund status") and the refund must be
/// pending ("refund is not pending review"); the new status is the decision.
pub fn review_refund(current: &str, decision: &str, reviewer_id: i32, now: Timestamp) -> (r:
    ApiResult<RefundReview>)
    ensures
        !supported_refund_status(decision@) ==> (r matches Err(e) && is_bad_request(
            e,
            "unsupported refund status"@,
        )),
        supported_refund_status(decision@) && current@ != "pending"@ ==> (r matches Err(e)
            && is_bad_request(e, "refund is not pending review"@)),
        supported_refund_status(decision@) && current@ == "pending"@ ==> (r matches Ok(v) && v.status@
            == decision@ && v.reviewed_by == reviewer_id && v.reviewed_at == now),
{
    if !is_supported_refund_status(decision) {
        return Err(ApiError::bad_request("unsupported refund status"));
    }
    if !str_eq(current, "pending") {
        return Err(ApiError::bad_request("refund is not pending review"));
    }
    Ok(RefundReview { status: String::from_str(decision), reviewed_by: reviewer_id, reviewed_at: now })
}

/// Reviews a pending refund as `reviewer_id` now, by the local clock (see
/// `review_refund`).
pub fn review_refund_now(current: &str, decision: &str, reviewer_id: i32) -> (r: ApiResult<
    RefundReview,
>)
    ensures
        !supported_refund_status(decision@) ==> (r matches Err(e) && is_bad_request(
            e,
            "unsupported refund status"@,
        )),
        supported_refund_status(decision@) && current@ != "pending"@ ==> (r matches Err(e)
            && is_bad_request(e, "refund is not pending review"@)),
        supported_refund_status(decision@) && current@ == "pending"@ ==> (r matches Ok(v) && v.status@
            == decision@ && v.reviewed_by == reviewer_id),
{
    review_refund(current, decision, reviewer_id, local_now())
}

/// What settling a refund writes: the refund becomes "succeeded", reviewed
/// by whom and when, and its order becomes "refunded".
#[derive(Debug)]
pub struct RefundSettlement {
    pub status: String,
    pub reviewed_by: i32,
    pub reviewed_at: Timestamp,
    pub order_status: String,
}

/// Marks an approved or processing refund succeeded, as `reviewer_id` at
/// `now`: the refund becomes "succeeded" and its order "refunded".
pub fn mark_refund_succeeded(current: &str, reviewer_id: i32, now: Timestamp) -> (r: ApiResult<
    RefundSettlement,
>)
    ensures
        r is Ok <==> refund_is_settleable(current@),
        r matches Ok(v) ==> v.status@ == "succeeded"@ && v.order_status@ == "refunded"@
            && v.reviewed_by == reviewer_id && v.reviewed_at == now,
        r matches Err(e) ==> is_bad_request(e, "refund cannot be marked succeeded"@),
{
    if !(str_eq(current, "approved") || str_eq(current, "processing")) {
        return Err(ApiError::bad_request("refund cannot be marked succeeded"));
    }
    Ok(
        RefundSettlement {
            status: String::from_str("succeeded"),
            reviewed_by: reviewer_id,
            reviewed_at: now,
            order_status: String::from_str("refunded"),
        },
    )
}

/// Marks an approved or processing refund succeeded, as `reviewer_id` now,
/// by the local clock (see `mark_refund_succeeded`).
pub fn mark_refund_succeeded_now(current: &str, reviewer_id: i32) -> (r: ApiResult<RefundSettlement>)
    ensures
        r is Ok <==> refund_is_settleable(current@),
        r matches Ok(v) ==> v.status@ == "succeeded"@ && v.order_status@ == "refunded"@
            && v.reviewed_by == reviewer_id,
        r matches Err(e) ==> is_bad_request(e, "refund cannot be marked succeeded"@),
{
    mark_refund_succeeded(current, reviewer_id, local_now())
}

/// Law: a refund is accepted only when its amount is at most the order's
/// amount, and the amount it stores writes the same number of cents as the
/// amount requested.
pub proof fn law_refund_within_payment(order: RefundableOrder, params: CreatePaymentRefundParams)
    requires
        refund_problem(order, params) is None,
    ensures
        parse_amount_spec(params.amount@)->Ok_0 <= parse_amount_spec(order.amount@)->Ok_0,
        parse_amount_spec(normalized_amount(trim_seq(params.amount@))) == parse_amount_spec(
            params.amount@,
        ),
{
    crate::amount::law_normalized_amount_keeps_cents(params.amount@);
}

/// Law: the order life cycle moves forward only — the status each step
/// writes is not one from which that step could be taken again.
pub proof fn law_transitions_are_not_repeatable()
    ensures
        !order_is_open("paid"@),
        !order_is_open("cancelled"@),
        order_is_refundable("refunding"@),
        !refund_is_settleable("succeeded"@),
        "pending"@ != "approved"@,
        "pending"@ != "rejected"@,
{
    reveal_strlit("paid");
    reveal_strlit("cancelled");
    reveal_strlit("pending");
    reveal_strlit("paying");
    reveal_strlit("refunding");
    reveal_strlit("succeeded");
    reveal_strlit("approved");
    reveal_strlit("processing");
    reveal_strlit("rejected");
    assert("paid"@.len() == 4);
    assert("pending"@.len() == 7);
    assert("paying"@[2] == 'y');
    assert("paid"@[2] == 'i');
    assert("succeeded"@.len() == 9);
    assert("approved"@.len() == 8);
    assert("processing"@.len() == 10);
    assert("rejected"@.len() == 8);
    assert("approved"@[0] != "rejected"@[0]);
}


/// Law: sending back the secret configuration as the API shows it keeps
/// the stored one.
pub proof fn law_shown_secret_keeps_stored(stored: Option<Seq<char>>)
    ensures
        secret_update(stored, shown_secret(stored)) == Ok::<Option<Seq<char>>, Seq<char>>(stored),
{
}

} // verus!

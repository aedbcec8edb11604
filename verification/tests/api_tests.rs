use task_engine::api::{ApiResponse, ErrorResponse, ListProductsQuery};
use task_engine::auth::{bearer_token, Claims, UserResponse, TOKEN_LIFETIME_SECS};
use task_engine::task::{Task, TaskStatus};

#[test]
fn ok_envelope_carries_payload_only() {
    let r: ApiResponse<u32> = ApiResponse::ok(5);
    assert!(r.success);
    assert_eq!(r.data, Some(5));
    assert!(r.error.is_none());
}

#[test]
fn failed_envelope_carries_error_only() {
    let r: ApiResponse<u32> = ApiResponse::failed("bad input".to_string());
    assert!(!r.success);
    assert!(r.data.is_none());
    assert_eq!(r.error.as_deref(), Some("bad input"));
}

#[test]
fn error_response_is_never_a_success() {
    let r = ErrorResponse::new("missing".to_string());
    assert!(!r.success);
    assert_eq!(r.error, "missing");
}

#[test]
fn page_window_defaults_and_caps() {
    let q = ListProductsQuery { limit: None, offset: None };
    assert_eq!(q.window(), (10, 0));

    let q = ListProductsQuery { limit: Some(50), offset: Some(5) };
    assert_eq!(q.window(), (50, 5));

    let q = ListProductsQuery { limit: Some(200), offset: None };
    assert_eq!(q.window(), (100, 0));

    let q = ListProductsQuery { limit: Some(100), offset: Some(0) };
    assert_eq!(q.window(), (100, 0));
}

#[test]
fn claims_expire_one_day_after_issue() {
    let now: usize = 1_700_000_000;
    let claims = Claims::issued_at(17, now);
    assert_eq!(claims.sub, 17);
    assert_eq!(claims.exp, now + 24 * 3600);
    assert_eq!(TOKEN_LIFETIME_SECS, 86_400);
    assert!(claims.valid_at(now));
    assert!(claims.valid_at(claims.exp - 1));
    assert!(!claims.valid_at(claims.exp));
}

#[test]
fn bearer_token_extracts_what_follows_the_scheme() {
    assert_eq!(bearer_token("Bearer abc.def.ghi"), Some("abc.def.ghi"));
    assert_eq!(bearer_token("Bearer "), Some(""));
    assert_eq!(bearer_token("Basic abc"), None);
    assert_eq!(bearer_token("bearer abc"), None);
    assert_eq!(bearer_token("Bear"), None);
    assert_eq!(bearer_token(""), None);
}

#[test]
fn user_response_keeps_only_public_fields() {
    let r = UserResponse::new(3, "a@b.example".to_string(), "Ada".to_string());
    assert_eq!(r.id, 3);
    assert_eq!(r.email, "a@b.example");
    assert_eq!(r.name, "Ada");
}

#[test]
fn new_task_starts_pending() {
    let t = Task::new(5, "fresh".to_string(), 2);
    assert_eq!(t.id, 5);
    assert_eq!(t.name, "fresh");
    assert_eq!(t.priority, 2);
    assert!(t.status.is_pending());
    assert!(!t.status.is_terminal());
}

#[test]
fn status_predicates_match_variants() {
    assert!(TaskStatus::Pending.is_pending());
    assert!(TaskStatus::Processing.is_processing());
    assert!(TaskStatus::Completed.is_completed());
    assert!(TaskStatus::Completed.is_terminal());
    let failed = TaskStatus::Failed("why".to_string());
    assert!(failed.is_failed());
    assert!(failed.is_terminal());
    assert!(!failed.is_completed());

    let copy = failed.clone();
    assert!(matches!(copy, TaskStatus::Failed(reason) if reason == "why"));
}

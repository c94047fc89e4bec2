use casbin_adapter::config::{Log, Profiles, Server, DB};
use casbin_adapter::error::{Error, CODE_OK, CODE_VALIDATION};
use casbin_adapter::log::{get_log_level, LogLevel};
use casbin_adapter::res::{PageData, PageParams, Res, ResJsonString};

#[test]
fn log_level_names_map_to_levels() {
    assert_eq!(get_log_level("TRACE"), LogLevel::Trace);
    assert_eq!(get_log_level("DEBUG"), LogLevel::Debug);
    assert_eq!(get_log_level("INFO"), LogLevel::Info);
    assert_eq!(get_log_level("WARN"), LogLevel::Warn);
    assert_eq!(get_log_level("ERROR"), LogLevel::Error);
}

#[test]
fn unknown_log_level_defaults_to_info() {
    assert_eq!(get_log_level("verbose"), LogLevel::Info);
    assert_eq!(get_log_level(""), LogLevel::Info);
}

#[test]
fn with_data_is_a_success_envelope() {
    let r = Res::with_data(7u32);
    assert_eq!(r.code, Some(CODE_OK));
    assert_eq!(r.data, Some(7));
    assert_eq!(r.msg.as_deref(), Some("success"));
}

#[test]
fn with_err_carries_the_error() {
    let e = Error { code: 42, msg: "not found" };
    assert_eq!(e.code(), 42);
    assert_eq!(e.msg(), "not found");
    let r: Res<u32> = Res::with_err(&e);
    assert_eq!(r.code, Some(42));
    assert!(r.data.is_none());
    assert_eq!(r.msg.as_deref(), Some("not found"));
}

#[test]
fn with_data_msg_carries_both() {
    let e = Error { code: 5, msg: "partial" };
    let r = Res::with_data_msg("payload".to_string(), &e);
    assert_eq!(r.code, Some(5));
    assert_eq!(r.data.as_deref(), Some("payload"));
    assert_eq!(r.msg.as_deref(), Some("partial"));
}

#[test]
fn arity_overflow_is_a_validation_error() {
    let e = Error::arity_overflow();
    assert_eq!(e.code(), CODE_VALIDATION);
    assert!(!e.msg().is_empty());
}

#[test]
fn plain_data_shapes_hold_their_fields() {
    let page = PageData { list: vec![1u64, 2u64], total: 2, total_pages: 1, page_num: 1 };
    assert_eq!(page.list.len(), 2);
    let params = PageParams { page_num: Some(1), page_size: None };
    assert_eq!(params.page_num, Some(1));
    let body = ResJsonString("{}".to_string());
    assert_eq!(body.0, "{}");
    let profiles = Profiles { active: "dev".to_string() };
    assert_eq!(profiles.active, "dev");
    let server = Server {
        address: "127.0.0.1".to_string(),
        port: 8080,
        tls: false,
        pem_cert_path: String::new(),
        pem_key_path: String::new(),
    };
    assert_eq!(server.port, 8080);
    let log = Log { level: "INFO".to_string(), path: ".".to_string(), name: "app".to_string() };
    assert_eq!(log.level, "INFO");
    let db = DB {
        url: "sqlite::memory:".to_string(),
        pool_size: 4,
        pool_timeout: 8,
        log: false,
        log_level: "warn".to_string(),
    };
    assert_eq!(db.pool_size, 4);
}

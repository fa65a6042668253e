use wasmcloud_provider_httpserver::settings::is_valid_method;
use wasmcloud_provider_httpserver::{
    cors_filter, start_plan, CorsPlan, Error, Listener, Origins, ServiceSettings, Tls,
    DEFAULT_MAX_CONTENT_LEN,
};

fn strings(list: &[&str]) -> Vec<String> {
    list.iter().map(|s| s.to_string()).collect()
}

fn with_methods(list: &[&str]) -> ServiceSettings {
    let mut s = ServiceSettings::new();
    s.address = Some("127.0.0.1:0".to_string());
    s.cors.allowed_methods = Some(strings(list));
    s
}

fn invalid_parameter(r: Result<CorsPlan, Error>) -> String {
    match r {
        Err(Error::InvalidParameter(m)) => m,
        other => panic!("{:?}", other),
    }
}

#[test]
fn new_settings_are_valid_and_empty() {
    let s = ServiceSettings::new();
    assert!(s.address.is_none() && s.cache_control.is_none() && s.readonly_mode.is_none());
    assert!(s.timeout_ms.is_none() && s.max_content_len.is_none());
    assert!(s.cors.allowed_origins.is_none() && s.cors.allowed_methods.is_none());
    assert!(!s.tls.is_set());
    assert!(s.validate().is_ok());
    assert_eq!(s.content_limit().unwrap(), DEFAULT_MAX_CONTENT_LEN);
}

#[test]
fn tls_is_set_only_with_both_files() {
    let tls = |c: Option<&str>, k: Option<&str>| Tls {
        cert_file: c.map(|s| s.to_string()),
        priv_key_file: k.map(|s| s.to_string()),
    };
    assert!(tls(Some("cert.pem"), Some("key.pem")).is_set());
    assert!(!tls(Some("cert.pem"), None).is_set());
    assert!(!tls(None, Some("key.pem")).is_set());
    assert!(!tls(None, None).is_set());
    assert!(!tls(Some(""), Some("key.pem")).is_set());
    assert!(!tls(Some("cert.pem"), Some("")).is_set());
}

#[test]
fn content_limit_reads_the_text() {
    let mut s = ServiceSettings::new();
    s.max_content_len = Some("20 k".to_string());
    assert_eq!(s.content_limit().unwrap(), 20480);
    assert!(s.validate().is_ok());
    s.max_content_len = Some("2g".to_string());
    assert!(matches!(s.content_limit(), Err(Error::Settings(_))));
    match s.validate() {
        Err(Error::Settings(m)) => assert_eq!(
            m,
            "Invalid size in max_content_len '2g': value must be >0 and <= 1073741824"
        ),
        other => panic!("{:?}", other),
    }
}

#[test]
fn validate_names_the_first_bad_method() {
    let s = with_methods(&["GET", "FOO BAR", "", "POST"]);
    match s.validate() {
        Err(Error::InvalidParameter(m)) => assert_eq!(m, "method: 'FOO BAR'"),
        other => panic!("{:?}", other),
    }
    let s = with_methods(&["GET", "", "FOO BAR"]);
    match s.validate() {
        Err(Error::InvalidParameter(m)) => assert_eq!(m, "method: ''"),
        other => panic!("{:?}", other),
    }
}

#[test]
fn validate_reports_faults_in_order() {
    let mut s = with_methods(&["GE T"]);
    s.cache_control = Some("no\nstore".to_string());
    s.max_content_len = Some("k".to_string());
    assert!(matches!(s.validate(), Err(Error::InvalidParameter(_))));
    s.cors.allowed_methods = Some(strings(&["GET"]));
    match s.validate() {
        Err(Error::Settings(m)) => assert_eq!(m, "Invalid Cache Control header : 'no\nstore'"),
        other => panic!("{:?}", other),
    }
    s.cache_control = Some("no-store, max-age=0".to_string());
    match s.validate() {
        Err(Error::Settings(m)) => assert!(m.starts_with("Invalid size in max_content_len: 'k'.")),
        other => panic!("{:?}", other),
    }
    s.max_content_len = Some("1M".to_string());
    assert!(s.validate().is_ok());
}

#[test]
fn cors_without_settings_allows_any_origin() {
    let plan = cors_filter(&ServiceSettings::new()).unwrap();
    assert!(matches!(plan.origins, Origins::Any));
    assert!(plan.allowed_headers.is_none());
    assert!(plan.allowed_methods.is_empty());
    assert!(plan.exposed_headers.is_none());
    assert!(plan.max_age_secs.is_none());
}

#[test]
fn cors_with_an_empty_origin_list_allows_any_origin() {
    let mut s = ServiceSettings::new();
    s.cors.allowed_origins = Some(Vec::new());
    assert!(matches!(cors_filter(&s).unwrap().origins, Origins::Any));
}

#[test]
fn cors_takes_over_what_is_configured() {
    let mut s = ServiceSettings::new();
    s.cors.allowed_origins = Some(strings(&["https://a.example", "https://b.example"]));
    s.cors.allowed_headers = Some(strings(&["content-type", "x-token"]));
    s.cors.allowed_methods = Some(strings(&["GET", "POST", "OPTIONS"]));
    s.cors.exposed_headers = Some(strings(&[]));
    s.cors.max_age_secs = Some(300);
    let plan = cors_filter(&s).unwrap();
    match plan.origins {
        Origins::Listed(o) => assert_eq!(o, strings(&["https://a.example", "https://b.example"])),
        Origins::Any => panic!("any origin"),
    }
    assert_eq!(plan.allowed_headers, Some(strings(&["content-type", "x-token"])));
    assert_eq!(plan.allowed_methods, strings(&["GET", "POST", "OPTIONS"]));
    assert_eq!(plan.exposed_headers, Some(Vec::new()));
    assert_eq!(plan.max_age_secs, Some(300));
}

#[test]
fn cors_rejects_foobar() {
    let m = invalid_parameter(cors_filter(&with_methods(&["FOOBAR"])));
    assert_eq!(m, "method: 'FOOBAR'");
    assert!(m.contains("FOOBAR"));
    match with_methods(&["GET", "FOOBAR"]).validate() {
        Err(Error::InvalidParameter(m)) => assert_eq!(m, "method: 'FOOBAR'"),
        other => panic!("{:?}", other),
    }
    match start_plan(&with_methods(&["FOOBAR"])) {
        Err(Error::InvalidParameter(m)) => assert_eq!(m, "method: 'FOOBAR'"),
        other => panic!("{:?}", other),
    }
}

#[test]
fn cors_rejects_a_token_that_is_no_method() {
    for bad in ["FOO BAR", "", " GET", "GET ", "GET,POST", "G\u{c9}T", "A#B", "A$B", "A%B", "A&B", "A'B", "A\"B", "A/B", "A:B", "A\u{0}B", "FOOBAR", "PURGE", "get", "Get", "GETS", "GE", "M-SEARCH", "a!b*c+d-e.f^g_h`i|j~k0", "VERY-LONG-EXTENSION-METHOD-NAME"] {
        let m = invalid_parameter(cors_filter(&with_methods(&["GET", bad, "also bad"])));
        assert_eq!(m, format!("method: '{}'", bad));
        assert!(start_plan(&with_methods(&[bad])).is_err());
        assert!(with_methods(&[bad]).validate().is_err());
    }
}

#[test]
fn cors_accepts_the_methods_that_http_defines() {
    let tokens = ["GET", "HEAD", "POST", "PUT", "DELETE", "CONNECT", "OPTIONS", "TRACE", "PATCH"];
    for t in tokens {
        assert!(cors_filter(&with_methods(&[t])).is_ok());
    }
    let plan = cors_filter(&with_methods(&tokens)).unwrap();
    assert_eq!(plan.allowed_methods, strings(&tokens));
    assert!(with_methods(&tokens).validate().is_ok());
}

#[test]
fn start_plan_needs_an_address() {
    let s = ServiceSettings::new();
    match start_plan(&s) {
        Err(Error::Init(m)) => assert_eq!(m, "no address to listen on"),
        other => panic!("{:?}", other),
    }
    let mut s = with_methods(&["NOT A METHOD"]);
    s.address = None;
    assert!(matches!(start_plan(&s), Err(Error::Init(_))));
}

#[test]
fn start_plan_fails_on_a_bad_method_before_any_bind() {
    match start_plan(&with_methods(&["GET", "FOO BAR"])) {
        Err(Error::InvalidParameter(m)) => assert_eq!(m, "method: 'FOO BAR'"),
        other => panic!("{:?}", other),
    }
}

#[test]
fn start_plan_picks_the_listener() {
    let mut s = with_methods(&["GET"]);
    s.timeout_ms = Some(250);
    let plan = start_plan(&s).unwrap();
    assert_eq!(plan.address, "127.0.0.1:0");
    assert_eq!(plan.timeout_ms, Some(250));
    assert!(matches!(plan.listener, Listener::Plain));
    assert_eq!(plan.cors.allowed_methods, strings(&["GET"]));
    s.tls.cert_file = Some("/etc/cert.pem".to_string());
    assert!(matches!(start_plan(&s).unwrap().listener, Listener::Plain));
    s.tls.priv_key_file = Some("/etc/key.pem".to_string());
    match start_plan(&s).unwrap().listener {
        Listener::Tls { cert_file, priv_key_file } => {
            assert_eq!(cert_file, "/etc/cert.pem");
            assert_eq!(priv_key_file, "/etc/key.pem");
        }
        Listener::Plain => panic!("plain"),
    }
    s.tls.cert_file = Some(String::new());
    assert!(matches!(start_plan(&s).unwrap().listener, Listener::Plain));
}

#[test]
fn valid_methods() {
    for t in ["GET", "HEAD", "POST", "PUT", "DELETE", "CONNECT", "OPTIONS", "TRACE", "PATCH"] {
        assert!(is_valid_method(t));
    }
    for t in ["FOOBAR", "get", "", "GET ", "PATCHES", "TRACK", "PURGE", "\u{47}\u{45}\u{54}\u{0}"] {
        assert!(!is_valid_method(t));
    }
}

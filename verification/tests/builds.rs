use pop_os_api::builds::Build;
use pop_os_api::builds::BuildsError;
use pop_os_api::builds::RawBuildResponse;
use pop_os_api::builds::Transport;

fn raw(build: &str) -> RawBuildResponse {
    RawBuildResponse {
        build: build.to_owned(),
        channel: "intel".to_owned(),
        sha_sum: "abc123".to_owned(),
        url: "http://example.com/x.iso".to_owned(),
        version: "18.04".to_owned(),
        size: 1048576,
    }
}

struct CannedTransport {
    body: String,
    calls: usize,
}

impl Transport for CannedTransport {
    fn fetch(&mut self, _url: &str) -> Result<String, String> {
        self.calls += 1;
        Ok(self.body.clone())
    }
}

struct FailingTransport;

impl Transport for FailingTransport {
    fn fetch(&mut self, _url: &str) -> Result<String, String> {
        Err("connection refused".to_owned())
    }
}

struct RecordingTransport {
    seen: Vec<String>,
}

impl Transport for RecordingTransport {
    fn fetch(&mut self, url: &str) -> Result<String, String> {
        self.seen.push(url.to_owned());
        Err("unreachable host".to_owned())
    }
}

#[test]
fn url_for_release() {
    assert_eq!(
        Build::url("18.04", "intel"),
        "https://api.pop-os.org/builds/18.04/intel"
    );
}

#[test]
fn url_empty_segments() {
    assert_eq!(Build::url("", ""), "https://api.pop-os.org/builds//");
}

#[test]
fn round_trip_conversion() {
    let record = raw("123").into_release().expect("conversion must succeed");
    assert_eq!(record.build, 123);
    assert_eq!(record.channel, "intel");
    assert_eq!(record.sha_sum, "abc123");
    assert_eq!(record.url, "http://example.com/x.iso");
    assert_eq!(record.version, "18.04");
    assert_eq!(record.size, 1048576);
}

#[test]
fn round_trip_bounds() {
    assert_eq!(raw("0").into_release().unwrap().build, 0);
    assert_eq!(raw("65535").into_release().unwrap().build, 65535);
    assert_eq!(raw("+42").into_release().unwrap().build, 42);
    assert_eq!(raw("007").into_release().unwrap().build, 7);
}

#[test]
fn invalid_build_number_text() {
    match raw("abc").into_release() {
        Err(BuildsError::BuildNaN(s)) => assert_eq!(s, "abc"),
        other => panic!("expected BuildNaN, got {:?}", other),
    }
}

#[test]
fn invalid_build_number_overflow() {
    match raw("99999999").into_release() {
        Err(BuildsError::BuildNaN(s)) => assert_eq!(s, "99999999"),
        other => panic!("expected BuildNaN, got {:?}", other),
    }
    assert!(matches!(
        raw("65536").into_release(),
        Err(BuildsError::BuildNaN(_))
    ));
    assert!(matches!(
        raw("").into_release(),
        Err(BuildsError::BuildNaN(_))
    ));
    assert!(matches!(
        raw("-1").into_release(),
        Err(BuildsError::BuildNaN(_))
    ));
    assert!(matches!(
        raw("12 ").into_release(),
        Err(BuildsError::BuildNaN(_))
    ));
}

#[test]
fn malformed_json_body() {
    let mut transport = CannedTransport {
        body: "{not json".to_owned(),
        calls: 0,
    };
    assert!(matches!(
        Build::get_with("18.04", "intel", &mut transport),
        Err(BuildsError::Json(_))
    ));
}

#[test]
fn missing_fields_body() {
    let mut transport = CannedTransport {
        body: "{}".to_owned(),
        calls: 0,
    };
    assert!(matches!(
        Build::get_with("18.04", "intel", &mut transport),
        Err(BuildsError::Json(_))
    ));
}

#[test]
fn mistyped_field_body() {
    // `build` as a JSON number instead of a string is a schema error.
    let body = "{\"build\":123,\"channel\":\"intel\",\"sha_sum\":\"abc123\",\
                \"url\":\"http://example.com/x.iso\",\"version\":\"18.04\",\"size\":1048576}";
    let mut transport = CannedTransport {
        body: body.to_owned(),
        calls: 0,
    };
    assert!(matches!(
        Build::get_with("18.04", "intel", &mut transport),
        Err(BuildsError::Json(_))
    ));
}

#[test]
fn non_object_body() {
    let mut transport = CannedTransport {
        body: "[1,2,3]".to_owned(),
        calls: 0,
    };
    assert!(matches!(
        Build::get_with("18.04", "intel", &mut transport),
        Err(BuildsError::Json(_))
    ));
}

#[test]
fn transport_failure_propagates() {
    match Build::get_with("18.04", "intel", &mut FailingTransport) {
        Err(BuildsError::Get(why)) => assert_eq!(why, "connection refused"),
        other => panic!("expected Get, got {:?}", other),
    }
}

#[test]
fn transport_receives_the_built_url() {
    let mut transport = RecordingTransport { seen: Vec::new() };
    let result = Build::get_with("18.04", "intel", &mut transport);
    assert!(matches!(result, Err(BuildsError::Get(_))));
    assert_eq!(
        transport.seen,
        vec!["https://api.pop-os.org/builds/18.04/intel".to_owned()]
    );
}

#[test]
fn end_to_end_scenario() {
    let body = "{\"build\":\"123\",\"channel\":\"intel\",\"sha_sum\":\"abc123\",\
                \"url\":\"http://example.com/x.iso\",\"version\":\"18.04\",\"size\":1048576}";
    let mut transport = CannedTransport {
        body: body.to_owned(),
        calls: 0,
    };
    let record = Build::get_with("18.04", "intel", &mut transport).expect("fetch must succeed");
    assert_eq!(record.build, 123);
    assert_eq!(record.channel, "intel");
    assert_eq!(record.sha_sum, "abc123");
    assert_eq!(record.url, "http://example.com/x.iso");
    assert_eq!(record.version, "18.04");
    assert_eq!(record.size, 1048576);
    assert_eq!(transport.calls, 1);
}

#[test]
fn extra_fields_are_ignored() {
    let body = "{\"build\":\"9\",\"channel\":\"nvidia\",\"sha_sum\":\"ff\",\
                \"url\":\"http://example.com/y.iso\",\"version\":\"22.04\",\
                \"size\":18446744073709551615,\"comment\":\"extra\"}";
    let record = pop_os_api::builds::from_response(body).expect("fetch must succeed");
    assert_eq!(record.build, 9);
    assert_eq!(record.channel, "nvidia");
    assert_eq!(record.size, 18446744073709551615);
}

#[test]
fn invalid_build_number_from_body() {
    let body = "{\"build\":\"abc\",\"channel\":\"intel\",\"sha_sum\":\"abc123\",\
                \"url\":\"http://example.com/x.iso\",\"version\":\"18.04\",\"size\":1048576}";
    match pop_os_api::builds::from_response(body) {
        Err(BuildsError::BuildNaN(s)) => assert_eq!(s, "abc"),
        other => panic!("expected BuildNaN, got {:?}", other),
    }
}

#[test]
fn build_exists_returns_the_build_number() {
    let body = "{\"build\":\"123\",\"channel\":\"intel\",\"sha_sum\":\"abc123\",\
                \"url\":\"http://example.com/x.iso\",\"version\":\"18.04\",\"size\":1048576}";
    let mut transport = CannedTransport {
        body: body.to_owned(),
        calls: 0,
    };
    assert_eq!(
        Build::build_exists("18.04", "intel", &mut transport).unwrap(),
        123
    );
    assert!(matches!(
        Build::build_exists("18.04", "intel", &mut FailingTransport),
        Err(BuildsError::Get(_))
    ));
}

#[test]
fn parse_u16_matches_std() {
    for case in [
        "0", "1", "9", "65535", "65536", "99999999", "+1", "+", "", "abc", "-1", " 1", "1 ",
        "0x10", "007", "+65535", "1e3", "\u{0661}\u{0662}",
    ] {
        assert_eq!(
            pop_os_api::builds::parse_u16(case),
            case.parse::<u16>().ok(),
            "mismatch on {:?}",
            case
        );
    }
}

#[test]
fn status_variant_is_reserved() {
    // No default transport produces it; it exists for transports that
    // surface non-success HTTP statuses themselves.
    let e = BuildsError::Status(404);
    assert!(matches!(e, BuildsError::Status(404)));
}

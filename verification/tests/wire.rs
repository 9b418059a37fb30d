use snowflake_api::converter::SnowflakeType;
use snowflake_api::requests::{
    CertLoginRequest, CertRequestData, ClientEnvironment, ExecRequest, ExecRequestBuilder,
    LoginRequest, LoginRequestCommon, PasswordLoginRequest, PasswordRequestData,
    RenewSessionRequest, SessionParameters,
};
use snowflake_api::wire::{WireField, WireValue};

fn text(name: &str, value: &str) -> WireField {
    WireField { name: name.to_string(), value: WireValue::Text(value.to_string()) }
}

fn flag(name: &str, value: bool) -> WireField {
    WireField { name: name.to_string(), value: WireValue::Bool(value) }
}

fn number(name: &str, value: u64) -> WireField {
    WireField { name: name.to_string(), value: WireValue::Number(value) }
}

fn object(name: &str, fields: Vec<WireField>) -> WireField {
    WireField { name: name.to_string(), value: WireValue::Object(fields) }
}

fn typed(kind: &str, value: &str) -> Vec<WireField> {
    vec![text("type", kind), text("value", value)]
}

fn common() -> LoginRequestCommon {
    LoginRequestCommon {
        client_app_id: "Go".to_string(),
        client_app_version: "1.6.22".to_string(),
        svn_revision: String::new(),
        account_name: "acme".to_string(),
        login_name: "alice".to_string(),
        session_parameters: SessionParameters { client_validate_default_parameters: true },
        client_environment: ClientEnvironment {
            application: "Rust".to_string(),
            os: "darwin".to_string(),
            os_version: "gc-arm64".to_string(),
            ocsp_mode: "FAIL_OPEN".to_string(),
        },
    }
}

fn common_fields() -> Vec<WireField> {
    vec![
        text("CLIENT_APP_ID", "Go"),
        text("CLIENT_APP_VERSION", "1.6.22"),
        text("SVN_REVISION", ""),
        text("ACCOUNT_NAME", "acme"),
        text("LOGIN_NAME", "alice"),
        object("SESSION_PARAMETERS", vec![flag("CLIENT_VALIDATE_DEFAULT_PARAMETERS", true)]),
        object(
            "CLIENT_ENVIRONMENT",
            vec![
                text("APPLICATION", "Rust"),
                text("OS", "darwin"),
                text("OS_VERSION", "gc-arm64"),
                text("OCSP_MODE", "FAIL_OPEN"),
            ],
        ),
    ]
}

#[test]
fn renewal_serializes_its_two_fields_exactly() {
    let req = RenewSessionRequest {
        old_session_token: "abc".to_string(),
        request_type: "RENEW".to_string(),
    };
    let expected =
        WireValue::Object(vec![text("oldSessionToken", "abc"), text("requestType", "RENEW")]);
    assert_eq!(req.to_wire(), expected);
}

#[test]
fn password_login_keeps_password_beside_the_common_fields() {
    let data = PasswordRequestData { login_request_common: common(), password: "s3cret".to_string() };
    let wire = data.to_wire();
    let mut expected = common_fields();
    expected.push(text("PASSWORD", "s3cret"));
    assert_eq!(wire, WireValue::Object(expected));
    assert_eq!(wire.field("PASSWORD"), Some(&WireValue::Text("s3cret".to_string())));
    assert_eq!(wire.field("ACCOUNT_NAME"), Some(&WireValue::Text("acme".to_string())));
    assert_eq!(wire.field("LOGIN_NAME"), Some(&WireValue::Text("alice".to_string())));
    assert_eq!(wire.field("login_request_common"), None);
    assert_eq!(wire.field("LOGIN_REQUEST_COMMON"), None);
    assert_eq!(wire.field("password"), None);
}

#[test]
fn password_login_request_wraps_the_payload_under_data() {
    let req: PasswordLoginRequest = LoginRequest {
        data: PasswordRequestData { login_request_common: common(), password: "pw".to_string() },
    };
    let mut payload = common_fields();
    payload.push(text("PASSWORD", "pw"));
    assert_eq!(req.to_wire(), WireValue::Object(vec![object("data", payload)]));
}

#[test]
fn certificate_login_keeps_authenticator_and_token_beside_the_common_fields() {
    let data = CertRequestData {
        login_request_common: common(),
        authenticator: "SNOWFLAKE_JWT".to_string(),
        token: "e30.e30.sig".to_string(),
    };
    let mut expected = common_fields();
    expected.push(text("AUTHENTICATOR", "SNOWFLAKE_JWT"));
    expected.push(text("TOKEN", "e30.e30.sig"));
    assert_eq!(data.to_wire(), WireValue::Object(expected));
    let req: CertLoginRequest = LoginRequest {
        data: CertRequestData {
            login_request_common: common(),
            authenticator: "SNOWFLAKE_JWT".to_string(),
            token: "e30.e30.sig".to_string(),
        },
    };
    let mut payload = common_fields();
    payload.push(text("AUTHENTICATOR", "SNOWFLAKE_JWT"));
    payload.push(text("TOKEN", "e30.e30.sig"));
    assert_eq!(req.to_wire(), WireValue::Object(vec![object("data", payload)]));
}

#[test]
fn common_fields_and_their_parts_serialize_alone() {
    assert_eq!(common().to_wire(), WireValue::Object(common_fields()));
    let params = SessionParameters { client_validate_default_parameters: false };
    assert_eq!(
        params.to_wire(),
        WireValue::Object(vec![flag("CLIENT_VALIDATE_DEFAULT_PARAMETERS", false)])
    );
    let env = ClientEnvironment {
        application: "a".to_string(),
        os: "b".to_string(),
        os_version: "c".to_string(),
        ocsp_mode: "d".to_string(),
    };
    assert_eq!(
        env.to_wire(),
        WireValue::Object(vec![
            text("APPLICATION", "a"),
            text("OS", "b"),
            text("OS_VERSION", "c"),
            text("OCSP_MODE", "d"),
        ])
    );
}

#[test]
fn typed_value_serializes_under_type_and_value() {
    let sf = SnowflakeType { kind: "NUMBER".to_string(), value: "5".to_string() };
    assert_eq!(sf.to_wire(), WireValue::Object(typed("NUMBER", "5")));
}

#[test]
fn typed_value_reads_back() {
    let sf = SnowflakeType { kind: "TEXT".to_string(), value: "hi".to_string() };
    let back = SnowflakeType::from_wire(&sf.to_wire()).unwrap();
    assert_eq!(back.kind, "TEXT");
    assert_eq!(back.value, "hi");
}

#[test]
fn typed_value_is_not_read_from_another_shape() {
    assert!(SnowflakeType::from_wire(&WireValue::Bool(true)).is_none());
    assert!(SnowflakeType::from_wire(&WireValue::Text("NUMBER".to_string())).is_none());
    assert!(SnowflakeType::from_wire(&WireValue::Object(vec![])).is_none());
    assert!(SnowflakeType::from_wire(&WireValue::Object(vec![text("type", "TEXT")])).is_none());
    assert!(SnowflakeType::from_wire(&WireValue::Object(vec![text("value", "x")])).is_none());
    assert!(SnowflakeType::from_wire(&WireValue::Object(vec![
        text("type", "NUMBER"),
        number("value", 5),
    ]))
    .is_none());
    assert!(SnowflakeType::from_wire(&WireValue::Object(vec![
        text("kind", "NUMBER"),
        text("value", "5"),
    ]))
    .is_none());
}

#[test]
fn typed_value_is_read_whatever_the_order_of_its_fields() {
    let wire = WireValue::Object(vec![text("value", "5"), flag("extra", true), text("type", "NUMBER")]);
    let sf = SnowflakeType::from_wire(&wire).unwrap();
    assert_eq!(sf.kind, "NUMBER");
    assert_eq!(sf.value, "5");
}

#[test]
fn statement_serializes_under_the_documented_names() {
    let req = ExecRequestBuilder::new("SELECT ? AS x").bind(5).bind("hi").sequence_id(3).build();
    let expected = WireValue::Object(vec![
        text("sqlText", "SELECT ? AS x"),
        flag("asyncExec", false),
        number("sequenceId", 3),
        flag("isInternal", false),
        object(
            "bindings",
            vec![object("1", typed("NUMBER", "5")), object("2", typed("TEXT", "hi"))],
        ),
    ]);
    assert_eq!(req.to_wire(), Some(expected));
}

#[test]
fn unparameterized_statement_serializes_an_empty_bindings_object() {
    let req = ExecRequestBuilder::new("SELECT 1").build();
    let expected = WireValue::Object(vec![
        text("sqlText", "SELECT 1"),
        flag("asyncExec", false),
        number("sequenceId", 0),
        flag("isInternal", false),
        object("bindings", vec![]),
    ]);
    assert_eq!(req.to_wire(), Some(expected));
}

#[test]
fn statement_flags_serialize_as_set() {
    let mut req = ExecRequestBuilder::new("q").build();
    req.async_exec = true;
    req.is_internal = true;
    req.sequence_id = u64::MAX;
    let wire = req.to_wire().unwrap();
    assert_eq!(wire.field("asyncExec"), Some(&WireValue::Bool(true)));
    assert_eq!(wire.field("isInternal"), Some(&WireValue::Bool(true)));
    assert_eq!(wire.field("sequenceId"), Some(&WireValue::Number(u64::MAX)));
}

fn same_request(a: &ExecRequest, b: &ExecRequest, positions: usize) {
    assert_eq!(a.sql_text, b.sql_text);
    assert_eq!(a.async_exec, b.async_exec);
    assert_eq!(a.sequence_id, b.sequence_id);
    assert_eq!(a.is_internal, b.is_internal);
    assert_eq!(a.bindings.len(), positions);
    assert_eq!(b.bindings.len(), positions);
    for i in 1..=positions {
        let key = i.to_string();
        let x = a.bindings.get(&key).unwrap();
        let y = b.bindings.get(&key).unwrap();
        assert_eq!(x.kind, y.kind);
        assert_eq!(x.value, y.value);
    }
}

#[test]
fn statement_round_trips_field_for_field() {
    let mut builder = ExecRequestBuilder::new("INSERT INTO t VALUES (?, ?, ?)").sequence_id(17);
    for i in 0..25u32 {
        builder = builder.bind(i).bind(format!("v{}", i));
    }
    let mut req = builder.build();
    req.async_exec = true;
    let back = ExecRequest::from_wire(&req.to_wire().unwrap()).unwrap();
    same_request(&req, &back, 50);
    assert_eq!(back.to_wire(), req.to_wire());
}

#[test]
fn empty_statement_round_trips() {
    let req = ExecRequestBuilder::new("").build();
    let back = ExecRequest::from_wire(&req.to_wire().unwrap()).unwrap();
    same_request(&req, &back, 0);
}

#[test]
fn statement_is_read_by_name_not_by_place() {
    let wire = WireValue::Object(vec![
        object("bindings", vec![object("2", typed("TEXT", "b")), object("1", typed("TEXT", "a"))]),
        flag("isInternal", true),
        text("unknown", "ignored"),
        number("sequenceId", 8),
        flag("asyncExec", false),
        text("sqlText", "q"),
    ]);
    let req = ExecRequest::from_wire(&wire).unwrap();
    assert_eq!(req.sql_text, "q");
    assert!(!req.async_exec);
    assert!(req.is_internal);
    assert_eq!(req.sequence_id, 8);
    assert_eq!(req.bindings.len(), 2);
    assert_eq!(req.bindings.get("1").unwrap().value, "a");
    assert_eq!(req.bindings.get("2").unwrap().value, "b");
}

#[test]
fn statement_with_a_repeated_key_keeps_the_later_entry() {
    let wire = WireValue::Object(vec![
        text("sqlText", "q"),
        flag("asyncExec", false),
        number("sequenceId", 0),
        flag("isInternal", false),
        object("bindings", vec![object("1", typed("TEXT", "a")), object("1", typed("TEXT", "b"))]),
    ]);
    let req = ExecRequest::from_wire(&wire).unwrap();
    assert_eq!(req.bindings.len(), 1);
    assert_eq!(req.bindings.get("1").unwrap().value, "b");
}

#[test]
fn statement_is_not_read_from_a_wrong_shape() {
    let good = || {
        vec![
            text("sqlText", "q"),
            flag("asyncExec", false),
            number("sequenceId", 0),
            flag("isInternal", false),
            object("bindings", vec![]),
        ]
    };
    assert!(ExecRequest::from_wire(&WireValue::Object(good())).is_some());
    for missing in 0..5 {
        let mut fields = good();
        fields.remove(missing);
        assert!(ExecRequest::from_wire(&WireValue::Object(fields)).is_none());
    }
    let mut fields = good();
    fields[0] = number("sqlText", 1);
    assert!(ExecRequest::from_wire(&WireValue::Object(fields)).is_none());
    let mut fields = good();
    fields[1] = text("asyncExec", "false");
    assert!(ExecRequest::from_wire(&WireValue::Object(fields)).is_none());
    let mut fields = good();
    fields[2] = text("sequenceId", "0");
    assert!(ExecRequest::from_wire(&WireValue::Object(fields)).is_none());
    let mut fields = good();
    fields[3] = number("isInternal", 0);
    assert!(ExecRequest::from_wire(&WireValue::Object(fields)).is_none());
    let mut fields = good();
    fields[4] = text("bindings", "{}");
    assert!(ExecRequest::from_wire(&WireValue::Object(fields)).is_none());
    let mut fields = good();
    fields[4] = object("bindings", vec![text("1", "5")]);
    assert!(ExecRequest::from_wire(&WireValue::Object(fields)).is_none());
    let mut fields = good();
    fields[4] = object(
        "bindings",
        vec![object("1", typed("TEXT", "a")), object("2", vec![text("type", "TEXT")])],
    );
    assert!(ExecRequest::from_wire(&WireValue::Object(fields)).is_none());
    assert!(ExecRequest::from_wire(&WireValue::Text("q".to_string())).is_none());
}

#[test]
fn statement_with_a_missing_position_has_no_wire_shape() {
    let mut req = ExecRequestBuilder::new("q").bind(1).build();
    req.bindings.insert("x".to_string(), SnowflakeType::from("stray"));
    assert_eq!(req.bindings.len(), 2);
    assert_eq!(req.to_wire(), None);
    let mut req = ExecRequestBuilder::new("q").bind(1).bind(2).bind(3).build();
    req.bindings.remove("2");
    req.bindings.insert("4".to_string(), SnowflakeType::from(4));
    assert_eq!(req.to_wire(), None);
    let mut req = ExecRequestBuilder::new("q").bind(1).bind(2).build();
    req.bindings.remove("2");
    assert!(req.to_wire().is_some());
}

#[test]
fn field_reads_the_first_of_a_name() {
    let wire = WireValue::Object(vec![text("a", "1"), text("b", "2"), text("a", "3")]);
    assert_eq!(wire.field("a"), Some(&WireValue::Text("1".to_string())));
    assert_eq!(wire.field("b"), Some(&WireValue::Text("2".to_string())));
    assert_eq!(wire.field("c"), None);
    assert_eq!(wire.field(""), None);
    assert_eq!(WireValue::Object(vec![]).field("a"), None);
    assert_eq!(WireValue::Text("a".to_string()).field("a"), None);
    assert_eq!(WireValue::Bool(true).field("a"), None);
    assert_eq!(WireValue::Number(1).field("a"), None);
}

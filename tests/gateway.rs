use dieah_memory::gateway::{build_connect_params, gateway_info, parse_u16, GatewaySettings};
use dieah_memory::shell::GatewayConnectOptions;

fn options() -> GatewayConnectOptions {
    GatewayConnectOptions {
        url: "ws://127.0.0.1:18789".to_string(),
        token: None,
        password: None,
        client_name: None,
        client_version: None,
        platform: None,
        mode: None,
        instance_id: None,
        role: None,
        scopes: None,
        user_agent: None,
        locale: None,
    }
}

fn settings() -> GatewaySettings {
    GatewaySettings {
        env_port: None,
        env_token: None,
        env_password: None,
        config_port: None,
        config_auth_mode: None,
        config_token: None,
        config_password: None,
    }
}

#[test]
fn connect_params_defaults() {
    let p = build_connect_params(&options());
    assert_eq!(p.min_protocol, 3);
    assert_eq!(p.max_protocol, 3);
    assert_eq!(p.client_id, "webchat-ui");
    assert_eq!(p.display_name, "Dieah");
    assert_eq!(p.version, "dev");
    assert_eq!(p.platform, "desktop");
    assert_eq!(p.mode, "webchat");
    assert_eq!(p.role, "operator");
    assert_eq!(p.scopes, vec!["operator.admin", "operator.approvals", "operator.pairing"]);
    assert!(p.token.is_none() && p.password.is_none() && p.instance_id.is_none());
}

#[test]
fn connect_params_normalised() {
    let mut o = options();
    o.client_name = Some("CLI".to_string());
    o.mode = Some("Backend".to_string());
    o.token = Some("  abc  ".to_string());
    o.password = Some("   ".to_string());
    o.scopes = Some(vec!["operator.read".to_string()]);
    o.locale = Some("en".to_string());
    let p = build_connect_params(&o);
    assert_eq!(p.client_id, "cli");
    assert_eq!(p.mode, "backend");
    assert_eq!(p.token.as_deref(), Some("abc"));
    assert_eq!(p.password, None);
    assert_eq!(p.scopes, vec!["operator.read"]);
    assert_eq!(p.locale.as_deref(), Some("en"));
    let mut o = options();
    o.client_name = Some("my-own-client".to_string());
    o.mode = Some("batch".to_string());
    let p = build_connect_params(&o);
    assert_eq!(p.client_id, "webchat-ui");
    assert_eq!(p.mode, "webchat");
}

#[test]
fn ports_parse_like_u16() {
    assert_eq!(parse_u16("8080"), Some(8080));
    assert_eq!(parse_u16("+12"), Some(12));
    assert_eq!(parse_u16("0065535"), Some(65535));
    assert_eq!(parse_u16("65536"), None);
    assert_eq!(parse_u16("999999999999"), None);
    assert_eq!(parse_u16(""), None);
    assert_eq!(parse_u16("+"), None);
    assert_eq!(parse_u16("-1"), None);
    assert_eq!(parse_u16(" 80"), None);
    for s in ["0", "1", "80", "443", "18789", "65535", "+7", "12x"] {
        assert_eq!(parse_u16(s), s.parse::<u16>().ok());
    }
}

#[test]
fn gateway_info_defaults() {
    let info = gateway_info(None, &settings());
    assert_eq!(info.port, 18789);
    assert_eq!(info.url, "ws://127.0.0.1:18789");
    assert_eq!(info.source, vec!["profile: default", "port: default 18789"]);
    assert!(info.token.is_none() && info.password.is_none() && info.auth_mode.is_none());
}

#[test]
fn gateway_info_from_environment() {
    let mut s = settings();
    s.env_port = Some("9000".to_string());
    s.env_token = Some(" t0k ".to_string());
    s.config_token = Some("cfg".to_string());
    s.config_password = Some("pw".to_string());
    s.config_auth_mode = Some("token".to_string());
    let info = gateway_info(Some("default"), &s);
    assert_eq!(info.port, 9000);
    assert_eq!(info.url, "ws://127.0.0.1:9000");
    assert_eq!(info.token.as_deref(), Some("t0k"));
    assert_eq!(info.password.as_deref(), Some("pw"));
    assert_eq!(info.auth_mode.as_deref(), Some("token"));
    assert_eq!(
        info.source,
        vec![
            "profile: default",
            "port: env OPENCLAW_GATEWAY_PORT",
            "auth: env OPENCLAW_GATEWAY_TOKEN",
            "auth: config gateway.auth.password",
        ]
    );
}

#[test]
fn gateway_info_for_named_profile() {
    let mut s = settings();
    s.env_port = Some("9000".to_string());
    s.env_token = Some("envtok".to_string());
    s.config_port = Some(7001);
    s.config_token = Some("  ".to_string());
    let info = gateway_info(Some(" work "), &s);
    assert_eq!(info.port, 7001);
    assert_eq!(info.url, "ws://127.0.0.1:7001");
    assert_eq!(info.token, None);
    assert_eq!(info.source, vec!["profile: work", "port: config gateway.port"]);
    s.config_port = Some(70_000);
    let info = gateway_info(Some("work"), &s);
    assert_eq!(info.port, 18789);
    assert_eq!(info.url, "ws://127.0.0.1:18789");
    s.config_port = Some(5);
    assert_eq!(gateway_info(Some("work"), &s).url, "ws://127.0.0.1:5");
}

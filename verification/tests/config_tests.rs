use picam_server::config::Config;
use picam_server::digits::parse_u16;
use picam_server::digits::parse_u32;

#[test]
fn default_configuration() {
    let c = Config::default();
    assert_eq!(c.server.host, "0.0.0.0");
    assert_eq!(c.server.port, 8080);
    assert_eq!(c.camera.width, 640);
    assert_eq!(c.camera.height, 480);
    assert_eq!(c.camera.framerate, 15);
}

#[test]
fn overrides_apply_when_well_formed() {
    let c = Config::from_overrides(
        Some("10.0.0.1".to_string()),
        Some("9000".to_string()),
        Some("1920".to_string()),
        Some("1080".to_string()),
        Some("30".to_string()),
    );
    assert_eq!(c.server.host, "10.0.0.1");
    assert_eq!(c.server.port, 9000);
    assert_eq!(c.camera.width, 1920);
    assert_eq!(c.camera.height, 1080);
    assert_eq!(c.camera.framerate, 30);
}

#[test]
fn malformed_overrides_keep_defaults() {
    let c = Config::from_overrides(
        None,
        Some("70000".to_string()),
        Some("wide".to_string()),
        Some("".to_string()),
        Some("-5".to_string()),
    );
    assert_eq!(c.server.host, "0.0.0.0");
    assert_eq!(c.server.port, 8080);
    assert_eq!(c.camera.width, 640);
    assert_eq!(c.camera.height, 480);
    assert_eq!(c.camera.framerate, 15);
}

#[test]
fn absent_overrides_keep_defaults() {
    let c = Config::from_overrides(None, None, None, None, None);
    assert_eq!(c.server.port, 8080);
    assert_eq!(c.camera.width, 640);
}

#[test]
fn parse_u32_exact_values() {
    assert_eq!(parse_u32("0"), Some(0));
    assert_eq!(parse_u32("007"), Some(7));
    assert_eq!(parse_u32("+30"), Some(30));
    assert_eq!(parse_u32("4294967295"), Some(u32::MAX));
    assert_eq!(parse_u32("4294967296"), None);
    assert_eq!(parse_u32("99999999999999999999"), None);
    assert_eq!(parse_u32(""), None);
    assert_eq!(parse_u32("+"), None);
    assert_eq!(parse_u32("12a"), None);
    assert_eq!(parse_u32(" 12"), None);
    assert_eq!(parse_u32("-12"), None);
}

#[test]
fn parse_u16_exact_values() {
    assert_eq!(parse_u16("8080"), Some(8080));
    assert_eq!(parse_u16("65535"), Some(65535));
    assert_eq!(parse_u16("65536"), None);
    assert_eq!(parse_u16("+1"), Some(1));
    assert_eq!(parse_u16("port"), None);
}

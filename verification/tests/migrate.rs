use ech_board::config::{build_config, CaptchaConfig, EnvConfig};
use ech_board::error::RelayError;
use ech_board::intent::RequestV2;
use ech_board::migrate::{
    csv_bool, csv_num, csv_opt, geo_response, json_blank, menu_blank, menu_to_bbcode,
    migrate_answers, migrate_target, old_ip, parse_name_and_trip, post_text, MenuLink, MenuSection,
};

fn env(provider: &str, url: Option<&str>, secret: Option<&str>) -> EnvConfig {
    EnvConfig {
        server_bind: "0.0.0.0:8080".into(),
        upstream_submit_url: "http://node".into(),
        upstream_request_timeout_ms: 5000,
        sponsor_private_key_base64: "key".into(),
        sponsor_gas_budget: 10,
        sponsor_gas_price: 1000,
        captcha_provider: provider.into(),
        captcha_turnstile_verify_url: url.map(|s| s.to_string()),
        captcha_turnstile_secret: secret.map(|s| s.to_string()),
        forum_package_id: "0x1".into(),
    }
}

fn invalid(e: RelayError) -> String {
    match e {
        RelayError::ConfigInvalid(s) => s,
        other => panic!("{other:?}"),
    }
}

#[test]
fn config_providers() {
    let c = build_config(env(" Disabled\n", None, None)).unwrap();
    assert!(matches!(c.captcha, CaptchaConfig::Disabled));
    assert_eq!(c.server.bind, "0.0.0.0:8080");
    assert_eq!(c.sponsor.gas_price, 1000);
    assert_eq!(c.upstream.request_timeout_ms, 5000);
    let t = build_config(env("TURNSTILE", Some("https://v"), Some("s"))).unwrap();
    match t.captcha {
        CaptchaConfig::Turnstile(cfg) => {
            assert_eq!(cfg.verify_url, "https://v");
            assert_eq!(cfg.secret, "s");
        }
        other => panic!("{other:?}"),
    }
    assert_eq!(
        invalid(build_config(env("turnstile", None, Some("s"))).unwrap_err()),
        "RELAY_CAPTCHA_TURNSTILE_VERIFY_URL is required when RELAY_CAPTCHA_PROVIDER=turnstile"
    );
    assert_eq!(
        invalid(build_config(env("turnstile", Some("u"), None)).unwrap_err()),
        "RELAY_CAPTCHA_TURNSTILE_SECRET is required when RELAY_CAPTCHA_PROVIDER=turnstile"
    );
    assert_eq!(
        invalid(build_config(env(" ReCaptcha ", None, None)).unwrap_err()),
        "unsupported RELAY_CAPTCHA_PROVIDER value: recaptcha"
    );
}

#[test]
fn csv_fields() {
    assert_eq!(csv_num(Some(" 42 ")), 42);
    assert_eq!(csv_num(Some("4x")), 0);
    assert_eq!(csv_num(Some("")), 0);
    assert_eq!(csv_num(None), 0);
    assert!(csv_bool(Some("1")) && csv_bool(Some("TRUE")) && csv_bool(Some("yes")));
    assert!(!csv_bool(Some("no")) && !csv_bool(Some(" 1")) && !csv_bool(None));
    assert_eq!(csv_opt(Some("  subject ")), Some("subject".to_string()));
    assert_eq!(csv_opt(Some("   ")), None);
    assert_eq!(csv_opt(None), None);
    assert!(json_blank(Some(" null ")) && json_blank(Some("")) && json_blank(None));
    assert!(!json_blank(Some("[]")));
}

#[test]
fn names_and_tripcodes() {
    assert_eq!(parse_name_and_trip("Anon #trip"), (Some("Anon".to_string()), Some("#trip".to_string())));
    assert_eq!(parse_name_and_trip("##secure"), (None, Some("##secure".to_string())));
    assert_eq!(parse_name_and_trip("  Bob  "), (Some("Bob".to_string()), None));
    assert_eq!(parse_name_and_trip("   "), (None, None));
}

#[test]
fn migrate_entry_points() {
    let (f, r) = migrate_target(true, true, true);
    assert_eq!(f, "board_apply_intent_uid_geo_tripcode");
    assert!(matches!(r[..], [RequestV2::Uid, RequestV2::Geo, RequestV2::Tripcode]));
    let (f, r) = migrate_target(false, false, true);
    assert_eq!(f, "board_apply_thread_intent_uid_tripcode");
    assert!(matches!(r[..], [RequestV2::Uid, RequestV2::Tripcode]));
    let (f, r) = migrate_target(false, true, false);
    assert_eq!(f, "board_apply_thread_intent_uid_geo");
    assert_eq!(r.len(), 2);
    let (f, r) = migrate_target(true, false, false);
    assert_eq!(f, "board_apply_intent_uid");
    assert!(matches!(r[..], [RequestV2::Uid]));
}

#[test]
fn migrate_answers_layout() {
    let a = migrate_answers(vec![7, 7], Some(840), Some((true, "ab".to_string()))).unwrap();
    assert_eq!(a, vec![7, 7, 0x48, 0x03, 0, 0, 1, 2, b'a', b'b']);
    assert_eq!(migrate_answers(vec![1], None, None).unwrap(), vec![1]);
}

#[test]
fn old_addresses_and_countries() {
    assert_eq!(old_ip(Some("10.0.0.1")), 0x0A00_0001);
    assert_eq!(old_ip(Some("not an ip")), 0);
    assert_eq!(old_ip(None), 0);
    assert_eq!(geo_response(Some("US")), 840);
    assert_eq!(geo_response(Some("ZZ")), 0);
    assert_eq!(geo_response(None), 0);
}

#[test]
fn menus_become_bbcode() {
    assert!(menu_blank(" [] ") && menu_blank("null") && menu_blank(""));
    assert!(!menu_blank("[{}]"));
    let sections = vec![
        MenuSection {
            name: "Rules".into(),
            links: Some(vec![
                MenuLink { label: "one".into(), url: "https://a".into() },
                MenuLink { label: "".into(), url: "https://b".into() },
            ]),
        },
        MenuSection { name: "".into(), links: None },
    ];
    assert_eq!(
        menu_to_bbcode(&sections),
        Some("[b]Rules[/b]\n[link url=https://a]one[/link]\n".to_string())
    );
    assert_eq!(menu_to_bbcode(&[MenuSection { name: "".into(), links: Some(vec![]) }]), None);
}

#[test]
fn post_texts() {
    assert_eq!(post_text(Some("a\r\nb\rc"), 0, Some("[b]m[/b]\n".into())), "a\nb\nc\n[b]m[/b]\n");
    assert_eq!(post_text(None, 0, Some("m".into())), "m");
    assert_eq!(post_text(Some("x"), 3, Some("m".into())), "x");
    assert_eq!(post_text(None, 0, None), "");
}

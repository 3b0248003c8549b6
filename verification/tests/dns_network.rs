use catcher::dns::host_mapping_from;
use catcher::dns::{
    cache_freshness, keep_resolved, on_lookup_failure, parse_host_mapping, plan_lookup,
    CacheFreshness, DnsConfig, DnsMode, FailurePlan, LookupPlan,
};
use catcher::error::CatcherError;
use catcher::network::{
    detect_system_proxy, no_proxy_list, tls_plan, OsProxySettings, ProxyMode, TlsConfig,
    TlsVersion,
};
use catcher::strmap::StrMap;

/// Reads the operating system's proxy settings the way the client does.
fn os_settings() -> Option<OsProxySettings> {
    let os = proxy_cfg::get_proxy_config().ok()??;
    Some(OsProxySettings {
        https: os.proxies.get("https").cloned(),
        http: os.proxies.get("http").cloned(),
        all: os.proxies.get("*").cloned(),
        whitelist: os.whitelist.into_iter().collect(),
    })
}

#[test]
fn dns_config_with_host_mapping_keeps_mapping() {
    let mut host_mapping = StrMap::new();
    host_mapping.insert("api.test".to_string(), "127.0.0.1".to_string());
    let config = DnsConfig {
        host_mapping,
        ..Default::default()
    };
    assert_eq!(
        config.host_mapping.get("api.test"),
        Some(&"127.0.0.1".to_string())
    );
}

#[test]
fn dns_config_uses_default_values() {
    let config = DnsConfig::default();
    assert_eq!(config.mode, DnsMode::Catcher);
    assert_eq!(config.cache_size, 512);
    assert_eq!(config.cache_ttl_secs, 300);
    assert_eq!(config.negative_ttl_secs, 60);
    assert_eq!(config.stale_ttl_secs, 3600);
    assert!(config.stale_on_error);
    assert!(config.nameservers.is_empty());
    assert!(config.host_mapping.is_empty());
    assert!(!config.fallback_to_default_nameservers);
    assert!(config.use_catcher_resolver());
}

#[test]
fn dns_config_supports_multiple_host_mappings() {
    let mut host_mapping = StrMap::new();
    host_mapping.insert("api.example.com".to_string(), "10.0.0.1".to_string());
    host_mapping.insert("cdn.example.com".to_string(), "10.0.0.2".to_string());
    let config = DnsConfig {
        host_mapping,
        ..Default::default()
    };
    assert_eq!(config.host_mapping.len(), 2);
    assert_eq!(
        config.host_mapping.get("api.example.com"),
        Some(&"10.0.0.1".to_string())
    );
    assert_eq!(
        config.host_mapping.get("cdn.example.com"),
        Some(&"10.0.0.2".to_string())
    );
}

#[test]
fn native_mode_skips_catcher_resolver() {
    let config = DnsConfig { mode: DnsMode::Native, ..Default::default() };
    assert!(!config.use_catcher_resolver());
}

#[test]
fn host_mapping_parses_addresses_in_order() {
    let mut m = StrMap::new();
    m.insert("a.test".to_string(), "127.0.0.1".to_string());
    m.insert("b.test".to_string(), "::1".to_string());
    let parsed = parse_host_mapping(&m).unwrap();
    assert_eq!(parsed.len(), 2);
    assert_eq!(parsed[0], ("a.test".to_string(), vec![127, 0, 0, 1]));
    assert_eq!(parsed[1].0, "b.test");
    assert_eq!(parsed[1].1.len(), 16);
    assert_eq!(parsed[1].1[15], 1);
}

#[test]
fn bad_mapping_address_is_invalid_config() {
    let mut m = StrMap::new();
    m.insert("ok.test".to_string(), "10.0.0.1".to_string());
    m.insert("bad.test".to_string(), "not-an-ip".to_string());
    match parse_host_mapping(&m) {
        Err(CatcherError::InvalidConfig(msg)) => {
            assert_eq!(msg, "dns.host_mapping: invalid IP 'not-an-ip' for host 'bad.test'")
        }
        other => panic!("unexpected {:?}", other),
    }
}

#[test]
fn cache_freshness_boundaries() {
    assert_eq!(cache_freshness(299_999, 300, 3600), CacheFreshness::Fresh);
    assert_eq!(cache_freshness(300_000, 300, 3600), CacheFreshness::Stale);
    assert_eq!(cache_freshness(3_899_999, 300, 3600), CacheFreshness::Stale);
    assert_eq!(cache_freshness(3_900_000, 300, 3600), CacheFreshness::Expired);
}

#[test]
fn lookup_plans() {
    assert_eq!(plan_lookup(true, Some(0), 300, 3600, false), LookupPlan::Mapped);
    assert_eq!(plan_lookup(false, None, 300, 3600, false), LookupPlan::Resolve);
    assert_eq!(plan_lookup(false, Some(1_000), 300, 3600, false), LookupPlan::Cached);
    assert_eq!(plan_lookup(false, Some(400_000), 300, 3600, false), LookupPlan::CachedAndRefresh);
    assert_eq!(plan_lookup(false, Some(400_000), 300, 3600, true), LookupPlan::Cached);
    assert_eq!(plan_lookup(false, Some(5_000_000), 300, 3600, false), LookupPlan::Resolve);
}

#[test]
fn stale_answers_and_generations() {
    assert_eq!(on_lookup_failure(true, true), FailurePlan::UseCached);
    assert_eq!(on_lookup_failure(false, true), FailurePlan::Fail);
    assert_eq!(on_lookup_failure(true, false), FailurePlan::Fail);
    assert!(keep_resolved(4, 4));
    assert!(!keep_resolved(4, 5));
}

#[test]
fn detect_does_not_panic_without_proxy() {
    let _ = detect_system_proxy(os_settings());
}

#[test]
fn resolved_proxy_has_scheme() {
    if let Some(proxy) = detect_system_proxy(os_settings()) {
        let url = proxy.url.expect("resolved proxy must have url");
        assert!(
            url.contains("://"),
            "proxy URL should contain scheme prefix: {url}"
        );
    }
}

#[test]
fn resolved_proxy_has_mode_manual() {
    if let Some(proxy) = detect_system_proxy(os_settings()) {
        assert_eq!(proxy.mode, ProxyMode::Manual);
    }
}

#[test]
fn detect_system_proxy_returns_none_without_proxy() {
    // The environment may or may not have a system proxy: only check that
    // detection completes.
    let result = detect_system_proxy(os_settings());
    let _ = result;
}

#[test]
fn e2e_no_proxy_does_not_panic() {
    let result = detect_system_proxy(os_settings());
    if let Some(proxy) = &result {
        println!("[INFO] OS reports proxy: {:?}", proxy.url);
    }
}

#[test]
fn system_proxy_priority_and_scheme() {
    let s = OsProxySettings {
        https: None,
        http: Some("proxy.local:8080".into()),
        all: Some("socks5://all:1080".into()),
        whitelist: vec!["localhost".into()],
    };
    let p = detect_system_proxy(Some(s)).unwrap();
    assert_eq!(p.url.as_deref(), Some("http://proxy.local:8080"));
    assert_eq!(p.mode, ProxyMode::Manual);
    assert!(p.auth.is_none());
    assert_eq!(p.no_proxy, vec!["localhost".to_string()]);
    let s2 = OsProxySettings {
        https: Some("https://secure:443".into()),
        http: Some("plain:80".into()),
        all: None,
        whitelist: vec![],
    };
    assert_eq!(detect_system_proxy(Some(s2)).unwrap().url.as_deref(), Some("https://secure:443"));
    let empty = OsProxySettings { https: None, http: None, all: None, whitelist: vec![] };
    assert!(detect_system_proxy(Some(empty)).is_none());
    assert!(detect_system_proxy(None).is_none());
}

#[test]
fn no_proxy_joined_with_commas() {
    assert_eq!(no_proxy_list(&vec![]), None);
    assert_eq!(no_proxy_list(&vec!["a".into()]), Some("a".to_string()));
    assert_eq!(no_proxy_list(&vec!["a".into(), "b.c".into(), "d".into()]), Some("a,b.c,d".to_string()));
}

#[test]
fn tls1_default_accepts_unauthorized() {
    let config = TlsConfig::default();
    assert!(config.reject_unauthorized);
}

#[test]
fn tls_plan_decisions() {
    let plan = tls_plan(&TlsConfig::default());
    assert!(!plan.pinned && !plan.accept_invalid_certs && !plan.enable_sni);
    assert!(plan.inline_identity_pem.is_none());
    let config = TlsConfig {
        reject_unauthorized: false,
        client_cert_pem: Some("CERT".into()),
        client_key_pem: Some("KEY".into()),
        min_tls_version: Some(TlsVersion::Tls1_2),
        tls_sni_override: Some("sni.test".into()),
        pin_sha256: Some(vec!["x".into()]),
        ..Default::default()
    };
    let plan = tls_plan(&config);
    assert!(plan.pinned && plan.accept_invalid_certs && plan.enable_sni);
    assert_eq!(plan.inline_identity_pem.as_deref(), Some("CERT\nKEY"));
    assert_eq!(plan.min_version, Some(TlsVersion::Tls1_2));
    assert_eq!(plan.max_version, None);
    let empty_pins = TlsConfig { pin_sha256: Some(vec![]), ..Default::default() };
    assert!(!tls_plan(&empty_pins).pinned);
}

#[test]
fn host_mapping_from_parsed_addresses() {
    let mut m = StrMap::new();
    m.insert("a.test".to_string(), "10.0.0.1".to_string());
    m.insert("b.test".to_string(), "bogus".to_string());
    m.insert("c.test".to_string(), "also bogus".to_string());
    let ok = host_mapping_from(&m, &vec![Some(vec![10, 0, 0, 1]), Some(vec![1, 2, 3, 4]), Some(vec![5, 6, 7, 8])]).unwrap();
    assert_eq!(ok, vec![
        ("a.test".to_string(), vec![10, 0, 0, 1]),
        ("b.test".to_string(), vec![1, 2, 3, 4]),
        ("c.test".to_string(), vec![5, 6, 7, 8]),
    ]);
    match host_mapping_from(&m, &vec![Some(vec![10, 0, 0, 1]), None, None]) {
        Err(CatcherError::InvalidConfig(msg)) => {
            assert_eq!(msg, "dns.host_mapping: invalid IP 'bogus' for host 'b.test'")
        }
        other => panic!("unexpected {other:?}"),
    }
}

#[test]
fn nameservers_parse_in_order() {
    let ok = catcher::dns::parse_nameservers(&vec!["8.8.8.8:53".to_string(), "[::1]:5353".to_string()]).unwrap();
    assert_eq!(ok[0], (vec![8, 8, 8, 8], 53, 0));
    let mut v6 = vec![0u8; 16];
    v6[15] = 1;
    assert_eq!(ok[1], (v6, 5353, 0));
    match catcher::dns::parse_nameservers(&vec!["1.1.1.1:53".to_string(), "nope".to_string(), "x".to_string()]) {
        Err(CatcherError::InvalidConfig(msg)) => {
            assert!(msg.starts_with("invalid nameserver 'nope': "), "{msg}")
        }
        other => panic!("unexpected {other:?}"),
    }
    match catcher::dns::nameservers_from(
        &vec!["a".to_string(), "b".to_string()],
        &vec![Ok((vec![1, 2, 3, 4], 1, 0)), Err("bad".to_string())],
    ) {
        Err(CatcherError::InvalidConfig(msg)) => assert_eq!(msg, "invalid nameserver 'b': bad"),
        other => panic!("unexpected {other:?}"),
    }
}

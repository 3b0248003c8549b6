//! Network configuration: TLS options, proxies and the system proxy found
//! in the operating system's settings.
use vstd::prelude::*;
use crate::text::{contains, contains_str, chars_of};

verus! {

/// TLS protocol version.
#[derive(Debug, Clone, Copy, PartialEq, Eq, Structural)]
pub enum TlsVersion {
    Tls1_0,
    Tls1_1,
    Tls1_2,
    Tls1_3,
}

/// TLS options of a client.
#[derive(Debug, Clone)]
pub struct TlsConfig {
    /// Whether the server certificate is verified.
    pub reject_unauthorized: bool,
    /// CA certificate, PEM.
    pub ca_cert_pem: Option<String>,
    /// CA certificate file.
    pub ca_cert_path: Option<String>,
    /// Client certificate, PEM.
    pub client_cert_pem: Option<String>,
    /// Client certificate file.
    pub client_cert_path: Option<String>,
    /// Client private key, PEM.
    pub client_key_pem: Option<String>,
    /// Client private key file.
    pub client_key_path: Option<String>,
    /// PFX/PKCS12 client identity.
    pub client_identity_pfx: Option<Vec<u8>>,
    /// Password of the PFX identity.
    pub client_identity_password: Option<String>,
    /// SNI override.
    pub tls_sni_override: Option<String>,
    /// Lowest TLS version accepted.
    pub min_tls_version: Option<TlsVersion>,
    /// Highest TLS version accepted.
    pub max_tls_version: Option<TlsVersion>,
    /// Base64 SHA-256 fingerprints the server certificate must match.
    pub pin_sha256: Option<Vec<String>>,
}

impl Default for TlsConfig {
    /// Certificates are verified; nothing else is set.
    fn default() -> (r: Self)
        ensures
            r.reject_unauthorized,
            r.ca_cert_pem is None,
            r.ca_cert_path is None,
            r.client_cert_pem is None,
            r.client_cert_path is None,
            r.client_key_pem is None,
            r.client_key_path is None,
            r.client_identity_pfx is None,
            r.client_identity_password is None,
            r.tls_sni_override is None,
            r.min_tls_version is None,
            r.max_tls_version is None,
            r.pin_sha256 is None,
    {
        TlsConfig {
            reject_unauthorized: true,
            ca_cert_pem: None,
            ca_cert_path: None,
            client_cert_pem: None,
            client_cert_path: None,
            client_key_pem: None,
            client_key_path: None,
            client_identity_pfx: None,
            client_identity_password: None,
            tls_sni_override: None,
            min_tls_version: None,
            max_tls_version: None,
            pin_sha256: None,
        }
    }
}

/// What a TLS configuration asks of the TLS stack.
#[derive(Debug, Clone)]
pub struct TlsPlan {
    /// Certificate pinning is on: a dedicated verifier is built.
    pub pinned: bool,
    /// Invalid certificates are accepted.
    pub accept_invalid_certs: bool,
    /// Client identity (certificate, newline, key) given inline.
    pub inline_identity_pem: Option<String>,
    pub min_version: Option<TlsVersion>,
    pub max_version: Option<TlsVersion>,
    /// SNI is switched on because an override was given.
    pub enable_sni: bool,
}

/// Pinning applies when at least one fingerprint is configured.
pub open spec fn pinning_on(c: TlsConfig) -> bool {
    c.pin_sha256 matches Some(p) && p@.len() > 0
}

/// `cert`, a newline and `key`.
pub open spec fn identity_pem(cert: Seq<char>, key: Seq<char>) -> Seq<char> {
    cert + seq!['\n'] + key
}

/// The decisions of a TLS configuration: pinning takes over when
/// fingerprints are set; otherwise invalid certificates are accepted when
/// verification is off, an inline certificate and key form the identity,
/// the version bounds are passed on and an SNI override switches SNI on.
pub fn tls_plan(config: &TlsConfig) -> (r: TlsPlan)
    ensures
        r.pinned == pinning_on(*config),
        r.accept_invalid_certs == !config.reject_unauthorized,
        match (config.client_cert_pem, config.client_key_pem) {
            (Some(c), Some(k)) => r.inline_identity_pem matches Some(p) && p@ == identity_pem(
                c@,
                k@,
            ),
            _ => r.inline_identity_pem is None,
        },
        r.min_version == config.min_tls_version,
        r.max_version == config.max_tls_version,
        r.enable_sni == config.tls_sni_override is Some,
{
    let pinned = match &config.pin_sha256 {
        Some(p) => p.len() > 0,
        None => false,
    };
    let inline_identity_pem = match (&config.client_cert_pem, &config.client_key_pem) {
        (Some(c), Some(k)) => {
            let mut s = c.clone();
            s.push('\n');
            let kc = chars_of(k.as_str());
            crate::text::push_chars(&mut s, &kc, 0, kc.len());
            assert(kc@.subrange(0, kc@.len() as int) == kc@);
            Some(s)
        },
        _ => None,
    };
    TlsPlan {
        pinned,
        accept_invalid_certs: !config.reject_unauthorized,
        inline_identity_pem,
        min_version: config.min_tls_version,
        max_version: config.max_tls_version,
        enable_sni: config.tls_sni_override.is_some(),
    }
}

/// Proxy credentials.
#[derive(Debug, Clone)]
pub struct ProxyAuth {
    pub username: String,
    pub password: String,
}

/// Where a proxy comes from.
#[derive(Debug, Clone, Copy, PartialEq, Eq, Structural)]
pub enum ProxyMode {
    /// The configured URL (the default of this type).
    Manual,
    /// The operating system's proxy settings.
    System,
}

impl Default for ProxyMode {
    fn default() -> (r: Self)
        ensures
            r == ProxyMode::Manual,
    {
        ProxyMode::Manual
    }
}

/// Proxy configuration: `http://`, `https://`, `socks5://` or `socks5h://`
/// URLs, credentials, and hosts that bypass the proxy.
#[derive(Debug, Clone)]
pub struct ProxyConfig {
    pub mode: ProxyMode,
    pub url: Option<String>,
    pub auth: Option<ProxyAuth>,
    pub no_proxy: Vec<String>,
}

/// The proxy settings read from the operating system: the proxy for each
/// of the schemes `https`, `http` and `*`, and the hosts that bypass them.
#[derive(Debug, Clone)]
pub struct OsProxySettings {
    pub https: Option<String>,
    pub http: Option<String>,
    pub all: Option<String>,
    pub whitelist: Vec<String>,
}

/// The proxy URL taken from OS settings: `https` before `http` before `*`.
pub open spec fn chosen_proxy(s: OsProxySettings) -> Option<Seq<char>> {
    match s.https {
        Some(u) => Some(u@),
        None => match s.http {
            Some(u) => Some(u@),
            None => match s.all {
                Some(u) => Some(u@),
                None => None,
            },
        },
    }
}

/// A proxy address with a scheme: `http://` is put in front of one that
/// has no `://`.
pub open spec fn with_scheme(u: Seq<char>) -> Seq<char> {
    if contains(u, "://"@) {
        u
    } else {
        "http://"@ + u
    }
}

/// A manual proxy at `url` without credentials, bypassed for `no_proxy`.
pub open spec fn manual_proxy(p: ProxyConfig, url: Seq<char>, no_proxy: Seq<String>) -> bool {
    &&& p.mode == ProxyMode::Manual
    &&& p.url is Some
    &&& p.url->0@ == url
    &&& p.auth is None
    &&& p.no_proxy@ == no_proxy
}

/// The system proxy as a manual proxy configuration, from the settings the
/// operating system reported (`None` when it reported none, or none for
/// `https`, `http` or `*`). The address gets an `http://` scheme when it has
/// none; the bypass list is carried over.
pub fn detect_system_proxy(os: Option<OsProxySettings>) -> (r: Option<ProxyConfig>)
    ensures
        match os {
            None => r is None,
            Some(s) => match chosen_proxy(s) {
                None => r is None,
                Some(u) => r is Some && manual_proxy(r->0, with_scheme(u), s.whitelist@),
            },
        },
{
    let s = match os {
        Some(s) => s,
        None => {
            return None;
        },
    };
    let chosen = match s.https {
        Some(u) => u,
        None => match s.http {
            Some(u) => u,
            None => match s.all {
                Some(u) => u,
                None => {
                    return None;
                },
            },
        },
    };
    let cs = chars_of(chosen.as_str());
    let url = if contains_str(&cs, "://") {
        chosen
    } else {
        let mut prefixed = String::new();
        prefixed.push('h');
        prefixed.push('t');
        prefixed.push('t');
        prefixed.push('p');
        prefixed.push(':');
        prefixed.push('/');
        prefixed.push('/');
        crate::text::push_chars(&mut prefixed, &cs, 0, cs.len());
        proof {
            reveal_strlit("http://");
            assert(cs@.subrange(0, cs@.len() as int) == cs@);
            assert(prefixed@ =~= "http://"@ + chosen@);
        }
        prefixed
    };
    Some(ProxyConfig { mode: ProxyMode::Manual, url: Some(url), auth: None, no_proxy: s.whitelist })
}

/// The bypass list as one comma-separated string, `None` when it is empty.
pub open spec fn join_commas(v: Seq<Seq<char>>) -> Seq<char>
    decreases v.len(),
{
    if v.len() == 0 {
        Seq::empty()
    } else if v.len() == 1 {
        v[0]
    } else {
        join_commas(v.drop_last()) + seq![','] + v.last()
    }
}

/// The hosts that bypass a proxy, joined with commas; `None` when there
/// are none.
pub fn no_proxy_list(no_proxy: &Vec<String>) -> (r: Option<String>)
    ensures
        no_proxy@.len() == 0 <==> r is None,
        r matches Some(s) ==> s@ == join_commas(no_proxy@.map_values(|h: String| h@)),
{
    if no_proxy.len() == 0 {
        return None;
    }
    let mut out = String::new();
    let mut i: usize = 0;
    while i < no_proxy.len()
        invariant
            i <= no_proxy.len(),
            out@ == join_commas(no_proxy@.map_values(|h: String| h@).take(i as int)),
        decreases no_proxy.len() - i,
    {
        let ghost before = out@;
        let ghost all = no_proxy@.map_values(|h: String| h@);
        if i > 0 {
            out.push(',');
        }
        let hc = chars_of(no_proxy[i].as_str());
        crate::text::push_chars(&mut out, &hc, 0, hc.len());
        proof {
            assert(hc@.subrange(0, hc@.len() as int) == hc@);
            let t = all.take(i + 1);
            assert(t.drop_last() =~= all.take(i as int));
            assert(t.last() == no_proxy@[i as int]@);
            if i == 0 {
                assert(t =~= seq![no_proxy@[0]@]);
                assert(out@ =~= t[0]);
            } else {
                assert(out@ =~= before + seq![','] + t.last());
            }
        }
        i += 1;
    }
    assert(no_proxy@.map_values(|h: String| h@).take(no_proxy.len() as int) =~= no_proxy@.map_values(
        |h: String| h@,
    ));
    Some(out)
}

} // verus!

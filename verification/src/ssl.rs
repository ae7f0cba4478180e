//! What a server is told about TLS.

use crate::config::{default_cipher_suites, SslConfig};
use crate::error::FauxDBError;
use vstd::prelude::*;

verus! {

/// The TLS settings of a server.
#[derive(Debug, Clone)]
pub struct SslManager {
    pub config: SslConfig,
}

/// The settings that whoever terminates TLS is handed.
#[derive(Debug, Clone)]
pub struct TlsConfig {
    pub cert_file: Option<String>,
    pub key_file: Option<String>,
    pub ca_file: Option<String>,
    pub verify_mode: String,
    pub min_tls_version: String,
    pub max_tls_version: String,
    pub cipher_suites: Vec<String>,
    pub allow_insecure: bool,
    pub client_cert_required: bool,
    pub sni_enabled: bool,
}

/// The text of a file name that may be missing.
pub open spec fn opt_text(o: Option<String>) -> Option<Seq<char>> {
    match o {
        Some(s) => Some(s@),
        None => None,
    }
}

/// The text of a string slice that may be missing.
pub open spec fn opt_str_text(o: Option<&str>) -> Option<Seq<char>> {
    match o {
        Some(s) => Some(s@),
        None => None,
    }
}

/// The texts of a list of strings.
pub open spec fn texts(v: Seq<String>) -> Seq<Seq<char>> {
    Seq::new(v.len(), |i: int| v[i]@)
}

/// A copy of a text that may be missing.
pub fn clone_opt(o: &Option<String>) -> (r: Option<String>)
    ensures
        opt_text(r) == opt_text(*o),
{
    match o {
        Some(s) => Some(s.clone()),
        None => None,
    }
}

/// Copies of the texts of a list.
pub fn clone_strings(v: &Vec<String>) -> (r: Vec<String>)
    ensures
        texts(r@) == texts(v@),
{
    let mut out: Vec<String> = Vec::new();
    let mut i: usize = 0;
    while i < v.len()
        invariant
            i <= v.len(),
            out@.len() == i,
            forall|j: int| 0 <= j < i ==> (#[trigger] out@[j])@ == v@[j]@,
        decreases v.len() - i,
    {
        out.push(v[i].clone());
        i = i + 1;
    }
    assert(texts(out@) =~= texts(v@));
    out
}

impl SslManager {
    /// A manager of the given settings.
    pub fn new(config: SslConfig) -> (r: Self)
        ensures
            r.config == config,
    {
        SslManager { config }
    }

    /// Whether TLS is asked for.
    pub fn is_enabled(&self) -> (r: bool)
        ensures
            r == self.config.enabled,
    {
        self.config.enabled
    }

    /// The file of the certificate.
    pub fn get_cert_file(&self) -> (r: Option<&str>)
        ensures
            opt_str_text(r) == opt_text(self.config.cert_file),
    {
        match &self.config.cert_file {
            Some(s) => Some(s.as_str()),
            None => None,
        }
    }

    /// The file of the private key.
    pub fn get_key_file(&self) -> (r: Option<&str>)
        ensures
            opt_str_text(r) == opt_text(self.config.key_file),
    {
        match &self.config.key_file {
            Some(s) => Some(s.as_str()),
            None => None,
        }
    }

    /// The file of the certificate authority.
    pub fn get_ca_file(&self) -> (r: Option<&str>)
        ensures
            opt_str_text(r) == opt_text(self.config.ca_file),
    {
        match &self.config.ca_file {
            Some(s) => Some(s.as_str()),
            None => None,
        }
    }

    /// How peers are verified.
    pub fn get_verify_mode(&self) -> (r: &str)
        ensures
            r@ == self.config.verify_mode@,
    {
        self.config.verify_mode.as_str()
    }

    /// The oldest version of TLS that is spoken.
    pub fn get_min_tls_version(&self) -> (r: &str)
        ensures
            r@ == self.config.min_tls_version@,
    {
        self.config.min_tls_version.as_str()
    }

    /// The newest version of TLS that is spoken.
    pub fn get_max_tls_version(&self) -> (r: &str)
        ensures
            r@ == self.config.max_tls_version@,
    {
        self.config.max_tls_version.as_str()
    }

    /// The cipher suites that are offered.
    pub fn get_cipher_suites(&self) -> (r: &Vec<String>)
        ensures
            *r == self.config.cipher_suites,
    {
        &self.config.cipher_suites
    }

    /// Whether connections without TLS are let in.
    pub fn is_allow_insecure(&self) -> (r: bool)
        ensures
            r == self.config.allow_insecure,
    {
        self.config.allow_insecure
    }

    /// Whether clients have to show a certificate.
    pub fn is_client_cert_required(&self) -> (r: bool)
        ensures
            r == self.config.client_cert_required,
    {
        self.config.client_cert_required
    }

    /// Whether server name indication is used.
    pub fn is_sni_enabled(&self) -> (r: bool)
        ensures
            r == self.config.sni_enabled,
    {
        self.config.sni_enabled
    }

    /// The settings for whoever terminates TLS: a copy of what the manager
    /// holds. Where TLS is not asked for there are none, and the answer is
    /// a configuration error.
    pub fn get_tls_config(&self) -> (r: Result<TlsConfig, FauxDBError>)
        ensures
            match r {
                Ok(t) => {
                    &&& self.config.enabled
                    &&& opt_text(t.cert_file) == opt_text(self.config.cert_file)
                    &&& opt_text(t.key_file) == opt_text(self.config.key_file)
                    &&& opt_text(t.ca_file) == opt_text(self.config.ca_file)
                    &&& t.verify_mode@ == self.config.verify_mode@
                    &&& t.min_tls_version@ == self.config.min_tls_version@
                    &&& t.max_tls_version@ == self.config.max_tls_version@
                    &&& texts(t.cipher_suites@) == texts(self.config.cipher_suites@)
                    &&& t.allow_insecure == self.config.allow_insecure
                    &&& t.client_cert_required == self.config.client_cert_required
                    &&& t.sni_enabled == self.config.sni_enabled
                },
                Err(e) => !self.config.enabled && (e matches FauxDBError::Configuration(m) && m@
                    == "SSL/TLS is not enabled"@),
            },
    {
        if !self.config.enabled {
            return Err(FauxDBError::Configuration("SSL/TLS is not enabled".to_owned()));
        }
        Ok(
            TlsConfig {
                cert_file: clone_opt(&self.config.cert_file),
                key_file: clone_opt(&self.config.key_file),
                ca_file: clone_opt(&self.config.ca_file),
                verify_mode: self.config.verify_mode.clone(),
                min_tls_version: self.config.min_tls_version.clone(),
                max_tls_version: self.config.max_tls_version.clone(),
                cipher_suites: clone_strings(&self.config.cipher_suites),
                allow_insecure: self.config.allow_insecure,
                client_cert_required: self.config.client_cert_required,
                sni_enabled: self.config.sni_enabled,
            },
        )
    }
}

impl Default for TlsConfig {
    fn default() -> (r: Self)
        ensures
            r.cert_file.is_none(),
            r.key_file.is_none(),
            r.ca_file.is_none(),
            r.verify_mode@ == "peer"@,
            r.min_tls_version@ == "1.2"@,
            r.max_tls_version@ == "1.3"@,
            crate::config::usual_cipher_suites(r.cipher_suites@),
            !r.allow_insecure,
            !r.client_cert_required,
            r.sni_enabled,
    {
        TlsConfig {
            cert_file: None,
            key_file: None,
            ca_file: None,
            verify_mode: "peer".to_owned(),
            min_tls_version: "1.2".to_owned(),
            max_tls_version: "1.3".to_owned(),
            cipher_suites: default_cipher_suites(),
            allow_insecure: false,
            client_cert_required: false,
            sni_enabled: true,
        }
    }
}

/// Why settings for TLS cannot be used, if they cannot: the first file
/// that they name and that is not there.
pub open spec fn tls_fault(
    c: SslConfig,
    cert_exists: bool,
    key_exists: bool,
    ca_exists: bool,
) -> Option<Seq<char>> {
    if !c.enabled {
        None
    } else if c.cert_file.is_some() && !cert_exists {
        Some("Certificate file not found: "@ + c.cert_file.unwrap()@)
    } else if c.key_file.is_some() && !key_exists {
        Some("Private key file not found: "@ + c.key_file.unwrap()@)
    } else if c.ca_file.is_some() && !ca_exists {
        Some("CA file not found: "@ + c.ca_file.unwrap()@)
    } else {
        None
    }
}

impl SslManager {
    /// Checks the settings against what is on disk: whoever calls says
    /// whether the certificate, the key and the certificates of the
    /// authorities are there. Settings that do not ask for TLS are in
    /// order; a file that is named and not there is a configuration error.
    pub fn validate_config(&self, cert_exists: bool, key_exists: bool, ca_exists: bool) -> (r: Result<
        (),
        FauxDBError,
    >)
        ensures
            match tls_fault(self.config, cert_exists, key_exists, ca_exists) {
                None => r == Ok::<(), FauxDBError>(()),
                Some(text) => r matches Err(FauxDBError::Configuration(m)) && m@ == text,
            },
    {
        if !self.config.enabled {
            return Ok(());
        }
        match &self.config.cert_file {
            Some(f) => {
                if !cert_exists {
                    return Err(
                        FauxDBError::Configuration(
                            crate::text::concat("Certificate file not found: ", f.as_str()),
                        ),
                    );
                }
            },
            None => {},
        }
        match &self.config.key_file {
            Some(f) => {
                if !key_exists {
                    return Err(
                        FauxDBError::Configuration(
                            crate::text::concat("Private key file not found: ", f.as_str()),
                        ),
                    );
                }
            },
            None => {},
        }
        match &self.config.ca_file {
            Some(f) => {
                if !ca_exists {
                    return Err(
                        FauxDBError::Configuration(
                            crate::text::concat("CA file not found: ", f.as_str()),
                        ),
                    );
                }
            },
            None => {},
        }
        Ok(())
    }
}

} // verus!

//! The state of HTTPS interception: whether it is enabled, and the local
//! root certificate authority that it needs before it can be.
use vstd::prelude::*;
use vstd::utf8::encode_utf8;

use crate::clock::Instant;
use crate::codec::{sha256, sha256_digest};
use crate::error::SecurityError;
use crate::text::{concat3, push_char};

verus! {

// ---------------------------------------------------------------------------
// Fingerprints
// ---------------------------------------------------------------------------

/// The lower-case hexadecimal digit of a value below sixteen.
pub open spec fn hex_digit(d: nat) -> char {
    if d < 10 {
        (('0' as u32) + d) as char
    } else {
        (('a' as u32) + (d - 10)) as char
    }
}

/// Bytes in lower-case hexadecimal, two digits each, in order.
pub open spec fn hex_lower(b: Seq<u8>) -> Seq<char>
    decreases b.len(),
{
    if b.len() == 0 {
        Seq::empty()
    } else {
        hex_lower(b.drop_last()) + seq![
            hex_digit((b.last() / 16) as nat),
            hex_digit((b.last() % 16) as nat),
        ]
    }
}

fn hex_char(d: u8) -> (r: char)
    requires
        d < 16,
    ensures
        r == hex_digit(d as nat),
{
    if d < 10 {
        (d + 48) as char
    } else {
        (d + 87) as char
    }
}

/// The lower-case hexadecimal text of the SHA-256 digest of `input`.
pub fn sha256_hex(input: &[u8]) -> (r: String)
    requires
        input@.len() < 0x2000_0000_0000_0000,
    ensures
        r@ == hex_lower(sha256_digest(input@)),
{
    let digest = sha256(input);
    let mut out = String::new();
    let mut i: usize = 0;
    assert(digest@.take(0) =~= Seq::<u8>::empty());
    while i < digest.len()
        invariant
            i <= digest.len(),
            digest@ == sha256_digest(input@),
            out@ == hex_lower(digest@.take(i as int)),
        decreases digest.len() - i,
    {
        let b = digest[i];
        push_char(&mut out, hex_char(b / 16));
        push_char(&mut out, hex_char(b % 16));
        assert(digest@.take(i + 1).drop_last() =~= digest@.take(i as int));
        assert(out@ =~= hex_lower(digest@.take(i + 1)));
        i += 1;
    }
    assert(digest@.take(digest.len() as int) =~= digest@);
    out
}

// ---------------------------------------------------------------------------
// The root certificate authority
// ---------------------------------------------------------------------------

/// What is shown of the root CA.
#[derive(Debug)]
pub struct RootCaInfo {
    /// Nanoseconds since the Unix epoch.
    pub generated_at: Instant,
    pub cert_path: String,
    pub fingerprint_sha256: String,
}

/// The local root CA: its certificate and key, in PEM, and where they are
/// stored.
#[derive(Debug)]
pub struct RootCaBundle {
    /// Nanoseconds since the Unix epoch.
    pub generated_at: Instant,
    pub cert_path: String,
    pub key_path: String,
    pub cert_pem: String,
    pub key_pem: String,
}

#[verifier::ext_equal]
pub ghost struct BundleModel {
    pub generated_at: Instant,
    pub cert_path: Seq<char>,
    pub key_path: Seq<char>,
    pub cert_pem: Seq<char>,
    pub key_pem: Seq<char>,
}

impl View for RootCaBundle {
    type V = BundleModel;

    open spec fn view(&self) -> BundleModel {
        BundleModel {
            generated_at: self.generated_at,
            cert_path: self.cert_path@,
            key_path: self.key_path@,
            cert_pem: self.cert_pem@,
            key_pem: self.key_pem@,
        }
    }
}

impl Clone for RootCaBundle {
    fn clone(&self) -> (r: Self)
        ensures
            r@ == self@,
    {
        RootCaBundle {
            generated_at: self.generated_at,
            cert_path: self.cert_path.clone(),
            key_path: self.key_path.clone(),
            cert_pem: self.cert_pem.clone(),
            key_pem: self.key_pem.clone(),
        }
    }
}

/// The bytes of a PEM text are few enough to be hashed.
pub open spec fn hashable(pem: Seq<char>) -> bool {
    encode_utf8(pem).len() < 0x2000_0000_0000_0000
}

/// The info shown of a root CA: when it was generated, where its
/// certificate is, and the SHA-256 fingerprint of the certificate's PEM.
pub open spec fn info_of(b: BundleModel) -> (Instant, Seq<char>, Seq<char>) {
    (b.generated_at, b.cert_path, hex_lower(sha256_digest(encode_utf8(b.cert_pem))))
}

impl RootCaBundle {
    pub fn info(&self) -> (r: RootCaInfo)
        requires
            hashable(self.cert_pem@),
        ensures
            (r.generated_at, r.cert_path@, r.fingerprint_sha256@) == info_of(self@),
    {
        RootCaInfo {
            generated_at: self.generated_at,
            cert_path: self.cert_path.clone(),
            fingerprint_sha256: sha256_hex(self.cert_pem.as_str().as_bytes()),
        }
    }
}

// ---------------------------------------------------------------------------
// Interception state
// ---------------------------------------------------------------------------

/// What is shown of the interception state.
#[derive(Debug)]
pub struct HttpsMitmStatus {
    pub enabled: bool,
    pub ready: bool,
    pub local_only: bool,
    pub default_off: bool,
    pub root_ca: Option<RootCaInfo>,
    pub install_hint: String,
}

/// Whether HTTPS is intercepted, and the root CA it would sign with.
/// Interception is off until it is enabled, and can only be used once a
/// root CA is there.
#[derive(Debug)]
pub struct HttpsMitmState {
    enabled: bool,
    local_only: bool,
    bundle: Option<RootCaBundle>,
}

#[verifier::ext_equal]
pub ghost struct MitmModel {
    pub enabled: bool,
    pub local_only: bool,
    pub bundle: Option<BundleModel>,
}

impl View for HttpsMitmState {
    type V = MitmModel;

    closed spec fn view(&self) -> MitmModel {
        MitmModel {
            enabled: self.enabled,
            local_only: self.local_only,
            bundle: match self.bundle {
                Some(b) => Some(b@),
                None => None,
            },
        }
    }
}

impl Default for HttpsMitmState {
    fn default() -> (r: Self)
        ensures
            r@ == (MitmModel { enabled: false, local_only: true, bundle: None }),
    {
        HttpsMitmState { enabled: false, local_only: true, bundle: None }
    }
}

/// The hint shown with the status: where to install the root CA from when
/// there is one, else how to get one.
pub open spec fn install_hint_text(bundle: Option<BundleModel>) -> Seq<char> {
    match bundle {
        Some(b) => "Local Root CA is ready. Install "@ + b.cert_path
            + " on devices you control, then enable HTTPS decrypt explicitly."@,
        None => "HTTPS decrypt is disabled by default. Generate a local Root CA before enabling it, and install that CA only on machines you control."@,
    }
}

/// The root CA present is fine to fingerprint.
pub open spec fn bundle_hashable(m: MitmModel) -> bool {
    m.bundle matches Some(b) ==> hashable(b.cert_pem)
}

impl HttpsMitmState {
    pub fn enabled(&self) -> (r: bool)
        ensures
            r == self@.enabled,
    {
        self.enabled
    }

    pub fn set_enabled(&mut self, enabled: bool)
        ensures
            final(self)@ == (MitmModel { enabled, ..old(self)@ }),
    {
        self.enabled = enabled;
    }

    /// A root CA is there to sign with.
    pub fn is_ready(&self) -> (r: bool)
        ensures
            r == self@.bundle is Some,
    {
        self.bundle.is_some()
    }

    /// Whether interception applies to a tunnel: it is enabled and ready.
    pub fn intercepts(&self) -> (r: bool)
        ensures
            r == (self@.enabled && self@.bundle is Some),
    {
        self.enabled() && self.is_ready()
    }

    pub fn status(&self) -> (r: HttpsMitmStatus)
        requires
            bundle_hashable(self@),
        ensures
            r.enabled == self@.enabled,
            r.ready == self@.bundle is Some,
            r.local_only == self@.local_only,
            r.default_off,
            match self@.bundle {
                Some(b) => (r.root_ca matches Some(i) && (i.generated_at, i.cert_path@, i.fingerprint_sha256@) == info_of(b)),
                None => r.root_ca is None,
            },
            r.install_hint@ == install_hint_text(self@.bundle),
    {
        let hint = match &self.bundle {
            Some(b) => concat3(
                "Local Root CA is ready. Install ",
                b.cert_path.as_str(),
                " on devices you control, then enable HTTPS decrypt explicitly.",
            ),
            None => "HTTPS decrypt is disabled by default. Generate a local Root CA before enabling it, and install that CA only on machines you control.".to_owned(),
        };
        HttpsMitmStatus {
            enabled: self.enabled,
            ready: self.is_ready(),
            local_only: self.local_only,
            default_off: true,
            root_ca: self.root_ca_info(),
            install_hint: hint,
        }
    }

    /// Makes sure there is a root CA: when there is none yet, `found` (the
    /// one loaded or generated) becomes it. Returns its info, or an error
    /// when there is still none.
    pub fn ensure_root_ca_with(&mut self, found: Option<RootCaBundle>) -> (r: Result<
        RootCaInfo,
        SecurityError,
    >)
        requires
            bundle_hashable(old(self)@),
            found matches Some(b) ==> hashable(b.cert_pem@),
        ensures
            final(self)@ == (MitmModel {
                bundle: match old(self)@.bundle {
                    Some(b) => Some(b),
                    None => match found {
                        Some(f) => Some(f@),
                        None => None,
                    },
                },
                ..old(self)@
            }),
            match final(self)@.bundle {
                Some(b) => (r matches Ok(i) && (i.generated_at, i.cert_path@, i.fingerprint_sha256@) == info_of(b)),
                None => (r matches Err(SecurityError::Certificate(m)) && m@ == "failed to load or generate root CA"@),
            },
    {
        if self.bundle.is_none() {
            self.bundle = found;
        }
        match &self.bundle {
            Some(b) => Ok(b.info()),
            None => Err(SecurityError::Certificate("failed to load or generate root CA".to_owned())),
        }
    }

    /// Where the root CA's certificate and key are stored.
    pub fn root_ca_paths(&self) -> (r: Option<(String, String)>)
        ensures
            match self@.bundle {
                Some(b) => (r matches Some((c, k)) && c@ == b.cert_path && k@ == b.key_path),
                None => r is None,
            },
    {
        match &self.bundle {
            Some(b) => Some((b.cert_path.clone(), b.key_path.clone())),
            None => None,
        }
    }

    /// The root CA's certificate and key, in PEM.
    pub fn root_ca_pem(&self) -> (r: Option<(String, String)>)
        ensures
            match self@.bundle {
                Some(b) => (r matches Some((c, k)) && c@ == b.cert_pem && k@ == b.key_pem),
                None => r is None,
            },
    {
        match &self.bundle {
            Some(b) => Some((b.cert_pem.clone(), b.key_pem.clone())),
            None => None,
        }
    }

    /// The info of the root CA.
    pub fn root_ca_info(&self) -> (r: Option<RootCaInfo>)
        requires
            bundle_hashable(self@),
        ensures
            match self@.bundle {
                Some(b) => (r matches Some(i) && (i.generated_at, i.cert_path@, i.fingerprint_sha256@) == info_of(b)),
                None => r is None,
            },
    {
        match &self.bundle {
            Some(b) => Some(b.info()),
            None => None,
        }
    }
}

/// The upstream certificate check used when replaying and intercepting: it
/// accepts every certificate.
#[derive(Debug)]
pub struct MitmClientVerifier;

} // verus!

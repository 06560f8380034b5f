//! Certificates as rcgen issues them, each kept together with the plain
//! parameters it was issued for and the CA certificate that signed it. The
//! fields are private: outside this module a value of these types comes only
//! from the calls into rcgen below.

use vstd::prelude::*;

use rcgen::{BasicConstraints, CertificateParams, DnType, IsCa, Issuer, KeyPair, KeyUsagePurpose};

use crate::tls_inspection::{ascii_only, pem_begins, CaKind, CertParams, CertParamsView, KeyUsage, RootCa};

verus! {

/// rcgen's certificate parameters, built from the plain parameters in
/// `source`.
pub struct RcgenParams {
    inner: CertificateParams,
    source: CertParams,
}

impl RcgenParams {
    /// The plain parameters these were built from.
    pub closed spec fn source_view(&self) -> CertParamsView {
        self.source@
    }
}

/// A certificate issued by rcgen: its PEM text, the plain parameters it was
/// issued for, and the PEM text of the CA certificate whose key signed it
/// (none for a self-signed certificate).
pub struct IssuedCert {
    pem: String,
    params: CertParams,
    issuer_cert_pem: Option<String>,
}

impl IssuedCert {
    pub closed spec fn pem_view(&self) -> Seq<char> {
        self.pem@
    }

    pub closed spec fn params_view(&self) -> CertParamsView {
        self.params@
    }

    pub closed spec fn issuer_view(&self) -> Option<Seq<char>> {
        match self.issuer_cert_pem {
            Some(p) => Some(p@),
            None => None,
        }
    }

    /// The certificate in PEM form.
    pub fn pem(&self) -> (s: &str)
        ensures
            s@ == self.pem_view(),
    {
        self.pem.as_str()
    }

    /// The parameters the certificate was issued for.
    pub fn params(&self) -> (p: &CertParams)
        ensures
            p@ == self.params_view(),
    {
        &self.params
    }

    /// The PEM text of the CA certificate that signed this one, if any.
    pub fn issuer_cert_pem(&self) -> (r: Option<&str>)
        ensures
            match (r, self.issuer_view()) {
                (Some(s), Some(t)) => s@ == t,
                (None, None) => true,
                _ => false,
            },
    {
        match &self.issuer_cert_pem {
            Some(p) => Some(p.as_str()),
            None => None,
        }
    }
}

/// `CertificateParams::new` (rcgen 0.14) with the subject alternative names
/// of `p`, then the common name and the organization (when there is one)
/// pushed onto the subject, and the CA kind and key usages set, each turned
/// one for one into rcgen's. Trusted: `new` makes each name an IP address
/// entry when it parses as one and a DNS name entry otherwise, which fails
/// only for a name that is not ASCII (IA5String), so the call succeeds
/// exactly when every name is ASCII; the result is built from `p`.
#[verifier::external_body]
pub(crate) fn rcgen_params(p: &CertParams) -> (r: Result<RcgenParams, rcgen::Error>)
    ensures
        r is Ok <==> forall|i: int|
            0 <= i < p@.subject_alt_names.len() ==> ascii_only(#[trigger] p@.subject_alt_names[i]),
        r matches Ok(rp) ==> rp.source_view() == p@,
{
    let mut inner = CertificateParams::new(p.subject_alt_names.clone())?;
    inner.distinguished_name.push(DnType::CommonName, p.common_name.as_str());
    if let Some(org) = &p.organization {
        inner.distinguished_name.push(DnType::OrganizationName, org.as_str());
    }
    inner.is_ca = match p.ca {
        CaKind::NotCa => IsCa::NoCa,
        CaKind::UnconstrainedCa => IsCa::Ca(BasicConstraints::Unconstrained),
    };
    inner.key_usages = p.key_usages.iter().map(|u| match u {
        KeyUsage::KeyCertSign => KeyUsagePurpose::KeyCertSign,
        KeyUsage::CrlSign => KeyUsagePurpose::CrlSign,
    }).collect();
    Ok(RcgenParams { inner, source: p.clone() })
}

/// `CertificateParams::self_signed` (rcgen 0.14) with `key`, then
/// `Certificate::pem`. Trusted: the certificate is issued for the
/// parameters of `params` and has no CA certificate above it; its text opens
/// with the `-----BEGIN CERTIFICATE-----` line (a PEM block tagged
/// `CERTIFICATE`, written by the pem crate header first). Signing draws from
/// the system random source and may fail; which key signed, and the bytes of
/// the certificate, are not stated.
#[verifier::external_body]
pub(crate) fn self_signed(params: &RcgenParams, key: &KeyPair) -> (r: Result<IssuedCert, rcgen::Error>)
    ensures
        r matches Ok(c) ==> c.params_view() == params.source_view() && c.issuer_view() is None
            && pem_begins(c.pem_view(), "CERTIFICATE"@),
{
    let cert = params.inner.self_signed(key)?;
    Ok(IssuedCert { pem: cert.pem(), params: params.source.clone(), issuer_cert_pem: None })
}

/// `Issuer::from_ca_cert_pem` (rcgen 0.14, with its `x509-parser` feature)
/// on the certificate and key of `ca`, then `CertificateParams::signed_by`
/// for `subject_key` and `Certificate::pem`. Trusted: the certificate is
/// issued for the parameters of `params` and signed with the key of `ca`,
/// whose certificate is `ca.cert_pem`; its text opens with the
/// `-----BEGIN CERTIFICATE-----` line. It fails when the CA certificate
/// cannot be parsed or signing fails (which draws from the system random
/// source); the bytes of the certificate are not stated.
#[verifier::external_body]
pub(crate) fn signed_by_ca(params: &RcgenParams, subject_key: &KeyPair, ca: &RootCa) -> (r: Result<
    IssuedCert,
    rcgen::Error,
>)
    ensures
        r matches Ok(c) ==> c.params_view() == params.source_view() && c.issuer_view() == Some(
            ca.cert_pem@,
        ) && pem_begins(c.pem_view(), "CERTIFICATE"@),
{
    let issuer = Issuer::from_ca_cert_pem(&ca.cert_pem, &ca.key_pair)?;
    let cert = params.inner.signed_by(subject_key, &issuer)?;
    let pem = cert.pem();
    Ok(IssuedCert { pem, params: params.source.clone(), issuer_cert_pem: Some(ca.cert_pem.clone()) })
}

} // verus!

//! Information about directory authorities.
//!
//! From a client's point of view, an authority's role is to sign the
//! consensus directory.

use vstd::prelude::*;

verus! {

/// An identifier for an RSA key: the SHA-1 digest of its DER encoding.
#[derive(Clone, Copy, Debug, PartialEq, Eq, Hash)]
pub struct RsaIdentity {
    /// The digest.
    id: [u8; 20],
}

impl View for RsaIdentity {
    type V = Seq<u8>;

    closed spec fn view(&self) -> Seq<u8> {
        self.id@
    }
}

impl RsaIdentity {
    /// The identity with the given digest.
    pub fn from(id: [u8; 20]) -> (r: RsaIdentity)
        ensures
            r@ == id@,
    {
        RsaIdentity { id }
    }

    /// The identity whose digest is `bytes`, if those are twenty bytes.
    pub fn from_bytes(bytes: &[u8]) -> (r: Option<RsaIdentity>)
        ensures
            r is Some <==> bytes@.len() == 20,
            r is Some ==> r->0@ == bytes@,
    {
        if bytes.len() != 20 {
            return None;
        }
        let mut id: [u8; 20] = [0u8;20];
        let mut i: usize = 0;
        while i < 20
            invariant
                i <= 20,
                bytes@.len() == 20,
                forall|j: int| 0 <= j < i ==> id@[j] == bytes@[j],
            decreases 20 - i,
        {
            id[i] = bytes[i];
            i += 1;
        }
        proof {
            assert(id@ =~= bytes@);
        }
        Some(RsaIdentity { id })
    }

    /// The digest.
    pub fn to_bytes(&self) -> (r: [u8; 20])
        ensures
            r@ == self@,
    {
        self.id
    }

    /// Whether two identities are the same.
    pub fn same(&self, other: &RsaIdentity) -> (r: bool)
        ensures
            r == (self@ == other@),
    {
        let mut i: usize = 0;
        while i < 20
            invariant
                i <= 20,
                forall|j: int| 0 <= j < i ==> self.id@[j] == other.id@[j],
            decreases 20 - i,
        {
            if self.id[i] != other.id[i] {
                return false;
            }
            i += 1;
        }
        proof {
            assert(self.id@ =~= other.id@);
        }
        true
    }
}

/// The keys that a certificate of an authority is about, by their
/// fingerprints.
#[derive(Clone, Copy, Debug, PartialEq, Eq, Hash)]
pub struct AuthCertKeyIds {
    /// Fingerprint of the long-term identity key.
    pub id_fingerprint: RsaIdentity,
    /// Fingerprint of the signing key.
    pub sk_fingerprint: RsaIdentity,
}

/// A certificate by which an authority vouches for its signing key.
#[derive(Clone, Copy, Debug, PartialEq, Eq)]
pub struct AuthCert {
    /// The keys that the certificate is about.
    pub key_ids: AuthCertKeyIds,
}

impl AuthCert {
    /// The fingerprint of the identity key of the authority.
    pub fn id_fingerprint(&self) -> (r: &RsaIdentity)
        ensures
            *r == self.key_ids.id_fingerprint,
    {
        &self.key_ids.id_fingerprint
    }
}

/// A single authority that signs a consensus directory.
#[derive(Clone, Debug)]
pub struct Authority {
    /// A memorable nickname for this authority.
    name: String,
    /// A SHA1 digest of the DER-encoded long-term v3 RSA identity key for
    /// this authority.
    v3ident: RsaIdentity,
}

impl Authority {
    /// The nickname of this authority.
    pub closed spec fn name(&self) -> Seq<char> {
        self.name@
    }

    /// The identity of this authority.
    pub closed spec fn v3ident(&self) -> RsaIdentity {
        self.v3ident
    }

    /// Construct information about a new authority.
    pub fn new(name: String, v3ident: RsaIdentity) -> (a: Self)
        ensures
            a.name() == name@,
            a.v3ident() == v3ident,
    {
        Authority { name, v3ident }
    }

    /// Return true if this authority matches a given certificate.
    pub fn matches_cert(&self, cert: &AuthCert) -> (r: bool)
        ensures
            r == (self.v3ident()@ == cert.key_ids.id_fingerprint@),
    {
        self.v3ident.same(cert.id_fingerprint())
    }

    /// Return true if this authority matches a given key ID.  Only the
    /// fingerprint of the identity key counts.
    pub fn matches_keyid(&self, id: &AuthCertKeyIds) -> (r: bool)
        ensures
            r == (self.v3ident()@ == id.id_fingerprint@),
    {
        self.v3ident.same(&id.id_fingerprint)
    }
}

} // verus!

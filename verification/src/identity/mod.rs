//! Credentials and the identities that they stand for.

pub mod basic;

use vstd::prelude::*;

use crate::bytes::copy_of;

verus! {

/// The kind of a credential.
#[derive(Clone, Copy, Debug, PartialEq, Eq, Structural)]
pub enum CredentialType {
    /// A bare identifier.
    Basic,
    /// Any other kind, by its code point.
    Other(u16),
}

/// A bare identifier, asserted by nobody.
#[derive(Clone, Debug, PartialEq)]
pub struct BasicCredential {
    pub identifier: Vec<u8>,
}

impl BasicCredential {
    /// A credential with this identifier.
    pub fn new(identifier: Vec<u8>) -> (credential: Self)
        ensures
            credential.identifier == identifier,
    {
        BasicCredential { identifier }
    }

    /// The type of every basic credential.
    pub fn credential_type() -> (t: CredentialType)
        ensures
            t == CredentialType::Basic,
    {
        CredentialType::Basic
    }

    /// The identifier.
    pub fn identifier(&self) -> (identifier: &Vec<u8>)
        ensures
            *identifier == self.identifier,
    {
        &self.identifier
    }
}

/// A credential, of the basic kind or of one that is not interpreted here.
#[derive(Debug, PartialEq)]
pub enum Credential {
    Basic(BasicCredential),
    Other { credential_type: CredentialType, data: Vec<u8> },
}

impl Credential {
    /// The type of the credential.
    pub open spec fn kind(self) -> CredentialType {
        match self {
            Credential::Basic(_) => CredentialType::Basic,
            Credential::Other { credential_type, .. } => credential_type,
        }
    }

    /// The type of the credential.
    pub fn credential_type(&self) -> (t: CredentialType)
        ensures
            t == self.kind(),
    {
        match self {
            Credential::Basic(_) => CredentialType::Basic,
            Credential::Other { credential_type, .. } => *credential_type,
        }
    }

    /// The basic credential, if it is one.
    pub fn as_basic(&self) -> (basic: Option<&BasicCredential>)
        ensures
            match self {
                Credential::Basic(b) => basic == Some(b),
                Credential::Other { .. } => basic is None,
            },
    {
        match self {
            Credential::Basic(b) => Some(b),
            Credential::Other { .. } => None,
        }
    }
}

/// What a credential says.
pub ghost enum CredentialView {
    Basic(Seq<u8>),
    Other { credential_type: CredentialType, data: Seq<u8> },
}

impl View for Credential {
    type V = CredentialView;

    open spec fn view(&self) -> CredentialView {
        match self {
            Credential::Basic(basic) => CredentialView::Basic(basic.identifier@),
            Credential::Other { credential_type, data } => CredentialView::Other {
                credential_type: *credential_type,
                data: data@,
            },
        }
    }
}

impl Clone for Credential {
    fn clone(&self) -> (credential: Self)
        ensures
            credential@ == self@,
    {
        match self {
            Credential::Basic(basic) => Credential::Basic(
                BasicCredential { identifier: copy_of(&basic.identifier) },
            ),
            Credential::Other { credential_type, data } => Credential::Other {
                credential_type: *credential_type,
                data: copy_of(data),
            },
        }
    }
}

/// A credential says its kind, and all that it holds.
pub proof fn credentials_say_all(a: Credential, b: Credential)
    ensures
        a is Basic ==> a.kind() == CredentialType::Basic,
        a matches Credential::Other { credential_type, .. } ==> a.kind() == credential_type,
        a@ == b@ <==> match (a, b) {
            (Credential::Basic(x), Credential::Basic(y)) => x.identifier@ == y.identifier@,
            (
                Credential::Other { credential_type: s, data: x },
                Credential::Other { credential_type: t, data: y },
            ) => s == t && x@ == y@,
            _ => false,
        },
{
}

/// A signing identity says its key and what its credential says.
pub proof fn signing_identities_say_all(a: SigningIdentity, b: SigningIdentity)
    ensures
        a@ == b@ <==> a.signature_key@ == b.signature_key@ && a.credential@ == b.credential@,
{
}

/// A member's signature key with the credential that vouches for it.
#[derive(Debug, PartialEq)]
pub struct SigningIdentity {
    pub signature_key: Vec<u8>,
    pub credential: Credential,
}

/// What a signing identity says.
pub ghost struct SigningIdentityView {
    pub signature_key: Seq<u8>,
    pub credential: CredentialView,
}

impl View for SigningIdentity {
    type V = SigningIdentityView;

    open spec fn view(&self) -> SigningIdentityView {
        SigningIdentityView {
            signature_key: self.signature_key@,
            credential: self.credential@,
        }
    }
}

impl Clone for SigningIdentity {
    fn clone(&self) -> (identity: Self)
        ensures
            identity@ == self@,
    {
        SigningIdentity {
            signature_key: copy_of(&self.signature_key),
            credential: self.credential.clone(),
        }
    }
}

/// A member of a group, as a roster lists it.
#[derive(Clone, Debug, PartialEq)]
pub struct Member {
    pub index: u32,
    pub signing_identity: SigningIdentity,
}

/// What a commit changes in a roster.
#[derive(Clone, Debug, PartialEq)]
pub struct RosterUpdate {
    pub added: Vec<Member>,
    pub removed: Vec<Member>,
    /// The member before and after its update.
    pub updated: Vec<(Member, Member)>,
}

/// Something that a change of the roster leads an identity provider to warn of.
#[derive(Clone, Debug, PartialEq)]
pub struct IdentityWarning {
    /// The member that it is about.
    pub index: u32,
    pub code: u64,
}

} // verus!

//! An identity provider for basic credentials.

use vstd::prelude::*;

use crate::bytes::{copy_of, same_bytes};
use crate::identity::{
    BasicCredential, Credential, CredentialType, IdentityWarning, RosterUpdate, SigningIdentity,
};

verus! {

/// A credential that is not basic was passed to a [`BasicIdentityProvider`].
#[derive(Clone, Copy, Debug, PartialEq, Eq, Structural)]
pub struct BasicIdentityProviderError(CredentialType);

impl View for BasicIdentityProviderError {
    type V = CredentialType;

    closed spec fn view(&self) -> CredentialType {
        self.0
    }
}

impl BasicIdentityProviderError {
    /// The error that speaks of this type.
    pub closed spec fn of(credential_type: CredentialType) -> Self {
        BasicIdentityProviderError(credential_type)
    }

    /// An error holds a type, and nothing else.
    pub proof fn is_of_its_type(self, credential_type: CredentialType)
        ensures
            Self::of(credential_type)@ == credential_type,
            Self::of(self@) == self,
    {
    }

    /// The type of the credential that was passed.
    pub fn credential_type(&self) -> (t: CredentialType)
        ensures
            t == self@,
    {
        self.0
    }
}

impl vstd::std_specs::convert::FromSpecImpl<CredentialType> for BasicIdentityProviderError {
    open spec fn obeys_from_spec() -> bool {
        true
    }

    open spec fn from_spec(value: CredentialType) -> Self {
        BasicIdentityProviderError::of(value)
    }
}

impl From<CredentialType> for BasicIdentityProviderError {
    fn from(value: CredentialType) -> (e: Self) {
        BasicIdentityProviderError(value)
    }
}

/// An identity provider to which every basic credential is valid, and nothing else.
///
/// Nobody vouches for a basic credential, so this provider is for tests.
#[derive(Clone, Debug)]
pub struct BasicIdentityProvider;

impl Default for BasicIdentityProvider {
    fn default() -> (provider: Self)
        ensures
            provider == BasicIdentityProvider,
    {
        BasicIdentityProvider
    }
}

/// The identifier that a signing identity carries, or the type of its credential if
/// that is not basic.
pub open spec fn basic_identity(signing_id: SigningIdentity) -> Result<
    Seq<u8>,
    BasicIdentityProviderError,
> {
    match signing_id.credential {
        Credential::Basic(basic) => Ok(basic.identifier@),
        Credential::Other { credential_type, .. } => Err(
            BasicIdentityProviderError::of(credential_type),
        ),
    }
}

/// Success if the credential is basic, else its type.
pub open spec fn basic_or_error(signing_id: SigningIdentity) -> Result<
    (),
    BasicIdentityProviderError,
> {
    match basic_identity(signing_id) {
        Ok(_) => Ok(()),
        Err(e) => Err(e),
    }
}

/// Whether both identities are the same; if one is not basic, the error of the first
/// that is not.
pub open spec fn successor_allowed(
    predecessor: SigningIdentity,
    successor: SigningIdentity,
) -> Result<bool, BasicIdentityProviderError> {
    match (basic_identity(predecessor), basic_identity(successor)) {
        (Err(e), _) => Err(e),
        (Ok(_), Err(e)) => Err(e),
        (Ok(a), Ok(b)) => Ok(a == b),
    }
}

/// The basic credential of a signing identity.
pub fn resolve_basic_identity(signing_id: &SigningIdentity) -> (r: Result<
    &BasicCredential,
    BasicIdentityProviderError,
>)
    ensures
        match basic_identity(*signing_id) {
            Ok(_) => r matches Ok(basic) && signing_id.credential == Credential::Basic(*basic),
            Err(e) => r == Err::<&BasicCredential, BasicIdentityProviderError>(e),
        },
{
    match signing_id.credential.as_basic() {
        Some(basic) => Ok(basic),
        None => Err(BasicIdentityProviderError::from(signing_id.credential.credential_type())),
    }
}

impl BasicIdentityProvider {
    /// The provider.
    pub fn new() -> (provider: Self)
        ensures
            provider == BasicIdentityProvider,
    {
        BasicIdentityProvider
    }

    /// Whether a member may have this identity.
    pub fn validate_member(&self, signing_identity: &SigningIdentity) -> (r: Result<
        (),
        BasicIdentityProviderError,
    >)
        ensures
            r == basic_or_error(*signing_identity),
    {
        match resolve_basic_identity(signing_identity) {
            Ok(_) => Ok(()),
            Err(e) => Err(e),
        }
    }

    /// Whether an external sender may have this identity.
    pub fn validate_external_sender(&self, signing_identity: &SigningIdentity) -> (r: Result<
        (),
        BasicIdentityProviderError,
    >)
        ensures
            r == basic_or_error(*signing_identity),
    {
        match resolve_basic_identity(signing_identity) {
            Ok(_) => Ok(()),
            Err(e) => Err(e),
        }
    }

    /// The bytes that tell this identity from others.
    pub fn identity(&self, signing_identity: &SigningIdentity) -> (r: Result<
        Vec<u8>,
        BasicIdentityProviderError,
    >)
        ensures
            match basic_identity(*signing_identity) {
                Ok(identifier) => r matches Ok(bytes) && bytes@ == identifier,
                Err(e) => r == Err::<Vec<u8>, BasicIdentityProviderError>(e),
            },
            signing_identity.credential matches Credential::Basic(basic) ==> (r matches Ok(bytes)
                && bytes@ == basic.identifier@),
            r is Ok <==> signing_identity.credential is Basic,
    {
        match resolve_basic_identity(signing_identity) {
            Ok(basic) => Ok(copy_of(basic.identifier())),
            Err(e) => Err(e),
        }
    }

    /// Whether `successor` may take the place of `predecessor`.
    pub fn valid_successor(&self, predecessor: &SigningIdentity, successor: &SigningIdentity) -> (r:
        Result<bool, BasicIdentityProviderError>)
        ensures
            r == successor_allowed(*predecessor, *successor),
            predecessor.credential matches Credential::Basic(a) ==> (
            successor.credential matches Credential::Basic(b) ==> r == Ok::<
                bool,
                BasicIdentityProviderError,
            >(a.identifier@ == b.identifier@)),
            r is Ok <==> predecessor.credential is Basic && successor.credential is Basic,
    {
        match (resolve_basic_identity(predecessor), resolve_basic_identity(successor)) {
            (Err(e), _) => Err(e),
            (Ok(_), Err(e)) => Err(e),
            (Ok(a), Ok(b)) => Ok(same_bytes(a.identifier(), b.identifier())),
        }
    }

    /// The types of credential that this provider works with.
    pub fn supported_types(&self) -> (types: Vec<CredentialType>)
        ensures
            types@ == seq![CredentialType::Basic],
    {
        let types = vec![BasicCredential::credential_type()];
        assert(types@ =~= seq![CredentialType::Basic]);
        types
    }

    /// What there is to say about a change of the roster: nothing.
    pub fn identity_warnings(&self, _update: &RosterUpdate) -> (r: Result<
        Vec<IdentityWarning>,
        BasicIdentityProviderError,
    >)
        ensures
            r matches Ok(warnings) && warnings@ == Seq::<IdentityWarning>::empty(),
    {
        Ok(Vec::new())
    }
}

// ---------------------------------------------------------------------------
// Laws
// ---------------------------------------------------------------------------

/// The identity of a basic credential is its whole identifier, byte for byte. So two
/// credentials have one identity exactly if their identifiers are equal, which no part of
/// them decides, and one may succeed the other exactly then. The signature keys do not matter.
pub proof fn identifiers_are_identities(
    a: SigningIdentity,
    b: SigningIdentity,
    basic_a: BasicCredential,
    basic_b: BasicCredential,
)
    requires
        a.credential == Credential::Basic(basic_a),
        b.credential == Credential::Basic(basic_b),
    ensures
        basic_identity(a) matches Ok(id) && id == basic_a.identifier@,
        basic_or_error(a) is Ok,
        basic_identity(a) == basic_identity(b) <==> basic_a.identifier@ == basic_b.identifier@,
        successor_allowed(a, b) matches Ok(allowed) && (allowed <==> basic_a.identifier@
            == basic_b.identifier@),
{
}

/// Where a credential is of another kind, everything that the provider is asked about it
/// fails, with the type that the credential has; of two such credentials the first decides.
pub proof fn other_credentials_are_refused(
    a: SigningIdentity,
    b: SigningIdentity,
    type_a: CredentialType,
    data_a: Vec<u8>,
)
    requires
        a.credential == (Credential::Other { credential_type: type_a, data: data_a }),
    ensures
        basic_identity(a) matches Err(e) && e@ == type_a,
        basic_or_error(a) matches Err(e) && e@ == type_a,
        successor_allowed(a, b) matches Err(e) && e@ == type_a,
        b.credential is Basic ==> (successor_allowed(b, a) matches Err(e) && e@ == type_a),
{
}

/// An identity is valid exactly if its credential is basic, whoever has it.
pub proof fn exactly_basic_identities_are_valid(signing_id: SigningIdentity)
    ensures
        basic_or_error(signing_id) is Ok <==> signing_id.credential is Basic,
        basic_or_error(signing_id) is Ok <==> basic_identity(signing_id) is Ok,
{
}

/// The provider refuses an identity by naming the type of its credential.
pub proof fn refusals_name_the_type(signing_id: SigningIdentity)
    ensures
        basic_or_error(signing_id) matches Err(e) ==> e@ == signing_id.credential.kind(),
{
}

/// Succession compares identities: every valid identity may succeed itself, the order
/// of the two does not matter, and a successor's successor is a successor. The key that
/// comes with an identity does not matter.
pub proof fn succession_is_sameness_of_identity(
    a: SigningIdentity,
    b: SigningIdentity,
    c: SigningIdentity,
)
    requires
        basic_or_error(a) is Ok,
        basic_or_error(b) is Ok,
        basic_or_error(c) is Ok,
    ensures
        successor_allowed(a, a) == Ok::<bool, BasicIdentityProviderError>(true),
        successor_allowed(a, b) == successor_allowed(b, a),
        successor_allowed(a, b) == Ok::<bool, BasicIdentityProviderError>(true)
            && successor_allowed(b, c) == Ok::<bool, BasicIdentityProviderError>(true)
            ==> successor_allowed(a, c) == Ok::<bool, BasicIdentityProviderError>(true),
        successor_allowed(a, b) == Ok::<bool, BasicIdentityProviderError>(
            basic_identity(a)->Ok_0 == basic_identity(b)->Ok_0,
        ),
        a.credential == b.credential ==> successor_allowed(a, b) == Ok::<
            bool,
            BasicIdentityProviderError,
        >(true),
{
}

} // verus!

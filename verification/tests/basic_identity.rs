use aws_mls::identity::basic::{
    resolve_basic_identity, BasicIdentityProvider, BasicIdentityProviderError,
};
use aws_mls::identity::{
    BasicCredential, Credential, CredentialType, IdentityWarning, Member, RosterUpdate,
    SigningIdentity,
};

fn basic(key: &[u8], identifier: &[u8]) -> SigningIdentity {
    SigningIdentity {
        signature_key: key.to_vec(),
        credential: Credential::Basic(BasicCredential::new(identifier.to_vec())),
    }
}

fn other(code: u16) -> SigningIdentity {
    SigningIdentity {
        signature_key: vec![1],
        credential: Credential::Other {
            credential_type: CredentialType::Other(code),
            data: b"alice".to_vec(),
        },
    }
}

#[test]
fn basic_identities_are_valid() {
    let provider = BasicIdentityProvider::new();
    assert_eq!(provider.validate_member(&basic(b"k", b"alice")), Ok(()));
    assert_eq!(provider.validate_external_sender(&basic(b"k", b"")), Ok(()));
}

#[test]
fn other_identities_are_refused_with_their_type() {
    let provider = BasicIdentityProvider::new();
    let error = BasicIdentityProviderError::from(CredentialType::Other(2));
    assert_eq!(provider.validate_member(&other(2)), Err(error));
    assert_eq!(provider.validate_external_sender(&other(2)), Err(error));
    assert_eq!(provider.identity(&other(2)), Err(error));
    assert_eq!(resolve_basic_identity(&other(2)), Err(error));
    assert_eq!(error.credential_type(), CredentialType::Other(2));
    assert_ne!(error, BasicIdentityProviderError::from(CredentialType::Other(3)));
}

#[test]
fn identity_is_the_identifier() {
    let provider = BasicIdentityProvider::new();
    assert_eq!(provider.identity(&basic(b"k", b"alice")), Ok(b"alice".to_vec()));
    let identity = basic(b"k", b"alice");
    assert_eq!(
        resolve_basic_identity(&identity),
        Ok(&BasicCredential { identifier: b"alice".to_vec() })
    );
}

#[test]
fn successor_has_the_same_identifier() {
    let provider = BasicIdentityProvider::new();
    let alice = basic(b"old", b"alice");
    let alice_again = basic(b"new", b"alice");
    let bob = basic(b"old", b"bob");
    assert_eq!(provider.valid_successor(&alice, &alice), Ok(true));
    assert_eq!(provider.valid_successor(&alice, &alice_again), Ok(true));
    assert_eq!(provider.valid_successor(&alice_again, &alice), Ok(true));
    assert_eq!(provider.valid_successor(&alice, &bob), Ok(false));
    assert_eq!(provider.valid_successor(&bob, &alice), Ok(false));
}

#[test]
fn succession_complains_of_the_predecessor_first() {
    let provider = BasicIdentityProvider::new();
    let alice = basic(b"k", b"alice");
    assert_eq!(
        provider.valid_successor(&other(2), &other(3)),
        Err(BasicIdentityProviderError::from(CredentialType::Other(2)))
    );
    assert_eq!(
        provider.valid_successor(&alice, &other(3)),
        Err(BasicIdentityProviderError::from(CredentialType::Other(3)))
    );
}

#[test]
fn only_basic_credentials_are_supported() {
    let provider = BasicIdentityProvider::default();
    assert_eq!(provider.supported_types(), vec![CredentialType::Basic]);
    assert_eq!(BasicCredential::credential_type(), CredentialType::Basic);
}

#[test]
fn nothing_is_warned_of() {
    let provider = BasicIdentityProvider::new();
    let update = RosterUpdate {
        added: vec![Member { index: 1, signing_identity: basic(b"k", b"alice") }],
        removed: vec![],
        updated: vec![],
    };
    let none: Vec<IdentityWarning> = vec![];
    assert_eq!(provider.identity_warnings(&update), Ok(none));
}

#[test]
fn credentials_know_their_type() {
    let alice = basic(b"k", b"alice");
    assert_eq!(alice.credential.credential_type(), CredentialType::Basic);
    assert_eq!(other(7).credential.credential_type(), CredentialType::Other(7));
    assert!(other(7).credential.as_basic().is_none());
    let identifier = alice.credential.as_basic().map(|b| b.identifier().clone());
    assert_eq!(identifier, Some(b"alice".to_vec()));
    assert_eq!(alice.clone(), alice);
    assert_eq!(other(7).clone(), other(7));
}

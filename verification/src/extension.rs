//! Extensions of the group context, as far as filtering proposals reads them.

use vstd::prelude::*;

use crate::group::proposal::ProposalType;
use crate::identity::{CredentialType, SigningIdentity};

verus! {

/// The code point of an extension type.
#[derive(Clone, Copy, Debug, PartialEq, Eq, Structural)]
pub struct ExtensionType(pub u16);

/// One extension, still encoded.
#[derive(Clone, Debug, PartialEq)]
pub struct Extension {
    pub extension_type: ExtensionType,
    /// Whether every implementation of the protocol supports this type, so that
    /// no leaf has to list it among its capabilities.
    pub is_default: bool,
    pub extension_data: Vec<u8>,
}

/// The extensions of a group, in order.
#[derive(Clone, Debug, PartialEq)]
pub struct ExtensionList(pub Vec<Extension>);

impl View for ExtensionList {
    type V = Seq<Extension>;

    open spec fn view(&self) -> Seq<Extension> {
        self.0@
    }
}

impl ExtensionList {
    /// A list without any extension.
    pub fn new() -> (list: Self)
        ensures
            list@ == Seq::<Extension>::empty(),
    {
        ExtensionList(Vec::new())
    }

    /// Whether the list holds no extension.
    pub fn is_empty(&self) -> (b: bool)
        ensures
            b == (self@.len() == 0),
    {
        self.0.len() == 0
    }
}

/// What every member of a group has to support.
#[derive(Clone, Debug, PartialEq)]
pub struct RequiredCapabilitiesExt {
    pub extensions: Vec<ExtensionType>,
    pub proposals: Vec<ProposalType>,
    pub credentials: Vec<CredentialType>,
}

/// The parties outside the group that may send proposals to it.
#[derive(Clone, Debug, PartialEq)]
pub struct ExternalSendersExt {
    pub allowed_senders: Vec<SigningIdentity>,
}

} // verus!

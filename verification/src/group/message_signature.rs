//! What authenticates a message, and what of it is signed.

use vstd::prelude::*;

use std::ops::Deref;

use crate::bytes::append_bytes;
use crate::group::framing::{
    ConfirmationTag, ContentType, ContentView, GroupContext, MLSContent, MLSPlaintext, WireFormat,
};
use crate::group::sender::Sender;
use crate::tls::{
    read_vector, vector, vectors_are_written_one_way, written_vectors_are_read_back, ByteVec,
    CodecError, MAX_LEN,
};

verus! {

// ---------------------------------------------------------------------------
// Signatures
// ---------------------------------------------------------------------------

/// The signature of a message.
#[derive(Clone, Debug, PartialEq)]
pub struct MessageSignature(Vec<u8>);

impl View for MessageSignature {
    type V = Seq<u8>;

    closed spec fn view(&self) -> Seq<u8> {
        self.0@
    }
}

impl MessageSignature {
    /// The signature that these bytes are.
    pub closed spec fn of(bytes: Vec<u8>) -> Self {
        MessageSignature(bytes)
    }

    /// The bytes of the signature.
    pub closed spec fn bytes(self) -> Vec<u8> {
        self.0
    }

    /// A signature is its bytes, and nothing else.
    pub broadcast proof fn is_its_bytes(bytes: Vec<u8>)
        ensures
            (#[trigger] Self::of(bytes)).bytes() == bytes,
            Self::of(bytes)@ == bytes@,
    {
    }

    /// No signature yet.
    pub fn empty() -> (signature: Self)
        ensures
            signature@ == Seq::<u8>::empty(),
    {
        MessageSignature(Vec::new())
    }

    /// In how many bytes the signature is written.
    pub fn tls_serialized_len(&self) -> (n: usize)
        requires
            self@.len() <= MAX_LEN,
        ensures
            n == vector(self@).len(),
    {
        ByteVec::tls_serialized_len(&self.0)
    }

    /// Writes the signature behind what is there, and says how many bytes were written.
    pub fn tls_serialize(&self, out: &mut Vec<u8>) -> (r: Result<usize, CodecError>)
        ensures
            if self@.len() <= MAX_LEN {
                &&& r matches Ok(n) && n == vector(self@).len()
                &&& final(out)@ == old(out)@ + vector(self@)
            } else {
                &&& r == Err::<usize, CodecError>(CodecError::InvalidVectorLength)
                &&& final(out)@ == old(out)@
            },
    {
        ByteVec::tls_serialize(&self.0, out)
    }

    /// The signature that the bytes start with, and the bytes after it.
    pub fn tls_deserialize(bytes: &[u8]) -> (r: Result<(Self, &[u8]), CodecError>)
        ensures
            match read_vector(bytes@) {
                Ok((v, rest)) => r matches Ok(found) && found.0@ == v && found.1@ == rest,
                Err(e) => r == Err::<(Self, &[u8]), CodecError>(e),
            },
    {
        match ByteVec::tls_deserialize(bytes) {
            Ok((v, rest)) => Ok((MessageSignature(v), rest)),
            Err(e) => Err(e),
        }
    }
}

impl Deref for MessageSignature {
    type Target = Vec<u8>;

    fn deref(&self) -> (bytes: &Vec<u8>)
        ensures
            *bytes == self.bytes(),
            bytes@ == self@,
    {
        &self.0
    }
}

impl vstd::std_specs::convert::FromSpecImpl<Vec<u8>> for MessageSignature {
    open spec fn obeys_from_spec() -> bool {
        true
    }

    open spec fn from_spec(v: Vec<u8>) -> Self {
        MessageSignature::of(v)
    }
}

impl From<Vec<u8>> for MessageSignature {
    fn from(v: Vec<u8>) -> (signature: Self) {
        MessageSignature(v)
    }
}

// ---------------------------------------------------------------------------
// Authentication data
// ---------------------------------------------------------------------------

/// What authenticates the content of a message.
#[derive(Clone, Debug, PartialEq)]
pub struct MLSContentAuthData {
    pub signature: MessageSignature,
    /// A commit carries one, nothing else does.
    pub confirmation_tag: Option<ConfirmationTag>,
}

/// What there is to know of authentication data.
#[verifier::ext_equal]
pub ghost struct AuthView {
    pub signature: Seq<u8>,
    pub confirmation_tag: Option<Seq<u8>>,
}

impl View for MLSContentAuthData {
    type V = AuthView;

    open spec fn view(&self) -> AuthView {
        AuthView {
            signature: self.signature@,
            confirmation_tag: match self.confirmation_tag {
                Some(tag) => Some(tag@),
                None => None,
            },
        }
    }
}

impl AuthView {
    /// Neither the signature nor the tag is too long to be written.
    pub open spec fn fits(self) -> bool {
        &&& self.signature.len() <= MAX_LEN
        &&& self.confirmation_tag matches Some(tag) ==> tag.len() <= MAX_LEN
    }

    /// How the data is written: the signature, then the tag if there is one.
    pub open spec fn written(self) -> Seq<u8> {
        match self.confirmation_tag {
            Some(tag) => vector(self.signature) + vector(tag),
            None => vector(self.signature),
        }
    }

    /// The data at the start of these bytes, and what follows it. A tag is there if and
    /// only if the content is a commit.
    pub open spec fn read(bytes: Seq<u8>, content_type: ContentType) -> Result<
        (AuthView, Seq<u8>),
        CodecError,
    > {
        match read_vector(bytes) {
            Err(e) => Err(e),
            Ok((signature, rest)) => match content_type {
                ContentType::Commit => match read_vector(rest) {
                    Err(e) => Err(e),
                    Ok((tag, rest)) => Ok(
                        (AuthView { signature, confirmation_tag: Some(tag) }, rest),
                    ),
                },
                ContentType::Application | ContentType::Proposal => Ok(
                    (AuthView { signature, confirmation_tag: None }, rest),
                ),
            },
        }
    }
}

impl MLSContentAuthData {
    /// In how many bytes the data is written.
    pub fn tls_serialized_len(&self) -> (n: usize)
        requires
            self@.fits(),
        ensures
            n == self@.written().len(),
    {
        let tag_len: usize = match &self.confirmation_tag {
            Some(tag) => tag.tls_serialized_len(),
            None => 0,
        };
        self.signature.tls_serialized_len() + tag_len
    }

    /// Writes the data behind what is there, and says how many bytes were written. A tag
    /// that is too long is noticed when the signature is written already.
    pub fn tls_serialize(&self, out: &mut Vec<u8>) -> (r: Result<usize, CodecError>)
        ensures
            if self@.fits() {
                &&& r matches Ok(n) && n == self@.written().len()
                &&& final(out)@ == old(out)@ + self@.written()
            } else {
                &&& r == Err::<usize, CodecError>(CodecError::InvalidVectorLength)
                &&& final(out)@ == if self@.signature.len() <= MAX_LEN {
                    old(out)@ + vector(self@.signature)
                } else {
                    old(out)@
                }
            },
    {
        let signature_len: usize = match self.signature.tls_serialize(out) {
            Ok(n) => n,
            Err(e) => return Err(e),
        };
        let tag_len: usize = match &self.confirmation_tag {
            Some(tag) => match tag.tls_serialize(out) {
                Ok(n) => n,
                Err(e) => return Err(e),
            },
            None => 0,
        };
        assert(out@ =~= old(out)@ + self@.written());
        Ok(signature_len + tag_len)
    }

    /// The data that the bytes start with, for content of this type, and the bytes after
    /// it.
    pub fn tls_deserialize(bytes: &[u8], content_type: ContentType) -> (r: Result<
        (Self, &[u8]),
        CodecError,
    >)
        ensures
            match AuthView::read(bytes@, content_type) {
                Ok((auth, rest)) => r matches Ok(found) && found.0@ == auth && found.1@ == rest,
                Err(e) => r == Err::<(Self, &[u8]), CodecError>(e),
            },
    {
        let (signature, rest) = match MessageSignature::tls_deserialize(bytes) {
            Ok(found) => found,
            Err(e) => return Err(e),
        };
        match content_type {
            ContentType::Commit => match ByteVec::tls_deserialize(rest) {
                Ok((tag, rest)) => Ok(
                    (
                        MLSContentAuthData {
                            signature,
                            confirmation_tag: Some(ConfirmationTag(tag)),
                        },
                        rest,
                    ),
                ),
                Err(e) => Err(e),
            },
            ContentType::Application | ContentType::Proposal => Ok(
                (MLSContentAuthData { signature, confirmation_tag: None }, rest),
            ),
        }
    }
}

/// Content with what authenticates it, as it goes into the transcript of a group.
#[derive(Clone, Debug, PartialEq)]
pub struct MLSAuthenticatedContent<'a> {
    pub wire_format: WireFormat,
    pub content: &'a MLSContent,
    pub auth: &'a MLSContentAuthData,
}

impl<'a> MLSAuthenticatedContent<'a> {
    /// How it is written.
    pub open spec fn written(&self) -> Seq<u8> {
        self.wire_format.written() + self.content@.encoded + self.auth@.written()
    }

    /// In how many bytes it is written.
    pub fn tls_serialized_len(&self) -> (n: usize)
        requires
            self.auth@.fits(),
            self.written().len() <= usize::MAX,
        ensures
            n == self.written().len(),
    {
        self.wire_format.tls_serialized_len() + self.content.encoded.len()
            + self.auth.tls_serialized_len()
    }

    /// Writes it behind what is there, and says how many bytes were written. If it cannot
    /// be written as a whole, it is written as far as it can be.
    pub fn tls_serialize(&self, out: &mut Vec<u8>) -> (r: Result<usize, CodecError>)
        ensures
            if self.auth@.fits() {
                &&& r matches Ok(n) && n == self.written().len()
                &&& final(out)@ == old(out)@ + self.written()
            } else {
                &&& r == Err::<usize, CodecError>(CodecError::InvalidVectorLength)
                &&& final(out)@ == old(out)@ + self.wire_format.written() + self.content@.encoded
                    + if self.auth@.signature.len() <= MAX_LEN {
                    vector(self.auth@.signature)
                } else {
                    seq![]
                }
            },
    {
        let format_len: usize = match self.wire_format.tls_serialize(out) {
            Ok(n) => n,
            Err(e) => return Err(e),
        };
        append_bytes(out, &self.content.encoded);
        let content_len: usize = self.content.encoded.len();
        let auth_len: usize = match self.auth.tls_serialize(out) {
            Ok(n) => n,
            Err(e) => {
                assert(out@ =~= old(out)@ + self.wire_format.written() + self.content@.encoded
                    + if self.auth@.signature.len() <= MAX_LEN {
                    vector(self.auth@.signature)
                } else {
                    seq![]
                });
                return Err(e);
            },
        };
        assert(out@ =~= old(out)@ + self.written());
        assert(out.len() <= usize::MAX);
        Ok(format_len + content_len + auth_len)
    }
}

// ---------------------------------------------------------------------------
// What is signed
// ---------------------------------------------------------------------------

/// The part of a message that is signed.
#[derive(Clone, Debug, PartialEq)]
pub struct MLSContentTBS {
    pub wire_format: WireFormat,
    pub content: MLSContent,
    pub context: Option<GroupContext>,
}

/// What there is to know of the signed part of a message.
#[verifier::ext_equal]
pub ghost struct TbsView {
    pub wire_format: WireFormat,
    pub content: ContentView,
    pub context: Option<Seq<u8>>,
}

impl View for MLSContentTBS {
    type V = TbsView;

    open spec fn view(&self) -> TbsView {
        TbsView {
            wire_format: self.wire_format,
            content: self.content@,
            context: context_view(self.context),
        }
    }
}

/// The bytes of a context, if there is one.
pub open spec fn context_view(context: Option<GroupContext>) -> Option<Seq<u8>> {
    match context {
        Some(context) => Some(context@),
        None => None,
    }
}

/// The sender is in the group, or joins it by the message: it signs the group's context.
pub open spec fn signs_context(sender: Sender) -> bool {
    sender is Member || sender is NewMemberCommit
}

impl TbsView {
    /// The signed part of a message with this content.
    pub open spec fn of(
        content: ContentView,
        group_context: Option<Seq<u8>>,
        encrypted: bool,
    ) -> TbsView {
        TbsView {
            wire_format: if encrypted {
                WireFormat::Cipher
            } else {
                WireFormat::Plain
            },
            content,
            context: if signs_context(content.sender) {
                group_context
            } else {
                None
            },
        }
    }

    /// A context is there if and only if the sender signs it.
    pub open spec fn wf(self) -> bool {
        self.context is Some <==> signs_context(self.content.sender)
    }

    /// How it is written.
    pub open spec fn written(self) -> Seq<u8> {
        self.wire_format.written() + self.content.encoded + match self.context {
            Some(context) => context,
            None => seq![],
        }
    }
}

impl MLSContentTBS {
    /// In how many bytes it is written.
    pub fn tls_serialized_len(&self) -> (n: usize)
        requires
            self@.written().len() <= usize::MAX,
        ensures
            n == self@.written().len(),
    {
        let context_len: usize = match &self.context {
            Some(context) => context.encoded.len(),
            None => 0,
        };
        self.wire_format.tls_serialized_len() + self.content.encoded.len() + context_len
    }

    /// Writes it behind what is there, and says how many bytes were written.
    pub fn tls_serialize(&self, out: &mut Vec<u8>) -> (r: Result<usize, CodecError>)
        ensures
            r matches Ok(n) && n == self@.written().len(),
            final(out)@ == old(out)@ + self@.written(),
    {
        let format_len: usize = match self.wire_format.tls_serialize(out) {
            Ok(n) => n,
            Err(e) => return Err(e),
        };
        append_bytes(out, &self.content.encoded);
        let content_len: usize = self.content.encoded.len();
        let context_len: usize = match &self.context {
            Some(context) => {
                append_bytes(out, &context.encoded);
                context.encoded.len()
            },
            None => 0,
        };
        assert(out@ =~= old(out)@ + self@.written());
        assert(out.len() <= usize::MAX);
        Ok(format_len + content_len + context_len)
    }

    /// It, as it is written.
    pub fn tls_serialize_detached(&self) -> (r: Result<Vec<u8>, CodecError>)
        ensures
            r matches Ok(bytes) && bytes@ == self@.written(),
    {
        let mut buffer: Vec<u8> = Vec::new();
        match self.tls_serialize(&mut buffer) {
            Ok(_) => {
                assert(buffer@ =~= self@.written());
                Ok(buffer)
            },
            Err(e) => Err(e),
        }
    }

    /// The signed part of a message. The group context must not be `None` when the sender
    /// is a member or joins by the message.
    pub fn from_plaintext(
        plaintext: &MLSPlaintext,
        group_context: Option<&GroupContext>,
        encrypted: bool,
    ) -> (tbs: Self)
        ensures
            tbs@ == TbsView::of(
                plaintext.content@,
                match group_context {
                    Some(context) => Some(context@),
                    None => None,
                },
                encrypted,
            ),
    {
        MLSContentTBS {
            wire_format: if encrypted {
                WireFormat::Cipher
            } else {
                WireFormat::Plain
            },
            content: plaintext.content.clone(),
            context: match plaintext.content.sender {
                Sender::Member(_) | Sender::NewMemberCommit => match group_context {
                    Some(context) => Some(context.clone()),
                    None => None,
                },
                Sender::External(_) | Sender::NewMemberProposal => None,
            },
        }
    }
}

// ---------------------------------------------------------------------------
// Reading back what is signed
// ---------------------------------------------------------------------------

/// The codecs of content and of contexts: what the bytes start with, and the bytes after
/// it.
pub ghost struct TbsCodecs {
    pub content: spec_fn(Seq<u8>) -> Result<(ContentView, Seq<u8>), CodecError>,
    pub context: spec_fn(Seq<u8>) -> Result<(Seq<u8>, Seq<u8>), CodecError>,
}

/// The signed part that these bytes start with, and the bytes after it.
pub open spec fn tbs_read(bytes: Seq<u8>, codecs: TbsCodecs) -> Result<
    (TbsView, Seq<u8>),
    CodecError,
> {
    match WireFormat::read(bytes) {
        Err(e) => Err(e),
        Ok((wire_format, rest)) => tbs_read_from_content(wire_format, rest, codecs),
    }
}

/// What is read once the format is known.
pub open spec fn tbs_read_from_content(
    wire_format: WireFormat,
    bytes: Seq<u8>,
    codecs: TbsCodecs,
) -> Result<(TbsView, Seq<u8>), CodecError> {
    match (codecs.content)(bytes) {
        Err(e) => Err(e),
        Ok((content, rest)) => if signs_context(content.sender) {
            tbs_read_from_context(wire_format, content, rest, codecs)
        } else {
            Ok((TbsView { wire_format, content, context: None }, rest))
        },
    }
}

/// What is read once the content is known and a context follows it.
pub open spec fn tbs_read_from_context(
    wire_format: WireFormat,
    content: ContentView,
    bytes: Seq<u8>,
    codecs: TbsCodecs,
) -> Result<(TbsView, Seq<u8>), CodecError> {
    match (codecs.context)(bytes) {
        Err(e) => Err(e),
        Ok((context, rest)) => Ok(
            (TbsView { wire_format, content, context: Some(context) }, rest),
        ),
    }
}

/// The content that a codec found, and the bytes after it.
pub open spec fn content_found(found: Result<(MLSContent, &[u8]), CodecError>) -> Result<
    (ContentView, Seq<u8>),
    CodecError,
> {
    match found {
        Ok((content, rest)) => Ok((content@, rest@)),
        Err(e) => Err(e),
    }
}

/// The context that a codec found, and the bytes after it.
pub open spec fn context_found(found: Result<(GroupContext, &[u8]), CodecError>) -> Result<
    (Seq<u8>, Seq<u8>),
    CodecError,
> {
    match found {
        Ok((context, rest)) => Ok((context@, rest@)),
        Err(e) => Err(e),
    }
}

/// The signed part that was found, and the bytes after it.
pub open spec fn tbs_found(found: Result<(MLSContentTBS, &[u8]), CodecError>) -> Result<
    (TbsView, Seq<u8>),
    CodecError,
> {
    match found {
        Ok((tbs, rest)) => Ok((tbs@, rest@)),
        Err(e) => Err(e),
    }
}

/// Waits for the content to be read from the bytes that follow the format.
#[derive(Debug)]
pub struct TbsContentStep<'a> {
    pub wire_format: WireFormat,
    pub rest: &'a [u8],
}

/// Waits for the context to be read from the bytes that follow the content.
#[derive(Debug)]
pub struct TbsContextStep<'a> {
    pub wire_format: WireFormat,
    pub content: MLSContent,
    pub rest: &'a [u8],
}

/// Where reading stands once the content was read.
#[derive(Debug)]
pub enum TbsStep<'a> {
    Context(TbsContextStep<'a>),
    /// No context follows; these are the bytes after the signed part.
    Done(MLSContentTBS, &'a [u8]),
}

impl<'a> TbsStep<'a> {
    /// What reading leads to from here.
    pub open spec fn outcome(self, codecs: TbsCodecs) -> Result<(TbsView, Seq<u8>), CodecError> {
        match self {
            TbsStep::Context(step) => tbs_read_from_context(
                step.wire_format,
                step.content@,
                step.rest@,
                codecs,
            ),
            TbsStep::Done(tbs, rest) => Ok((tbs@, rest@)),
        }
    }
}

impl MLSContentTBS {
    /// Reads the format that the bytes start with. Content is to be read from what
    /// follows it.
    pub fn tls_deserialize(bytes: &[u8]) -> (r: Result<TbsContentStep<'_>, CodecError>)
        ensures
            match WireFormat::read(bytes@) {
                Ok((format, rest)) => r matches Ok(step) && step.wire_format == format
                    && step.rest@ == rest,
                Err(e) => r == Err::<TbsContentStep<'_>, CodecError>(e),
            },
            forall|codecs: TbsCodecs| #[trigger]
                tbs_read(bytes@, codecs) == match r {
                    Ok(step) => tbs_read_from_content(step.wire_format, step.rest@, codecs),
                    Err(e) => Err(e),
                },
    {
        match WireFormat::tls_deserialize(bytes) {
            Ok((wire_format, rest)) => Ok(TbsContentStep { wire_format, rest }),
            Err(e) => Err(e),
        }
    }
}

impl<'a> TbsContentStep<'a> {
    /// Takes the content that was read and the bytes after it, or why it could not be read.
    /// A context follows if and only if the sender signs it, and is to be read from those
    /// bytes.
    pub fn resume(self, found: Result<(MLSContent, &'a [u8]), CodecError>) -> (r: Result<
        TbsStep<'a>,
        CodecError,
    >)
        ensures
            match found {
                Ok((content, rest)) => if signs_context(content.sender) {
                    r == Ok::<TbsStep<'a>, CodecError>(
                        TbsStep::Context(
                            TbsContextStep { wire_format: self.wire_format, content, rest },
                        ),
                    )
                } else {
                    r == Ok::<TbsStep<'a>, CodecError>(
                        TbsStep::Done(
                            MLSContentTBS { wire_format: self.wire_format, content, context: None },
                            rest,
                        ),
                    )
                },
                Err(e) => r == Err::<TbsStep<'a>, CodecError>(e),
            },
            forall|codecs: TbsCodecs|
                (codecs.content)(self.rest@) == content_found(found)
                    ==> #[trigger] tbs_read_from_content(self.wire_format, self.rest@, codecs)
                    == match r {
                    Ok(step) => step.outcome(codecs),
                    Err(e) => Err(e),
                },
    {
        let (content, rest) = match found {
            Ok(found) => found,
            Err(e) => return Err(e),
        };
        match content.sender {
            Sender::Member(_) | Sender::NewMemberCommit => Ok(
                TbsStep::Context(TbsContextStep { wire_format: self.wire_format, content, rest }),
            ),
            Sender::External(_) | Sender::NewMemberProposal => Ok(
                TbsStep::Done(
                    MLSContentTBS { wire_format: self.wire_format, content, context: None },
                    rest,
                ),
            ),
        }
    }
}

impl<'a> TbsContextStep<'a> {
    /// Takes the context that was read and the bytes after it, or why it could not be read.
    pub fn resume(self, found: Result<(GroupContext, &'a [u8]), CodecError>) -> (r: Result<
        (MLSContentTBS, &'a [u8]),
        CodecError,
    >)
        ensures
            match found {
                Ok((context, rest)) => r == Ok::<(MLSContentTBS, &'a [u8]), CodecError>(
                    (
                        MLSContentTBS {
                            wire_format: self.wire_format,
                            content: self.content,
                            context: Some(context),
                        },
                        rest,
                    ),
                ),
                Err(e) => r == Err::<(MLSContentTBS, &'a [u8]), CodecError>(e),
            },
            forall|codecs: TbsCodecs|
                (codecs.context)(self.rest@) == context_found(found)
                    ==> #[trigger] tbs_read_from_context(
                    self.wire_format,
                    self.content@,
                    self.rest@,
                    codecs,
                ) == tbs_found(r),
    {
        match found {
            Ok((context, rest)) => Ok(
                (
                    MLSContentTBS {
                        wire_format: self.wire_format,
                        content: self.content,
                        context: Some(context),
                    },
                    rest,
                ),
            ),
            Err(e) => Err(e),
        }
    }
}

// ---------------------------------------------------------------------------
// Signing
// ---------------------------------------------------------------------------

/// What goes with a message into its signature.
pub struct MessageSigningContext<'a> {
    pub group_context: Option<&'a GroupContext>,
    pub encrypted: bool,
}

impl<'a> MessageSigningContext<'a> {
    /// The bytes of the group context, if there is one.
    pub open spec fn context_bytes(&self) -> Option<Seq<u8>> {
        match self.group_context {
            Some(context) => Some(context@),
            None => None,
        }
    }
}

/// The bytes of a message that are signed.
pub open spec fn signed_bytes(
    content: ContentView,
    group_context: Option<Seq<u8>>,
    encrypted: bool,
) -> Seq<u8> {
    TbsView::of(content, group_context, encrypted).written()
}

/// What the signature of a message is for.
pub const SIGN_LABEL: &'static str = "MLSMessageContentTBS";

impl MLSPlaintext {
    /// The signature of the message.
    pub fn signature(&self) -> (signature: &[u8])
        ensures
            signature@ == self.auth@.signature,
    {
        self.auth.signature.deref().as_slice()
    }

    /// The bytes of the message that are signed.
    pub fn signable_content(&self, context: &MessageSigningContext<'_>) -> (r: Result<
        Vec<u8>,
        CodecError,
    >)
        ensures
            r matches Ok(bytes) && bytes@ == signed_bytes(
                self.content@,
                context.context_bytes(),
                context.encrypted,
            ),
    {
        MLSContentTBS::from_plaintext(
            self,
            context.group_context,
            context.encrypted,
        ).tls_serialize_detached()
    }

    /// Replaces the signature, and nothing else.
    pub fn write_signature(&mut self, signature: Vec<u8>)
        ensures
            final(self).auth@ == (AuthView { signature: signature@, ..old(self).auth@ }),
            final(self).content == old(self).content,
    {
        broadcast use MessageSignature::is_its_bytes;

        self.auth.signature = MessageSignature::from(signature);
    }
}

// ---------------------------------------------------------------------------
// Laws
// ---------------------------------------------------------------------------

/// Authenticated content is written in three parts, whatever its format and whoever sent it:
/// one byte for the format, which tells the formats apart, then all bytes of the content, then
/// the signature as a vector and, if there is one, the tag as a vector, and nothing else.
pub proof fn authenticated_content_has_three_parts(content: MLSAuthenticatedContent<'_>)
    ensures
        ({
            let n = content.content.encoded@.len() as int;
            let bytes = content.written();
            let after = bytes.skip(1 + n);
            &&& bytes.len() >= 1 + n
            &&& bytes[0] == 1u8 <==> content.wire_format is Plain
            &&& bytes[0] == 2u8 <==> content.wire_format is Cipher
            &&& bytes.subrange(1, 1 + n) == content.content.encoded@
            &&& after.take(vector(content.auth.signature@).len() as int) == vector(
                content.auth.signature@,
            )
            &&& after.len() >= vector(content.auth.signature@).len()
            &&& after.skip(vector(content.auth.signature@).len() as int) == match
                content.auth.confirmation_tag {
                Some(tag) => vector(tag.0@),
                None => seq![],
            }
        }),
{
    let n = content.content.encoded@.len() as int;
    let bytes = content.written();
    let after = bytes.skip(1 + n);
    assert(bytes.subrange(1, 1 + n) =~= content.content.encoded@);
    assert(after =~= content.auth@.written());
    let s = vector(content.auth.signature@);
    assert(after.take(s.len() as int) =~= s);
    assert(after.skip(s.len() as int) =~= match content.auth.confirmation_tag {
        Some(tag) => vector(tag.0@),
        None => seq![],
    });
}

/// What authenticates content is read back from behind it, whatever follows: the signature and
/// the tag come out as they went in.
pub proof fn authentication_is_read_from_behind_content(
    content: MLSAuthenticatedContent<'_>,
    content_type: ContentType,
    rest: Seq<u8>,
)
    requires
        content.auth.signature@.len() <= MAX_LEN,
        content.auth.confirmation_tag matches Some(tag) ==> tag.0@.len() <= MAX_LEN,
        content.auth.confirmation_tag is Some <==> content_type is Commit,
    ensures
        AuthView::read(
            (content.written() + rest).skip(1 + content.content.encoded@.len() as int),
            content_type,
        ) matches Ok((auth, after)) && {
            &&& auth.signature == content.auth.signature@
            &&& auth.confirmation_tag == match content.auth.confirmation_tag {
                Some(tag) => Some(tag.0@),
                None => None,
            }
            &&& after == rest
        },
{
    auth_data_is_read_back(content.auth@, content_type, rest);
    assert((content.written() + rest).skip(1 + content.content.encoded@.len() as int)
        =~= content.auth@.written() + rest);
}

/// Nothing of authenticated content is lost when it is written: of two that are written alike
/// the formats agree, and if the contents are equally long and both carry a tag or neither
/// does, so do the contents, the signatures and the tags.
pub proof fn authenticated_content_is_written_in_full(
    a: MLSAuthenticatedContent<'_>,
    b: MLSAuthenticatedContent<'_>,
)
    requires
        a.written() == b.written(),
        a.auth.signature@.len() <= MAX_LEN,
        a.auth.confirmation_tag matches Some(tag) ==> tag.0@.len() <= MAX_LEN,
        b.auth.signature@.len() <= MAX_LEN,
        b.auth.confirmation_tag matches Some(tag) ==> tag.0@.len() <= MAX_LEN,
    ensures
        a.wire_format == b.wire_format,
        a.content.encoded@.len() == b.content.encoded@.len() ==> a.content.encoded@
            == b.content.encoded@,
        a.content.encoded@.len() == b.content.encoded@.len() && (
        a.auth.confirmation_tag is Some <==> b.auth.confirmation_tag is Some)
            ==> a.auth.signature@ == b.auth.signature@ && (a.auth.confirmation_tag matches Some(s)
            ==> (b.auth.confirmation_tag matches Some(t) ==> s.0@ == t.0@)),
{
    authenticated_content_has_three_parts(a);
    authenticated_content_has_three_parts(b);
    if a.content.encoded@.len() == b.content.encoded@.len() && (
    a.auth.confirmation_tag is Some <==> b.auth.confirmation_tag is Some) {
        let t = if a.auth.confirmation_tag is Some {
            ContentType::Commit
        } else {
            ContentType::Application
        };
        authentication_is_read_from_behind_content(a, t, seq![]);
        authentication_is_read_from_behind_content(b, t, seq![]);
    }
}

/// What codecs found is taken as it is, and reading that is done is done.
pub proof fn findings_are_taken_as_they_are(
    content: MLSContent,
    context: GroupContext,
    tbs: MLSContentTBS,
    rest: &[u8],
    codecs: TbsCodecs,
)
    ensures
        content_found(Ok((content, rest))) matches Ok((c, after)) && c.sender == content.sender
            && c.encoded == content.encoded@ && after == rest@,
        context_found(Ok((context, rest))) == Ok::<(Seq<u8>, Seq<u8>), CodecError>(
            (context.encoded@, rest@),
        ),
        tbs_found(Ok((tbs, rest))) == Ok::<(TbsView, Seq<u8>), CodecError>((tbs@, rest@)),
        TbsStep::Done(tbs, rest).outcome(codecs) == Ok::<(TbsView, Seq<u8>), CodecError>(
            (tbs@, rest@),
        ),
{
}

/// Authentication data is the signature as a vector and then the tag as a vector, if there is
/// one. It can be written exactly if neither is too long, and a tag makes it longer.
pub proof fn auth_data_has_two_parts(auth: MLSContentAuthData)
    ensures
        auth@.written() == match auth.confirmation_tag {
            Some(tag) => vector(auth.signature@) + vector(tag.0@),
            None => vector(auth.signature@),
        },
        auth@.fits() <==> auth.signature@.len() <= MAX_LEN && (
        auth.confirmation_tag matches Some(tag) ==> tag.0@.len() <= MAX_LEN),
{
}

/// Authentication data is found exactly where a vector is, followed by a second one if the
/// content is a commit; they are the signature and the tag. If one is missing, the reason is
/// that for which no vector can be read there.
pub proof fn auth_data_is_one_or_two_vectors(bytes: Seq<u8>, content_type: ContentType)
    ensures
        read_vector(bytes) matches Err(e) ==> AuthView::read(bytes, content_type) == Err::<
            (AuthView, Seq<u8>),
            CodecError,
        >(e),
        read_vector(bytes) matches Ok((signature, rest)) ==> if content_type is Commit {
            match read_vector(rest) {
                Err(e) => AuthView::read(bytes, content_type) == Err::<
                    (AuthView, Seq<u8>),
                    CodecError,
                >(e),
                Ok((tag, end)) => AuthView::read(bytes, content_type) matches Ok((auth, after))
                    && auth.signature == signature && auth.confirmation_tag == Some(tag) && after
                    == end,
            }
        } else {
            AuthView::read(bytes, content_type) matches Ok((auth, after)) && auth.signature
                == signature && auth.confirmation_tag is None && after == rest
        },
{
}

/// What is signed of a message is one byte for its format, two if it is encrypted and one if
/// not, then all bytes of its content, then the group's context if it is given and the sender
/// is a member or joins by the message; whoever is outside signs nothing more.
pub proof fn signed_part_has_three_parts(
    message: MLSPlaintext,
    context: MessageSigningContext<'_>,
)
    ensures
        ({
            let n = message.content.encoded@.len() as int;
            let bytes = signed_bytes(message.content@, context.context_bytes(), context.encrypted);
            &&& bytes.len() >= 1 + n
            &&& bytes[0] == if context.encrypted {
                2u8
            } else {
                1u8
            }
            &&& bytes.subrange(1, 1 + n) == message.content.encoded@
            &&& match message.content.sender {
                Sender::Member(_) | Sender::NewMemberCommit => match context.group_context {
                    Some(group_context) => bytes.skip(1 + n) == group_context.encoded@,
                    None => bytes.len() == 1 + n,
                },
                Sender::External(_) | Sender::NewMemberProposal => bytes.len() == 1 + n,
            }
        }),
{
    let n = message.content.encoded@.len() as int;
    let bytes = signed_bytes(message.content@, context.context_bytes(), context.encrypted);
    assert(bytes.subrange(1, 1 + n) =~= message.content.encoded@);
    if let Some(group_context) = context.group_context {
        if message.content.sender is Member || message.content.sender is NewMemberCommit {
            assert(bytes.skip(1 + n) =~= group_context.encoded@);
        }
    }
}

/// A signed part is written as the byte of its format, its content and its context, if it has
/// one, whoever sent it.
pub proof fn tbs_has_three_parts(tbs: MLSContentTBS)
    ensures
        ({
            let n = tbs.content.encoded@.len() as int;
            let bytes = tbs@.written();
            &&& bytes.len() >= 1 + n
            &&& bytes[0] == 1u8 <==> tbs.wire_format is Plain
            &&& bytes[0] == 2u8 <==> tbs.wire_format is Cipher
            &&& bytes.subrange(1, 1 + n) == tbs.content.encoded@
            &&& bytes.skip(1 + n) == match tbs.context {
                Some(context) => context.encoded@,
                None => seq![],
            }
        }),
{
    let n = tbs.content.encoded@.len() as int;
    let bytes = tbs@.written();
    assert(bytes.subrange(1, 1 + n) =~= tbs.content.encoded@);
    assert(bytes.skip(1 + n) =~= match tbs.context {
        Some(context) => context.encoded@,
        None => seq![],
    });
}

/// The signed part of a message has the format that goes with how it travels, the message's
/// own content, and the given context if the sender is a member or joins by the message.
pub proof fn signed_part_is_of_the_message(
    content: MLSContent,
    group_context: Option<GroupContext>,
    encrypted: bool,
)
    ensures
        ({
            let tbs = TbsView::of(content@, context_view(group_context), encrypted);
            &&& tbs.wire_format is Cipher <==> encrypted
            &&& tbs.content.sender == content.sender
            &&& tbs.content.encoded == content.encoded@
            &&& match content.sender {
                Sender::Member(_) | Sender::NewMemberCommit => match group_context {
                    Some(context) => tbs.context == Some(context.encoded@),
                    None => tbs.context is None,
                },
                Sender::External(_) | Sender::NewMemberProposal => tbs.context is None,
            }
            &&& tbs.wf() <==> (tbs.context is Some <==> content.sender is Member
                || content.sender is NewMemberCommit)
        }),
{
}

/// What is read as a signed part is what the codecs find: the format is the first byte, the
/// content is found behind it, and behind that a context is read exactly for members and those
/// who join. What is missing there makes reading fail, for the same reason.
pub proof fn signed_part_is_found_in_order(bytes: Seq<u8>, codecs: TbsCodecs)
    ensures
        bytes.len() == 0 ==> tbs_read(bytes, codecs) == Err::<(TbsView, Seq<u8>), CodecError>(
            CodecError::EndOfStream,
        ),
        bytes.len() > 0 && bytes[0] != 1 && bytes[0] != 2 ==> tbs_read(bytes, codecs) == Err::<
            (TbsView, Seq<u8>),
            CodecError,
        >(CodecError::UnknownValue(bytes[0] as u64)),
        bytes.len() > 0 && (bytes[0] == 1 || bytes[0] == 2) ==> match (codecs.content)(
            bytes.skip(1),
        ) {
            Err(e) => tbs_read(bytes, codecs) == Err::<(TbsView, Seq<u8>), CodecError>(e),
            Ok((content, rest)) => match content.sender {
                Sender::Member(_) | Sender::NewMemberCommit => match (codecs.context)(rest) {
                    Err(e) => tbs_read(bytes, codecs) == Err::<(TbsView, Seq<u8>), CodecError>(e),
                    Ok((context, end)) => tbs_read(bytes, codecs) matches Ok((tbs, after))
                        && tbs.content == content && tbs.context == Some(context) && after == end,
                },
                Sender::External(_) | Sender::NewMemberProposal => tbs_read(
                    bytes,
                    codecs,
                ) matches Ok((tbs, after)) && tbs.content == content && tbs.context is None
                    && after == rest,
            },
        },
        tbs_read(bytes, codecs) matches Ok((tbs, _)) ==> {
            &&& bytes[0] == 1u8 <==> tbs.wire_format is Plain
            &&& bytes[0] == 2u8 <==> tbs.wire_format is Cipher
        },
{
}

/// Authentication data that was written is read back, whatever follows it, if a tag is
/// there exactly for a commit.
pub proof fn auth_data_is_read_back(auth: AuthView, content_type: ContentType, rest: Seq<u8>)
    requires
        auth.fits(),
        auth.confirmation_tag is Some <==> content_type is Commit,
    ensures
        AuthView::read(auth.written() + rest, content_type) == Ok::<
            (AuthView, Seq<u8>),
            CodecError,
        >((auth, rest)),
{
    match auth.confirmation_tag {
        Some(tag) => {
            let after = vector(tag) + rest;
            assert(auth.written() + rest =~= vector(auth.signature) + after);
            written_vectors_are_read_back(auth.signature, after);
            written_vectors_are_read_back(tag, rest);
        },
        None => {
            written_vectors_are_read_back(auth.signature, rest);
        },
    }
}

/// Authentication data that is read has a tag exactly if the content is a commit, and is
/// what the bytes start with.
pub proof fn auth_data_is_written_one_way(bytes: Seq<u8>, content_type: ContentType)
    ensures
        AuthView::read(bytes, content_type) matches Ok((auth, rest)) ==> {
            &&& auth.fits()
            &&& auth.confirmation_tag is Some <==> content_type is Commit
            &&& bytes == auth.written() + rest
        },
{
    vectors_are_written_one_way(bytes);
    if let Ok((signature, rest)) = read_vector(bytes) {
        vectors_are_written_one_way(rest);
        if let Ok((auth, end)) = AuthView::read(bytes, content_type) {
            assert(bytes =~= auth.written() + end);
        }
    }
}

/// The format that was written is read back, whatever follows it.
pub proof fn wire_format_is_read_back(format: WireFormat, rest: Seq<u8>)
    ensures
        WireFormat::read(format.written() + rest) == Ok::<(WireFormat, Seq<u8>), CodecError>(
            (format, rest),
        ),
{
    assert((format.written() + rest).skip(1) =~= rest);
}

/// The codec reads this content back, whatever follows it.
pub open spec fn reads_content_back(codecs: TbsCodecs, content: ContentView) -> bool {
    forall|rest: Seq<u8>| #[trigger]
        (codecs.content)(content.encoded + rest) == Ok::<(ContentView, Seq<u8>), CodecError>(
            (content, rest),
        )
}

/// The codec reads this context back, whatever follows it.
pub open spec fn reads_context_back(codecs: TbsCodecs, context: Seq<u8>) -> bool {
    forall|rest: Seq<u8>| #[trigger]
        (codecs.context)(context + rest) == Ok::<(Seq<u8>, Seq<u8>), CodecError>((context, rest))
}

/// The signed part of a message that was written is read back, whatever follows it, if a
/// context is there exactly where the sender signs it, and if the codecs of content and
/// context read back what they wrote. So if nothing follows it, all bytes are read.
pub proof fn signed_part_is_read_back(tbs: TbsView, rest: Seq<u8>, codecs: TbsCodecs)
    requires
        tbs.wf(),
        reads_content_back(codecs, tbs.content),
        tbs.context matches Some(context) ==> reads_context_back(codecs, context),
    ensures
        tbs_read(tbs.written() + rest, codecs) == Ok::<(TbsView, Seq<u8>), CodecError>((tbs, rest)),
        tbs_read(tbs.written(), codecs) == Ok::<(TbsView, Seq<u8>), CodecError>((tbs, seq![])),
{
    lemma_signed_part_is_read_back(tbs, rest, codecs);
    lemma_signed_part_is_read_back(tbs, seq![], codecs);
    assert(tbs.written() + seq![] =~= tbs.written());
}

proof fn lemma_signed_part_is_read_back(tbs: TbsView, rest: Seq<u8>, codecs: TbsCodecs)
    requires
        tbs.wf(),
        reads_content_back(codecs, tbs.content),
        tbs.context matches Some(context) ==> reads_context_back(codecs, context),
    ensures
        tbs_read(tbs.written() + rest, codecs) == Ok::<(TbsView, Seq<u8>), CodecError>((tbs, rest)),
{
    let after_content = match tbs.context {
        Some(context) => context + rest,
        None => rest,
    };
    let after_format = tbs.content.encoded + after_content;
    assert(tbs.written() + rest =~= tbs.wire_format.written() + after_format);
    wire_format_is_read_back(tbs.wire_format, after_format);
    assert((codecs.content)(tbs.content.encoded + after_content) == Ok::<
        (ContentView, Seq<u8>),
        CodecError,
    >((tbs.content, after_content)));
}

/// The part that is read has a context exactly where the sender signs it, whatever the
/// codecs of content and context do.
pub proof fn signed_part_has_context_of_sender(bytes: Seq<u8>, codecs: TbsCodecs)
    ensures
        tbs_read(bytes, codecs) matches Ok((tbs, rest)) ==> tbs.wf(),
{
}

/// Signing a message, or confirming a commit, does not change what of it is signed.
pub proof fn signed_bytes_do_not_depend_on_auth(
    a: MLSPlaintext,
    b: MLSPlaintext,
    group_context: Option<Seq<u8>>,
    encrypted: bool,
)
    requires
        a.content == b.content,
    ensures
        signed_bytes(a.content@, group_context, encrypted) == signed_bytes(
            b.content@,
            group_context,
            encrypted,
        ),
{
}

/// Whoever is outside the group does not sign its context.
pub proof fn outsiders_do_not_sign_the_context(
    content: ContentView,
    a: Option<Seq<u8>>,
    b: Option<Seq<u8>>,
    encrypted: bool,
)
    requires
        content.sender is External || content.sender is NewMemberProposal,
    ensures
        signed_bytes(content, a, encrypted) == signed_bytes(content, b, encrypted),
{
}

/// Whoever is in the group, or joins it by the message, signs its context.
pub proof fn insiders_sign_the_context(
    content: ContentView,
    a: Seq<u8>,
    b: Seq<u8>,
    encrypted: bool,
)
    requires
        content.sender is Member || content.sender is NewMemberCommit,
        signed_bytes(content, Some(a), encrypted) == signed_bytes(content, Some(b), encrypted),
    ensures
        a == b,
{
    let before = TbsView::of(content, Some(a), encrypted).wire_format.written() + content.encoded;
    let signed = signed_bytes(content, Some(a), encrypted);
    assert(signed == before + a);
    assert(signed == before + b);
    assert(a =~= signed.skip(before.len() as int));
    assert(b =~= signed.skip(before.len() as int));
}

/// A signature for a message in the clear is none for the same message encrypted.
pub proof fn the_format_is_signed(
    a: ContentView,
    b: ContentView,
    context_a: Option<Seq<u8>>,
    context_b: Option<Seq<u8>>,
)
    ensures
        signed_bytes(a, context_a, false) != signed_bytes(b, context_b, true),
{
    assert(signed_bytes(a, context_a, false)[0] == WireFormat::Plain.code());
    assert(signed_bytes(b, context_b, true)[0] == WireFormat::Cipher.code());
}

/// The transcript of a message starts with what whoever is outside the group signs of it.
pub proof fn transcript_starts_with_signed_part(content: MLSAuthenticatedContent<'_>)
    requires
        content.wire_format is Plain,
        !signs_context(content.content.sender),
    ensures
        content.written() == signed_bytes(content.content@, None, false) + content.auth@.written(),
{
    assert(content.written() =~= signed_bytes(content.content@, None, false)
        + content.auth@.written());
}

} // verus!

use std::ops::Deref;

use aws_mls::group::framing::{
    ConfirmationTag, ContentType, GroupContext, MLSContent, MLSPlaintext, WireFormat,
};
use aws_mls::group::message_signature::{
    MLSAuthenticatedContent, MLSContentAuthData, MLSContentTBS, MessageSignature,
    MessageSigningContext, TbsStep, SIGN_LABEL,
};
use aws_mls::group::sender::Sender;
use aws_mls::tls::{ByteVec, CodecError, MAX_LEN};

fn written(bytes: &[u8]) -> Vec<u8> {
    let mut out = vec![];
    let n = ByteVec::tls_serialize(&bytes.to_vec(), &mut out).unwrap();
    assert_eq!(n, out.len());
    assert_eq!(n, ByteVec::tls_serialized_len(&bytes.to_vec()));
    out
}

fn auth(signature: &[u8], tag: Option<&[u8]>) -> MLSContentAuthData {
    MLSContentAuthData {
        signature: MessageSignature::from(signature.to_vec()),
        confirmation_tag: tag.map(|t| ConfirmationTag(t.to_vec())),
    }
}

fn content(sender: Sender) -> MLSContent {
    MLSContent { sender, encoded: b"content".to_vec() }
}

fn context() -> GroupContext {
    GroupContext { encoded: b"context".to_vec() }
}

fn plaintext(sender: Sender) -> MLSPlaintext {
    MLSPlaintext { content: content(sender), auth: auth(b"sig", None) }
}

fn signed(
    message: &MLSPlaintext,
    group_context: Option<&GroupContext>,
    encrypted: bool,
) -> Vec<u8> {
    message.signable_content(&MessageSigningContext { group_context, encrypted }).unwrap()
}

#[test]
fn short_vectors_have_a_length_of_one_byte() {
    assert_eq!(written(b""), vec![0]);
    assert_eq!(written(&[7, 8]), vec![2, 7, 8]);
    assert_eq!(written(&[1; 63])[..2], [0x3f, 1]);
}

#[test]
fn longer_vectors_have_a_longer_length() {
    assert_eq!(written(&[1; 64])[..3], [0x40, 0x40, 1]);
    assert_eq!(written(&[1; 64]).len(), 66);
    assert_eq!(written(&[1; 16383])[..3], [0x7f, 0xff, 1]);
    assert_eq!(written(&[1; 16384])[..5], [0x80, 0x00, 0x40, 0x00, 1]);
    assert_eq!(written(&[1; 16384]).len(), 16388);
    assert_eq!(written(&[1; 70000])[..4], [0x80, 0x01, 0x11, 0x70]);
}

#[test]
fn vectors_are_read_back() {
    for n in [0usize, 1, 63, 64, 300, 16383, 16384, 70000] {
        let bytes = vec![9u8; n];
        let mut all = written(&bytes);
        all.extend_from_slice(b"rest");
        let (found, rest) = ByteVec::tls_deserialize(&all).unwrap();
        assert_eq!(found, bytes);
        assert_eq!(rest, b"rest");
    }
}

#[test]
fn vectors_without_length_are_refused() {
    assert_eq!(ByteVec::tls_deserialize(&[]), Err(CodecError::InvalidVectorLength));
    assert_eq!(ByteVec::tls_deserialize(&[0xc0, 0, 0, 0]), Err(CodecError::InvalidVectorLength));
}

#[test]
fn vectors_with_a_length_in_too_many_bytes_are_refused() {
    assert_eq!(ByteVec::tls_deserialize(&[0x40, 1, 9]), Err(CodecError::InvalidVectorLength));
    assert_eq!(
        ByteVec::tls_deserialize(&[0x80, 0, 0, 1, 9]),
        Err(CodecError::InvalidVectorLength)
    );
}

#[test]
fn vectors_that_are_cut_off_are_refused() {
    assert_eq!(ByteVec::tls_deserialize(&[0x40]), Err(CodecError::EndOfStream));
    assert_eq!(ByteVec::tls_deserialize(&[0x80, 0, 0]), Err(CodecError::EndOfStream));
    assert_eq!(ByteVec::tls_deserialize(&[3, 1, 2]), Err(CodecError::EndOfStream));
}

#[test]
fn wire_formats_are_one_byte() {
    for (format, code) in [(WireFormat::Plain, 1u8), (WireFormat::Cipher, 2u8)] {
        let mut out = vec![5];
        assert_eq!(format.tls_serialize(&mut out), Ok(1));
        assert_eq!(out, vec![5, code]);
        assert_eq!(format.tls_serialized_len(), 1);
        assert_eq!(WireFormat::tls_deserialize(&[code, 6]), Ok((format, &[6u8][..])));
    }
    assert_eq!(WireFormat::tls_deserialize(&[]), Err(CodecError::EndOfStream));
    assert_eq!(WireFormat::tls_deserialize(&[9]), Err(CodecError::UnknownValue(9)));
}

#[test]
fn signatures_are_their_bytes() {
    let signature = MessageSignature::from(vec![1, 2, 3]);
    assert_eq!(signature.deref(), &vec![1, 2, 3]);
    assert_eq!(signature.len(), 3);
    assert!(MessageSignature::empty().is_empty());
    assert_eq!(MessageSignature::empty(), MessageSignature::from(vec![]));
    let mut out = vec![];
    assert_eq!(signature.tls_serialize(&mut out), Ok(4));
    assert_eq!(out, vec![3, 1, 2, 3]);
    assert_eq!(MessageSignature::tls_deserialize(&out), Ok((signature, &[][..])));
}

#[test]
fn auth_data_is_signature_then_tag() {
    let with_tag = auth(b"sig", Some(b"tag!"));
    let mut out = b"before".to_vec();
    assert_eq!(with_tag.tls_serialize(&mut out), Ok(9));
    assert_eq!(out, b"before\x03sig\x04tag!".to_vec());
    assert_eq!(with_tag.tls_serialized_len(), 9);
    let mut out = vec![];
    assert_eq!(auth(b"sig", None).tls_serialize(&mut out), Ok(4));
    assert_eq!(out, b"\x03sig".to_vec());
    assert_eq!(auth(b"sig", None).tls_serialized_len(), 4);
}

#[test]
fn vectors_that_are_too_long_are_not_written() {
    let too_long = vec![0u8; MAX_LEN + 1];
    let mut out = vec![5];
    assert_eq!(
        ByteVec::tls_serialize(&too_long, &mut out),
        Err(CodecError::InvalidVectorLength)
    );
    assert_eq!(out, vec![5]);
    let tagged = MLSContentAuthData {
        signature: MessageSignature::from(b"sig".to_vec()),
        confirmation_tag: Some(ConfirmationTag(too_long)),
    };
    assert_eq!(tagged.tls_serialize(&mut out), Err(CodecError::InvalidVectorLength));
    assert_eq!(out, b"\x05\x03sig".to_vec());
}

#[test]
fn auth_data_of_a_commit_has_a_tag() {
    let bytes = b"\x03sig\x04tag!rest";
    assert_eq!(
        MLSContentAuthData::tls_deserialize(bytes, ContentType::Commit),
        Ok((auth(b"sig", Some(b"tag!")), &b"rest"[..]))
    );
    for content_type in [ContentType::Application, ContentType::Proposal] {
        assert_eq!(
            MLSContentAuthData::tls_deserialize(bytes, content_type),
            Ok((auth(b"sig", None), &b"\x04tag!rest"[..]))
        );
    }
}

#[test]
fn auth_data_that_is_cut_off_is_refused() {
    assert_eq!(
        MLSContentAuthData::tls_deserialize(b"\x03si", ContentType::Proposal),
        Err(CodecError::EndOfStream)
    );
    assert_eq!(
        MLSContentAuthData::tls_deserialize(b"\x03sig", ContentType::Commit),
        Err(CodecError::InvalidVectorLength)
    );
    assert_eq!(
        MLSContentAuthData::tls_deserialize(b"\x03sig\x04ta", ContentType::Commit),
        Err(CodecError::EndOfStream)
    );
}

#[test]
fn authenticated_content_is_written_in_order() {
    let content = content(Sender::Member(1));
    let auth = auth(b"sig", Some(b"tag!"));
    let authenticated = MLSAuthenticatedContent {
        wire_format: WireFormat::Cipher,
        content: &content,
        auth: &auth,
    };
    let mut out = vec![];
    assert_eq!(authenticated.tls_serialize(&mut out), Ok(17));
    assert_eq!(out, b"\x02content\x03sig\x04tag!".to_vec());
    assert_eq!(authenticated.tls_serialized_len(), 17);
}

#[test]
fn insiders_sign_the_group_context() {
    for sender in [Sender::Member(3), Sender::NewMemberCommit] {
        let message = plaintext(sender);
        assert_eq!(signed(&message, Some(&context()), false), b"\x01contentcontext".to_vec());
        assert_eq!(signed(&message, Some(&context()), true), b"\x02contentcontext".to_vec());
    }
}

#[test]
fn outsiders_do_not_sign_the_group_context() {
    for sender in [Sender::External(3), Sender::NewMemberProposal] {
        let message = plaintext(sender);
        assert_eq!(signed(&message, Some(&context()), false), b"\x01content".to_vec());
        assert_eq!(signed(&message, None, false), b"\x01content".to_vec());
    }
}

#[test]
fn signing_replaces_the_signature_alone() {
    let mut message = plaintext(Sender::Member(0));
    message.auth = auth(b"sig", Some(b"tag!"));
    let before = signed(&message, Some(&context()), false);
    message.write_signature(b"another".to_vec());
    assert_eq!(message.signature(), b"another");
    assert_eq!(message.auth, auth(b"another", Some(b"tag!")));
    assert_eq!(message.content, content(Sender::Member(0)));
    assert_eq!(signed(&message, Some(&context()), false), before);
    assert_eq!(SIGN_LABEL, "MLSMessageContentTBS");
}

#[test]
fn signed_part_is_written_and_read_back() {
    let message = plaintext(Sender::Member(0));
    let tbs = MLSContentTBS::from_plaintext(&message, Some(&context()), true);
    assert_eq!(tbs.tls_serialized_len(), 15);
    let bytes = tbs.tls_serialize_detached().unwrap();
    assert_eq!(bytes, b"\x02contentcontext".to_vec());
    let step = MLSContentTBS::tls_deserialize(&bytes).unwrap();
    assert_eq!(step.wire_format, WireFormat::Cipher);
    assert_eq!(step.rest, b"contentcontext");
    let found = Ok((content(Sender::Member(0)), &step.rest[7..]));
    match step.resume(found).unwrap() {
        TbsStep::Context(step) => {
            assert_eq!(step.rest, b"context");
            assert_eq!(step.resume(Ok((context(), &b""[..]))), Ok((tbs, &b""[..])));
        }
        TbsStep::Done(..) => panic!("a member signs the context"),
    }
}

#[test]
fn no_context_is_read_for_outsiders() {
    let step = MLSContentTBS::tls_deserialize(b"\x01contentmore").unwrap();
    let found = Ok((content(Sender::External(0)), &step.rest[7..]));
    match step.resume(found).unwrap() {
        TbsStep::Context(_) => panic!("an external sender does not sign the context"),
        TbsStep::Done(tbs, rest) => {
            assert_eq!(rest, b"more");
            assert_eq!(
                tbs,
                MLSContentTBS {
                    wire_format: WireFormat::Plain,
                    content: content(Sender::External(0)),
                    context: None,
                }
            );
        }
    }
}

#[test]
fn what_cannot_be_read_makes_reading_fail() {
    assert_eq!(
        MLSContentTBS::tls_deserialize(b"\x07content").map(|_| ()),
        Err(CodecError::UnknownValue(7))
    );
    assert_eq!(MLSContentTBS::tls_deserialize(b"").map(|_| ()), Err(CodecError::EndOfStream));
    let step = MLSContentTBS::tls_deserialize(b"\x01").unwrap();
    assert_eq!(
        step.resume(Err(CodecError::EndOfStream)).map(|_| ()),
        Err(CodecError::EndOfStream)
    );
    let step = MLSContentTBS::tls_deserialize(b"\x01content").unwrap();
    let found = Ok((content(Sender::NewMemberCommit), &step.rest[7..]));
    match step.resume(found).unwrap() {
        TbsStep::Context(step) => {
            assert_eq!(step.resume(Err(CodecError::EndOfStream)), Err(CodecError::EndOfStream))
        }
        TbsStep::Done(..) => panic!("whoever joins signs the context"),
    }
}

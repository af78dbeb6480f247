//! The parts of a message that authentication covers.

use vstd::prelude::*;

use crate::bytes::copy_of;
use crate::group::message_signature::MLSContentAuthData;
use crate::group::sender::Sender;
use crate::tls::{vector, ByteVec, CodecError, MAX_LEN};

verus! {

/// What a message is for.
#[derive(Clone, Copy, Debug, PartialEq, Eq, Structural)]
pub enum ContentType {
    Application,
    Proposal,
    Commit,
}

/// How the content of a message travels.
#[derive(Clone, Copy, Debug, PartialEq, Eq, Structural)]
pub enum WireFormat {
    /// In the clear.
    Plain,
    /// Encrypted.
    Cipher,
}

impl WireFormat {
    /// The byte that stands for the format.
    pub open spec fn code(self) -> u8 {
        match self {
            WireFormat::Plain => 1,
            WireFormat::Cipher => 2,
        }
    }

    /// How the format is written.
    pub open spec fn written(self) -> Seq<u8> {
        seq![self.code()]
    }

    /// The format at the start of these bytes and what follows it.
    pub open spec fn read(bytes: Seq<u8>) -> Result<(WireFormat, Seq<u8>), CodecError> {
        if bytes.len() == 0 {
            Err(CodecError::EndOfStream)
        } else if bytes[0] == 1 {
            Ok((WireFormat::Plain, bytes.skip(1)))
        } else if bytes[0] == 2 {
            Ok((WireFormat::Cipher, bytes.skip(1)))
        } else {
            Err(CodecError::UnknownValue(bytes[0] as u64))
        }
    }

    /// In how many bytes the format is written.
    pub fn tls_serialized_len(&self) -> (n: usize)
        ensures
            n == self.written().len(),
    {
        1
    }

    /// Writes the format behind what is there, and says how many bytes were written.
    pub fn tls_serialize(&self, out: &mut Vec<u8>) -> (r: Result<usize, CodecError>)
        ensures
            r matches Ok(n) && n == self.written().len(),
            final(out)@ == old(out)@ + self.written(),
    {
        let code: u8 = match self {
            WireFormat::Plain => 1,
            WireFormat::Cipher => 2,
        };
        out.push(code);
        assert(out@ =~= old(out)@ + self.written());
        Ok(1)
    }

    /// The format that the bytes start with, and the bytes after it.
    pub fn tls_deserialize(bytes: &[u8]) -> (r: Result<(WireFormat, &[u8]), CodecError>)
        ensures
            match WireFormat::read(bytes@) {
                Ok((format, rest)) => r matches Ok(found) && found.0 == format && found.1@ == rest,
                Err(e) => r == Err::<(WireFormat, &[u8]), CodecError>(e),
            },
    {
        let n: usize = bytes.len();
        if n == 0 {
            return Err(CodecError::EndOfStream);
        }
        let format = match bytes[0] {
            1 => WireFormat::Plain,
            2 => WireFormat::Cipher,
            code => return Err(CodecError::UnknownValue(code as u64)),
        };
        let rest = vstd::slice::slice_subrange(bytes, 1, n);
        assert(rest@ =~= bytes@.skip(1));
        Ok((format, rest))
    }
}

/// A format is one byte, one in the clear and two encrypted. That byte and no other is read as
/// that format, and what follows it is left.
pub proof fn formats_are_one_byte(format: WireFormat, bytes: Seq<u8>)
    ensures
        format.written().len() == 1,
        format.written()[0] == if format == WireFormat::Plain {
            1u8
        } else {
            2u8
        },
        bytes.len() == 0 ==> WireFormat::read(bytes) == Err::<(WireFormat, Seq<u8>), CodecError>(
            CodecError::EndOfStream,
        ),
        bytes.len() > 0 && bytes[0] != 1 && bytes[0] != 2 ==> WireFormat::read(bytes) == Err::<
            (WireFormat, Seq<u8>),
            CodecError,
        >(CodecError::UnknownValue(bytes[0] as u64)),
        bytes.len() > 0 && bytes[0] == format.written()[0] ==> (WireFormat::read(bytes) matches Ok(
            (found, rest),
        ) && found == format && bytes == seq![bytes[0]] + rest),
{
    if bytes.len() > 0 {
        assert(bytes =~= seq![bytes[0]] + bytes.skip(1));
    }
}

/// Who sent a message, and its content as it is written.
#[derive(Debug, PartialEq)]
pub struct MLSContent {
    pub sender: Sender,
    /// The whole content, the sender with it, as it is written.
    pub encoded: Vec<u8>,
}

/// What there is to know of the content of a message.
#[verifier::ext_equal]
pub ghost struct ContentView {
    pub sender: Sender,
    pub encoded: Seq<u8>,
}

impl View for MLSContent {
    type V = ContentView;

    open spec fn view(&self) -> ContentView {
        ContentView { sender: self.sender, encoded: self.encoded@ }
    }
}

impl Clone for MLSContent {
    fn clone(&self) -> (content: Self)
        ensures
            content@ == self@,
    {
        MLSContent { sender: self.sender, encoded: copy_of(&self.encoded) }
    }
}

/// The state of a group that its members sign along with what they say.
#[derive(Debug, PartialEq)]
pub struct GroupContext {
    /// The context as it is written.
    pub encoded: Vec<u8>,
}

impl View for GroupContext {
    type V = Seq<u8>;

    open spec fn view(&self) -> Seq<u8> {
        self.encoded@
    }
}

impl Clone for GroupContext {
    fn clone(&self) -> (context: Self)
        ensures
            context@ == self@,
    {
        GroupContext { encoded: copy_of(&self.encoded) }
    }
}

/// What confirms that the members agree on the outcome of a commit.
#[derive(Clone, Debug, PartialEq)]
pub struct ConfirmationTag(pub Vec<u8>);

impl View for ConfirmationTag {
    type V = Seq<u8>;

    open spec fn view(&self) -> Seq<u8> {
        self.0@
    }
}

impl ConfirmationTag {
    /// In how many bytes the tag is written.
    pub fn tls_serialized_len(&self) -> (n: usize)
        requires
            self@.len() <= MAX_LEN,
        ensures
            n == vector(self@).len(),
    {
        ByteVec::tls_serialized_len(&self.0)
    }

    /// Writes the tag behind what is there, and says how many bytes were written.
    pub fn tls_serialize(&self, out: &mut Vec<u8>) -> (r: Result<usize, CodecError>)
        ensures
            if self@.len() <= MAX_LEN {
                &&& r matches Ok(n) && n == vector(self@).len()
                &&& final(out)@ == old(out)@ + vector(self@)
            } else {
                &&& r == Err::<usize, CodecError>(CodecError::InvalidVectorLength)
                &&& final(out)@ == old(out)@
            },
    {
        ByteVec::tls_serialize(&self.0, out)
    }
}

/// A message in the clear, with what authenticates it.
#[derive(Clone, Debug, PartialEq)]
pub struct MLSPlaintext {
    pub content: MLSContent,
    pub auth: MLSContentAuthData,
}

} // verus!

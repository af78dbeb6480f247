//! Byte vectors of variable length in the presentation language of TLS.
//!
//! A vector is its length, in one, two or four bytes, and its bytes. The first two
//! bits say in how many bytes the length is written; the rest of them hold it, most
//! significant byte first. A length is written in as few bytes as possible.

use vstd::prelude::*;

use tls_codec::Error as TlsError;

use crate::bytes::append_bytes;

verus! {

/// The length of the longest vector that can be written.
pub const MAX_LEN: usize = 0x3fff_ffff;

/// Why bytes could not be written or read.
#[derive(Clone, Debug, PartialEq)]
pub enum CodecError {
    /// Something could not be written.
    EncodingError(String),
    /// The length of a vector is invalid.
    InvalidVectorLength,
    /// Not everything was written.
    InvalidWriteLength(String),
    /// A number could not be read.
    InvalidInput,
    /// Something could not be read.
    DecodingError(String),
    /// There are too few bytes.
    EndOfStream,
    /// There are too many bytes.
    TrailingData,
    /// The value is of no known kind.
    UnknownValue(u64),
    /// The codec is at fault.
    LibraryError,
}

/// In how many bytes the length of a vector of `n` bytes is written.
pub open spec fn header_len(n: nat) -> nat {
    if n < 0x40 {
        1
    } else if n < 0x4000 {
        2
    } else {
        4
    }
}

/// How the length of a vector of `n` bytes is written.
pub open spec fn header(n: nat) -> Seq<u8> {
    if n < 0x40 {
        seq![n as u8]
    } else if n < 0x4000 {
        seq![(0x40 + n / 0x100) as u8, (n % 0x100) as u8]
    } else {
        seq![
            (0x80 + n / 0x100_0000) as u8,
            (n / 0x1_0000 % 0x100) as u8,
            (n / 0x100 % 0x100) as u8,
            (n % 0x100) as u8,
        ]
    }
}

/// How a byte vector is written.
pub open spec fn vector(bytes: Seq<u8>) -> Seq<u8> {
    header(bytes.len()) + bytes
}

/// In how many bytes a length that starts with this byte is written, if it is.
pub open spec fn header_len_by(first: u8) -> Option<nat> {
    if first < 0x40 {
        Some(1)
    } else if first < 0x80 {
        Some(2)
    } else if first < 0xc0 {
        Some(4)
    } else {
        None
    }
}

/// The length that the first `k` bytes hold.
pub open spec fn length_in(bytes: Seq<u8>, k: nat) -> nat {
    if k == 1 {
        bytes[0] as nat
    } else if k == 2 {
        ((bytes[0] - 0x40) * 0x100 + bytes[1]) as nat
    } else {
        ((bytes[0] - 0x80) * 0x100_0000 + bytes[1] * 0x1_0000 + bytes[2] * 0x100 + bytes[3]) as nat
    }
}

/// The vector at the start of these bytes and what follows it.
pub open spec fn read_vector(bytes: Seq<u8>) -> Result<(Seq<u8>, Seq<u8>), CodecError> {
    if bytes.len() == 0 {
        Err(CodecError::InvalidVectorLength)
    } else {
        match header_len_by(bytes[0]) {
            None => Err(CodecError::InvalidVectorLength),
            Some(k) => {
                let n = length_in(bytes, k);
                if bytes.len() < k {
                    Err(CodecError::EndOfStream)
                } else if header_len(n) != k {
                    Err(CodecError::InvalidVectorLength)
                } else if bytes.len() < k + n {
                    Err(CodecError::EndOfStream)
                } else {
                    Ok((bytes.subrange(k as int, (k + n) as int), bytes.skip((k + n) as int)))
                }
            },
        }
    }
}

// ---------------------------------------------------------------------------
// The codec
// ---------------------------------------------------------------------------

/// The errors of `tls_codec`, of which nothing is read here.
#[verifier::external_type_specification]
#[verifier::external_body]
pub struct ExTlsCodecError(tls_codec::Error);

/// Calls `tls_codec::Serialize::tls_serialize_detached` on a `tls_codec::VLByteSlice`.
/// It succeeds on every vector that is not too long, with the length in as few bytes as
/// possible followed by the bytes; on a longer one it may panic.
#[verifier::external_body]
fn encode_vector(bytes: &[u8]) -> (r: Result<Vec<u8>, tls_codec::Error>)
    requires
        bytes@.len() <= MAX_LEN,
    ensures
        r is Ok,
        r->Ok_0@ == vector(bytes@),
{
    tls_codec::Serialize::tls_serialize_detached(&tls_codec::VLByteSlice(bytes))
}

/// Calls `tls_codec::Size::tls_serialized_len` on a `tls_codec::VLByteSlice`: the number
/// of bytes that the vector takes with its length. On a vector that is too long it may
/// panic.
#[verifier::external_body]
fn encoded_len(bytes: &[u8]) -> (n: usize)
    requires
        bytes@.len() <= MAX_LEN,
    ensures
        n == vector(bytes@).len(),
{
    tls_codec::Size::tls_serialized_len(&tls_codec::VLByteSlice(bytes))
}

/// Calls `tls_codec::Deserialize::tls_deserialize` for a `tls_codec::VLBytes`: the vector
/// that the bytes start with and the bytes after it, or why there is none. Where the
/// first two bits ask for a length of eight bytes it may panic.
#[verifier::external_body]
fn decode_vector(bytes: &[u8]) -> (r: Result<(Vec<u8>, &[u8]), CodecError>)
    requires
        bytes@.len() > 0 ==> bytes@[0] < 0xc0,
    ensures
        match read_vector(bytes@) {
            Ok((vector, rest)) => r matches Ok(found) && found.0@ == vector && found.1@ == rest,
            Err(e) => r == Err::<(Vec<u8>, &[u8]), CodecError>(e),
        },
{
    let mut rest = bytes;
    match <tls_codec::VLBytes as tls_codec::Deserialize>::tls_deserialize(&mut rest) {
        Ok(v) => Ok((v.into(), rest)),
        Err(TlsError::EncodingError(s)) => Err(CodecError::EncodingError(s)),
        Err(TlsError::InvalidVectorLength) => Err(CodecError::InvalidVectorLength),
        Err(TlsError::InvalidWriteLength(s)) => Err(CodecError::InvalidWriteLength(s)),
        Err(TlsError::InvalidInput) => Err(CodecError::InvalidInput),
        Err(TlsError::DecodingError(s)) => Err(CodecError::DecodingError(s)),
        Err(TlsError::EndOfStream) => Err(CodecError::EndOfStream),
        Err(TlsError::TrailingData) => Err(CodecError::TrailingData),
        Err(TlsError::UnknownValue(n)) => Err(CodecError::UnknownValue(n)),
        Err(TlsError::LibraryError) => Err(CodecError::LibraryError),
    }
}

/// Byte vectors of variable length.
pub struct ByteVec;

impl ByteVec {
    /// In how many bytes the vector is written.
    pub fn tls_serialized_len(bytes: &Vec<u8>) -> (n: usize)
        requires
            bytes@.len() <= MAX_LEN,
        ensures
            n == vector(bytes@).len(),
    {
        encoded_len(bytes.as_slice())
    }

    /// Writes the vector behind what is there, and says how many bytes were written.
    pub fn tls_serialize(bytes: &Vec<u8>, out: &mut Vec<u8>) -> (r: Result<usize, CodecError>)
        ensures
            if bytes@.len() <= MAX_LEN {
                &&& r matches Ok(n) && n == vector(bytes@).len()
                &&& final(out)@ == old(out)@ + vector(bytes@)
            } else {
                &&& r == Err::<usize, CodecError>(CodecError::InvalidVectorLength)
                &&& final(out)@ == old(out)@
            },
    {
        if bytes.len() > MAX_LEN {
            return Err(CodecError::InvalidVectorLength);
        }
        match encode_vector(bytes.as_slice()) {
            Ok(encoded) => {
                append_bytes(out, &encoded);
                Ok(encoded.len())
            },
            Err(_) => Err(CodecError::LibraryError),
        }
    }

    /// The vector that the bytes start with, and the bytes after it.
    pub fn tls_deserialize(bytes: &[u8]) -> (r: Result<(Vec<u8>, &[u8]), CodecError>)
        ensures
            match read_vector(bytes@) {
                Ok((vector, rest)) => r matches Ok(found) && found.0@ == vector && found.1@ == rest,
                Err(e) => r == Err::<(Vec<u8>, &[u8]), CodecError>(e),
            },
    {
        if bytes.len() > 0 && bytes[0] >= 0xc0 {
            Err(CodecError::InvalidVectorLength)
        } else {
            decode_vector(bytes)
        }
    }
}

// ---------------------------------------------------------------------------
// Laws
// ---------------------------------------------------------------------------

proof fn lemma_digits(n: int)
    requires
        0 <= n < 0x4000_0000,
    ensures
        0 <= n / 0x100_0000 < 0x40,
        n == n / 0x100_0000 * 0x100_0000 + n / 0x1_0000 % 0x100 * 0x1_0000 + n / 0x100 % 0x100
            * 0x100 + n % 0x100,
{
    assert(n / 0x100 == n / 0x1_0000 * 0x100 + n / 0x100 % 0x100);
    assert(n / 0x1_0000 == n / 0x100_0000 * 0x100 + n / 0x1_0000 % 0x100);
}

proof fn lemma_from_digits(a: int, b: int, c: int, d: int)
    requires
        0 <= a < 0x40,
        0 <= b < 0x100,
        0 <= c < 0x100,
        0 <= d < 0x100,
    ensures
        ({
            let n = a * 0x100_0000 + b * 0x1_0000 + c * 0x100 + d;
            &&& 0 <= n < 0x4000_0000
            &&& n / 0x100_0000 == a
            &&& n / 0x1_0000 % 0x100 == b
            &&& n / 0x100 % 0x100 == c
            &&& n % 0x100 == d
        }),
{
    let n = a * 0x100_0000 + b * 0x1_0000 + c * 0x100 + d;
    assert(n / 0x100 == a * 0x1_0000 + b * 0x100 + c);
    assert(n / 0x1_0000 == a * 0x100 + b);
}

proof fn lemma_length_of_header(n: nat, bytes: Seq<u8>)
    requires
        n <= MAX_LEN,
        header_len(n) <= bytes.len(),
        forall|i: int| 0 <= i < header_len(n) ==> bytes[i] == #[trigger] header(n)[i],
    ensures
        header(n).len() == header_len(n),
        header_len_by(bytes[0]) == Some(header_len(n)),
        length_in(bytes, header_len(n)) == n,
{
    lemma_digits(n as int);
    assert(bytes[0] == header(n)[0]);
    if n >= 0x40 {
        assert(bytes[1] == header(n)[1]);
    }
    if n >= 0x4000 {
        assert(bytes[2] == header(n)[2]);
        assert(bytes[3] == header(n)[3]);
    }
}

proof fn lemma_header_of_length(k: nat, bytes: Seq<u8>)
    requires
        bytes.len() > 0,
        header_len_by(bytes[0]) == Some(k),
        k <= bytes.len(),
        header_len(length_in(bytes, k)) == k,
    ensures
        length_in(bytes, k) <= MAX_LEN,
        header(length_in(bytes, k)) == bytes.take(k as int),
{
    let n = length_in(bytes, k);
    if k == 1 {
        assert(header(n) =~= bytes.take(1));
    } else if k == 2 {
        assert(header(n) =~= bytes.take(2));
    } else {
        lemma_from_digits(
            bytes[0] - 0x80,
            bytes[1] as int,
            bytes[2] as int,
            bytes[3] as int,
        );
        assert(header(n) =~= bytes.take(4));
    }
}

/// A vector ends with its bytes, behind one byte if there are fewer than 64 of them, two if
/// fewer than 16384, and four if there are more; and nothing else is written.
pub proof fn vectors_end_with_their_bytes(bytes: Seq<u8>)
    ensures
        vector(bytes).len() == bytes.len() + if bytes.len() < 64 {
            1int
        } else if bytes.len() < 16384 {
            2
        } else {
            4
        },
        vector(bytes).skip(vector(bytes).len() - bytes.len()) == bytes,
{
    assert(vector(bytes).skip(vector(bytes).len() - bytes.len()) =~= bytes);
}

/// What is read of bytes goes by the first of them: below 64 it is the length itself; below 128
/// the length is in two bytes, below 192 in four, the first of them less 64 or 128; and there is
/// no vector if it is larger, or if there is no byte at all, or if the length would have fitted
/// into fewer bytes. Where bytes are missing, the stream ended.
pub proof fn lengths_are_read_from_the_first_bytes(bytes: Seq<u8>)
    ensures
        bytes.len() == 0 || bytes[0] >= 192 ==> read_vector(bytes) == Err::<
            (Seq<u8>, Seq<u8>),
            CodecError,
        >(CodecError::InvalidVectorLength),
        bytes.len() > 0 && bytes[0] < 64 ==> found_behind(bytes, 1, bytes[0] as int, 0),
        bytes.len() > 0 && 64 <= bytes[0] < 128 ==> if bytes.len() < 2 {
            read_vector(bytes) == Err::<(Seq<u8>, Seq<u8>), CodecError>(CodecError::EndOfStream)
        } else {
            found_behind(bytes, 2, (bytes[0] - 64) * 256 + bytes[1], 64)
        },
        bytes.len() > 0 && 128 <= bytes[0] < 192 ==> if bytes.len() < 4 {
            read_vector(bytes) == Err::<(Seq<u8>, Seq<u8>), CodecError>(CodecError::EndOfStream)
        } else {
            found_behind(
                bytes,
                4,
                (bytes[0] - 128) * 16777216 + bytes[1] * 65536 + bytes[2] * 256 + bytes[3],
                16384,
            )
        },
{
}

/// A vector of `n` bytes is found behind the first `k`, if they are there and `n` is not too
/// small to be written so.
pub open spec fn found_behind(bytes: Seq<u8>, k: int, n: int, smallest: int) -> bool {
    if n < smallest {
        read_vector(bytes) == Err::<(Seq<u8>, Seq<u8>), CodecError>(CodecError::InvalidVectorLength)
    } else if bytes.len() < k + n {
        read_vector(bytes) == Err::<(Seq<u8>, Seq<u8>), CodecError>(CodecError::EndOfStream)
    } else {
        read_vector(bytes) matches Ok((v, rest)) && v == bytes.subrange(k, k + n) && rest
            == bytes.skip(k + n)
    }
}

/// What was written is read back, whatever follows it.
pub proof fn written_vectors_are_read_back(bytes: Seq<u8>, rest: Seq<u8>)
    requires
        bytes.len() <= MAX_LEN,
    ensures
        read_vector(vector(bytes) + rest) == Ok::<(Seq<u8>, Seq<u8>), CodecError>((bytes, rest)),
{
    let n = bytes.len();
    let k = header_len(n);
    let all = vector(bytes) + rest;
    lemma_length_of_header(n, all);
    assert(all.subrange(k as int, (k + n) as int) =~= bytes);
    assert(all.skip((k + n) as int) =~= rest);
}

/// There is one way to write a vector: what is read back as one was written as one.
pub proof fn vectors_are_written_one_way(bytes: Seq<u8>)
    ensures
        read_vector(bytes) matches Ok((v, rest)) ==> {
            &&& v.len() <= MAX_LEN
            &&& bytes == vector(v) + rest
        },
{
    if let Ok((v, rest)) = read_vector(bytes) {
        let k = header_len_by(bytes[0])->0;
        let n = length_in(bytes, k);
        lemma_header_of_length(k, bytes);
        assert(v.len() == n);
        assert(bytes =~= vector(v) + rest);
    }
}

} // verus!

//! The identifier (ESSID) of the network an interface is associated with.
//!
//! The kernel is asked by a control request on a datagram socket. The
//! request names the interface in a fixed field and points at a buffer; the
//! kernel fills the buffer and reports how many bytes it wrote, terminator
//! included. What is computed here is the request, and what the reply says.

use crate::catalog::Interface;
use crate::error::EssidFetchError;
use crate::text::{
    decode_text, find_byte, lemma_position, lemma_text_encodes_back, lemma_text_of_encoding,
    position, text_of,
};
use vstd::prelude::*;
use vstd::utf8::encode_utf8;

verus! {

/// The size of the field that names the interface in a control request.
pub const NAME_FIELD_SIZE: usize = 16;

/// The most bytes an identifier has.
pub const ESSID_MAX_SIZE: usize = 32;

/// The size of the buffer that the kernel is pointed at: room for the
/// longest identifier and its terminator.
pub const ESSID_BUFFER_SIZE: usize = ESSID_MAX_SIZE + 1;

/// The code of the control request that gets the identifier.
pub const GET_ESSID: u32 = 0x8B1B;

/// The status with which a control request reports that it failed.
pub const REQUEST_FAILED: i32 = -1;

/// What a control request for the identifier holds, but for the address of
/// the buffer, which only the caller has.
#[derive(Debug)]
pub struct EssidRequest {
    /// The interface's name, then zeros.
    pub name: [u8; NAME_FIELD_SIZE],
    /// The size of the buffer that the kernel may fill.
    pub length: u16,
    /// The request's flags.
    pub flags: u16,
}

/// The name field for `name`: the name's bytes, then zeros.
pub open spec fn name_field(name: Seq<u8>) -> Seq<u8> {
    Seq::new(
        NAME_FIELD_SIZE as nat,
        |i: int|
            if i < name.len() {
                name[i]
            } else {
                0u8
            },
    )
}

impl Interface {
    /// The bytes of the interface's name.
    pub open spec fn name_bytes(&self) -> Seq<u8> {
        encode_utf8(self@)
    }

    /// Whether the name and a terminator fit the name field of a control
    /// request.
    pub open spec fn spec_fits_name_field(&self) -> bool {
        self.name_bytes().len() < NAME_FIELD_SIZE
    }

    /// Tells whether the name and a terminator fit the name field of a
    /// control request.
    #[verifier::when_used_as_spec(spec_fits_name_field)]
    pub fn fits_name_field(&self) -> (fits: bool)
        ensures
            fits == self.spec_fits_name_field(),
    {
        self.name().as_bytes().len() < NAME_FIELD_SIZE
    }

    /// Makes the control request that asks for the identifier of the
    /// network this interface is associated with.
    ///
    /// The name must fit the name field with its terminator: a longer one
    /// cannot be put to the kernel.
    pub fn essid_request(&self) -> (request: EssidRequest)
        requires
            self.fits_name_field(),
        ensures
            request.name@ == name_field(self.name_bytes()),
            request.length == ESSID_BUFFER_SIZE,
            request.flags == 0,
    {
        let bytes = self.name().as_bytes();
        let mut name: [u8; NAME_FIELD_SIZE] = [0u8; NAME_FIELD_SIZE];
        let mut i: usize = 0;
        while i < bytes.len()
            invariant
                i <= bytes.len() < NAME_FIELD_SIZE,
                forall|j: int|
                    0 <= j < NAME_FIELD_SIZE ==> name[j] == (if j < i {
                        bytes[j]
                    } else {
                        0u8
                    }),
            decreases bytes.len() - i,
        {
            name[i] = bytes[i];
            i += 1;
        }
        EssidRequest { name, length: ESSID_BUFFER_SIZE as u16, flags: 0 }
    }
}

/// What a buffer that the kernel filled, and the length it reported, say.
///
/// The length counts the terminator, so the identifier is the bytes
/// before the last one counted. It is text where those bytes hold no zero
/// and are UTF-8.
pub open spec fn essid_text(data: Seq<u8>, length: u16) -> Result<Seq<char>, EssidFetchError> {
    if length == 0 || length > data.len() {
        Err(EssidFetchError::LengthError { length })
    } else {
        let bytes = data.take(length - 1);
        let nul = position(bytes, 0u8);
        if nul < bytes.len() {
            Err(EssidFetchError::NulError { nul: nul as usize })
        } else {
            match text_of(bytes) {
                Some(text) => Ok(text),
                None => Err(EssidFetchError::Utf8Error),
            }
        }
    }
}

/// What the reply to a control request says: the failure of the request
/// where its status says that it failed, else what the buffer says.
pub open spec fn essid_reply(
    status: i32,
    os_error: std::io::Error,
    data: Seq<u8>,
    length: u16,
) -> Result<Seq<char>, EssidFetchError> {
    if status == REQUEST_FAILED {
        Err(EssidFetchError::Io { io: os_error })
    } else {
        essid_text(data, length)
    }
}

/// Whether `got` is the string, or the failure, that `said` describes.
pub open spec fn reads_as(
    got: Result<String, EssidFetchError>,
    said: Result<Seq<char>, EssidFetchError>,
) -> bool {
    match said {
        Ok(text) => got matches Ok(s) && s@ == text,
        Err(e) => got == Err::<String, EssidFetchError>(e),
    }
}

/// Decodes the identifier from the buffer that the kernel filled and the
/// length it reported.
pub fn decode_essid(data: &[u8], length: u16) -> (essid: Result<String, EssidFetchError>)
    ensures
        reads_as(essid, essid_text(data@, length)),
{
    let counted = length as usize;
    if counted == 0 || counted > data.len() {
        return Err(EssidFetchError::LengthError { length });
    }
    let end = counted - 1;
    let nul = find_byte(data, 0, end, 0);
    if nul < end {
        return Err(EssidFetchError::NulError { nul });
    }
    match decode_text(data, end) {
        Some(text) => Ok(text),
        None => Err(EssidFetchError::Utf8Error),
    }
}

/// Reads the reply to a control request for the identifier.
///
/// `status` is what the request returned and `os_error` the system's
/// last error, taken right after the request; `data` is the buffer that
/// the request pointed at and `length` the length found in the request
/// afterwards.
pub fn essid_from_reply(status: i32, os_error: std::io::Error, data: &[u8], length: u16) -> (essid:
    Result<String, EssidFetchError>)
    ensures
        reads_as(essid, essid_reply(status, os_error, data@, length)),
{
    if status == REQUEST_FAILED {
        Err(EssidFetchError::from(os_error))
    } else {
        decode_essid(data, length)
    }
}

/// A request that failed gives an I/O failure, and nothing else does:
/// what a reply holds can only fail to decode.
pub proof fn lemma_failure_kinds(status: i32, os_error: std::io::Error, data: Seq<u8>, length: u16)
    ensures
        match essid_reply(status, os_error, data, length) {
            Ok(_) => status != REQUEST_FAILED,
            Err(e) => if status == REQUEST_FAILED {
                e == (EssidFetchError::Io { io: os_error })
            } else {
                e.is_decode_failure()
            },
        },
{
}

/// The text that a buffer says is encoded by the bytes that the length
/// counts before the terminator, and those hold no zero.
pub proof fn lemma_essid_is_encoded(data: Seq<u8>, length: u16)
    ensures
        essid_text(data, length) matches Ok(text) ==> {
            &&& 1 <= length <= data.len()
            &&& encode_utf8(text) == data.take(length - 1)
            &&& position(encode_utf8(text), 0u8) == length - 1
        },
{
    if 1 <= length <= data.len() {
        lemma_position(data.take(length - 1), 0u8);
        lemma_text_encodes_back(data.take(length - 1));
    }
}

/// A buffer that begins with the encoding of `text`, which holds no zero,
/// and a length that counts those bytes and one more, say `text`.
pub proof fn lemma_essid_of_text(text: Seq<char>, data: Seq<u8>, length: u16)
    requires
        length == encode_utf8(text).len() + 1,
        length <= data.len(),
        data.take(length - 1) == encode_utf8(text),
        position(encode_utf8(text), 0u8) == encode_utf8(text).len(),
    ensures
        essid_text(data, length) == Ok::<Seq<char>, EssidFetchError>(text),
{
    lemma_text_of_encoding(text);
}

/// Decoding the same buffer and length again gives the same text, or the
/// same failure.
pub proof fn lemma_decoding_repeats(
    data: Seq<u8>,
    length: u16,
    first: Result<String, EssidFetchError>,
    second: Result<String, EssidFetchError>,
)
    requires
        reads_as(first, essid_text(data, length)),
        reads_as(second, essid_text(data, length)),
    ensures
        match (first, second) {
            (Ok(a), Ok(b)) => a@ == b@,
            (Err(a), Err(b)) => a == b,
            _ => false,
        },
{
}

} // verus!

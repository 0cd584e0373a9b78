//! Where accounts come from: the source interface and the decoding of
//! stored records.

pub mod file;
pub mod number;
pub mod record;

use crate::acc::Account;
use data_encoding::{DecodeError, BASE32_NOPAD};
use vstd::prelude::*;
use vstd::utf8::encode_utf8;

verus! {

/// Why a source could not hand out or take in accounts.
#[derive(Debug, Clone, Copy, PartialEq, Eq, Structural)]
pub enum SourceError {
    /// The storage could not be opened or read.
    SourceUnavailable,
    /// The record with this index, counted from zero after the header,
    /// could not be decoded.
    MalformedEntry(usize),
    /// The source cannot do what was asked of it.
    UnimplementedCapability,
}

/// Where a list of accounts came from, for display.
#[derive(Debug, Clone)]
pub enum DataSrc<T> {
    /// A note in place of a file name.
    Msg(T),
    /// The name of the file that was read.
    Filename(T),
}

impl<T> DataSrc<T> {
    /// What the descriptor holds, whichever kind it is.
    pub open spec fn payload(&self) -> T {
        match *self {
            DataSrc::Msg(x) => x,
            DataSrc::Filename(x) => x,
        }
    }

    /// The text of the descriptor.
    pub fn unwrap(&self) -> (inner: &T)
        ensures
            *inner == self.payload(),
    {
        match self {
            DataSrc::Msg(x) => x,
            DataSrc::Filename(x) => x,
        }
    }
}

impl View for DataSrc<String> {
    type V = DataSrc<Seq<char>>;

    open spec fn view(&self) -> DataSrc<Seq<char>> {
        match *self {
            DataSrc::Msg(s) => DataSrc::Msg(s@),
            DataSrc::Filename(s) => DataSrc::Filename(s@),
        }
    }
}

/// A backend that can supply a list of accounts. Each backend says for
/// itself what it may hand out; the interface promises nothing in its place.
pub trait AccList {
    /// What this source may answer when asked for its accounts: anything,
    /// unless the source says otherwise.
    open spec fn hands_out(&self, loaded: Result<Vec<Account>, SourceError>) -> bool {
        true
    }

    /// What this source may answer when asked where the accounts come from:
    /// anything, unless the source says otherwise.
    open spec fn describes(&self, src: DataSrc<String>) -> bool {
        true
    }

    /// Retrieves the accounts from storage, in stored order. A source that
    /// cannot be read fails with `SourceUnavailable`; one entry that cannot be
    /// decoded fails the whole call with `MalformedEntry`.
    fn get_accs(&self) -> (loaded: Result<Vec<Account>, SourceError>)
        ensures
            self.hands_out(loaded),
    ;

    /// Describes where the accounts come from, for the title of the display.
    fn get_src(&self) -> (src: DataSrc<String>)
        ensures
            self.describes(src),
    ;

    /// Writes accounts back to storage. A source that cannot write fails
    /// with `UnimplementedCapability`: it never answers `Ok` without having
    /// stored the accounts.
    fn write_accs(&self, to_write: Vec<Account>) -> Result<(), SourceError>;
}

/// The error of `data_encoding`'s decoder, carried from the decoder to the
/// wording of its message.
#[verifier::external_type_specification]
#[verifier::external_body]
pub struct ExDecodeError(DecodeError);

/// What unpadded base32 text (RFC 4648, upper-case alphabet) decodes to,
/// or `None` where it is not such text.
pub uninterp spec fn base32_nopad_decode(text: Seq<u8>) -> Option<Seq<u8>>;

/// The 32 symbols of the base32 alphabet: `A` to `Z` and `2` to `7`.
pub open spec fn is_base32_symbol(b: u8) -> bool {
    (0x41 <= b <= 0x5a) || (0x32 <= b <= 0x37)
}

/// The longest text that the decoder takes.
pub open spec fn max_secret_text() -> int {
    usize::MAX as int / 8
}

/// Calls `Encoding::decode` of `data_encoding` on `BASE32_NOPAD`. The contract
/// names the decoded bytes, and claims that text which decodes holds only
/// symbols of the alphabet. Longer text than `max_secret_text` is left out:
/// the decoder asserts against it.
#[verifier::external_body]
fn decode_base32_nopad(text: &[u8]) -> (r: Result<Vec<u8>, DecodeError>)
    requires
        text@.len() <= max_secret_text(),
    ensures
        match r {
            Ok(bytes) => base32_nopad_decode(text@) == Some(bytes@),
            Err(_) => base32_nopad_decode(text@) is None,
        },
        r is Ok ==> forall|i: int| 0 <= i < text@.len() ==> is_base32_symbol(#[trigger] text@[i]),
{
    BASE32_NOPAD.decode(text)
}

/// Formats a decoding error with its `Display` impl: the kind of the error
/// and the position in the text. Nothing is claimed of the wording.
#[verifier::external_body]
fn decode_error_text(err: &DecodeError) -> (text: String) {
    err.to_string()
}

/// An ASCII letter in upper case; every other byte as it is.
pub open spec fn upper(b: u8) -> u8 {
    if 0x61 <= b <= 0x7a {
        (b - 0x20) as u8
    } else {
        b
    }
}

/// Text with its ASCII letters in upper case.
pub open spec fn upper_text(text: Seq<u8>) -> Seq<u8> {
    Seq::new(text.len(), |i: int| upper(text[i]))
}

/// The secret that the text of a key stands for: its unpadded base32
/// decoding, read without regard to case.
pub open spec fn secret_of(text: Seq<u8>) -> Option<Seq<u8>> {
    if text.len() <= max_secret_text() {
        base32_nopad_decode(upper_text(text))
    } else {
        None
    }
}

/// Copies text, putting its ASCII letters in upper case.
pub fn to_upper(text: &[u8]) -> (out: Vec<u8>)
    ensures
        out@ == upper_text(text@),
{
    let mut out: Vec<u8> = Vec::with_capacity(text.len());
    let mut i: usize = 0;
    while i < text.len()
        invariant
            i <= text@.len(),
            out@ == upper_text(text@.take(i as int)),
        decreases text@.len() - i,
    {
        let b: u8 = text[i];
        let folded: u8 = if 0x61 <= b && b <= 0x7a {
            b - 0x20
        } else {
            b
        };
        out.push(folded);
        i += 1;
        assert(out@ =~= upper_text(text@.take(i as int)));
    }
    assert(text@.take(i as int) =~= text@);
    out
}

/// Text written in the symbols of the base32 alphabet alone, in either case.
pub open spec fn in_alphabet(text: Seq<u8>) -> bool {
    forall|i: int| 0 <= i < text.len() ==> is_base32_symbol(upper(#[trigger] text[i]))
}

/// Decodes the text of a key into the secret. On failure the error is the
/// decoder's message. Text that holds anything but base32 symbols fails.
pub fn base32_plugin(code: String) -> (r: Result<Vec<u8>, String>)
    ensures
        match r {
            Ok(secret) => secret_of(encode_utf8(code@)) == Some(secret@),
            Err(_) => secret_of(encode_utf8(code@)) is None,
        },
        r is Ok ==> in_alphabet(encode_utf8(code@)),
{
    let text: &[u8] = code.as_str().as_bytes();
    if text.len() > usize::MAX / 8 {
        return Err(String::from_str("Invalid length"));
    }
    let folded: Vec<u8> = to_upper(text);
    match decode_base32_nopad(folded.as_slice()) {
        Ok(secret) => {
            assert forall|i: int| 0 <= i < text@.len() implies is_base32_symbol(
                upper(#[trigger] text@[i]),
            ) by {
                assert(folded@[i] == upper(text@[i]));
            }
            Ok(secret)
        },
        Err(err) => Err(decode_error_text(&err)),
    }
}

} // verus!

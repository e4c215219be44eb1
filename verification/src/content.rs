//! What was read of a file.
use crate::detect;
use crate::outside;
use crate::policy::DEFAULT_MAX_TEXT_FILE_BYTES;
use vstd::prelude::*;

verus! {

/// What was read of a file.
#[derive(Debug)]
pub struct FileRead {
    /// The length that the file system reports; none where it reports none.
    pub reported_len: Option<u64>,
    /// The bytes of the file; none where they were not or could not be read.
    pub bytes: Option<Vec<u8>>,
    /// For every line whether the entropy of its suspect value is high.
    pub high_entropy: Vec<bool>,
}

/// Why the text of a file is not to be had.
#[derive(Debug, Clone, Copy, PartialEq, Eq, Structural)]
pub enum ReadFault {
    /// The file could not be read.
    Unreadable,
    /// The file has more bytes than are read.
    OverCap,
}

/// The text of a file of at most `max_bytes` bytes: a longer one is a fault.
pub open spec fn limited_text(read: FileRead, max_bytes: u64) -> Result<Seq<char>, ReadFault> {
    match read.reported_len {
        None => Err(ReadFault::Unreadable),
        Some(len) => if len > max_bytes {
            Err(ReadFault::OverCap)
        } else {
            match read.bytes {
                None => Err(ReadFault::Unreadable),
                Some(found) => if found@.len() > max_bytes {
                    Err(ReadFault::OverCap)
                } else {
                    Ok(outside::decoded(found@))
                },
            }
        },
    }
}

/// The text of a file that the file system reports to have at most `max_bytes` bytes and that
/// holds no zero byte: of any other file there is none, and that is no fault.
pub open spec fn small_text(read: FileRead, max_bytes: u64) -> Result<
    Option<Seq<char>>,
    ReadFault,
> {
    match read.reported_len {
        None => Err(ReadFault::Unreadable),
        Some(len) => if len > max_bytes {
            Ok(None)
        } else {
            match read.bytes {
                None => Err(ReadFault::Unreadable),
                Some(found) => if found@.contains(0u8) {
                    Ok(None)
                } else {
                    Ok(Some(outside::decoded(found@)))
                },
            }
        },
    }
}

/// The outcome of a read as values.
pub open spec fn text_outcome(r: Result<String, ReadFault>) -> Result<Seq<char>, ReadFault> {
    match r {
        Ok(text) => Ok(text@),
        Err(fault) => Err(fault),
    }
}

/// The outcome of an optional read as values.
pub open spec fn option_outcome(r: Result<Option<String>, ReadFault>) -> Result<
    Option<Seq<char>>,
    ReadFault,
> {
    match r {
        Ok(Some(text)) => Ok(Some(text@)),
        Ok(None) => Ok(None),
        Err(fault) => Err(fault),
    }
}

/// Tests whether `bytes` are more than `max_bytes`.
fn exceeds(bytes: &[u8], max_bytes: u64) -> (r: bool)
    ensures
        r == (bytes@.len() > max_bytes),
{
    bytes.len() as u64 > max_bytes
}

/// Tests whether one of `bytes` is zero.
pub fn has_zero_byte(bytes: &[u8]) -> (r: bool)
    ensures
        r == bytes@.contains(0u8),
{
    let mut i: usize = 0;
    while i < bytes.len()
        invariant
            i <= bytes@.len(),
            forall|k: int| 0 <= k < i ==> bytes@[k] != 0u8,
        decreases bytes@.len() - i,
    {
        if bytes[i] == 0 {
            return true;
        }
        i = i + 1;
    }
    false
}

/// The text of a file of at most `max_bytes` bytes.
pub fn read_text_limited_with_cap(read: &FileRead, max_bytes: u64) -> (r: Result<
    String,
    ReadFault,
>)
    ensures
        text_outcome(r) == limited_text(*read, max_bytes),
        r matches Ok(body) ==> (read.bytes matches Some(found) ==> (vstd::utf8::valid_utf8(found@)
            ==> vstd::utf8::encode_utf8(body@) == found@)),
{
    match read.reported_len {
        None => Err(ReadFault::Unreadable),
        Some(len) => if len > max_bytes {
            Err(ReadFault::OverCap)
        } else {
            match &read.bytes {
                None => Err(ReadFault::Unreadable),
                Some(found) => if exceeds(found, max_bytes) {
                    Err(ReadFault::OverCap)
                } else {
                    Ok(outside::decode(found))
                },
            }
        },
    }
}

/// The text of a file of at most [`DEFAULT_MAX_TEXT_FILE_BYTES`] bytes.
pub fn read_text_limited(read: &FileRead) -> (r: Result<String, ReadFault>)
    ensures
        text_outcome(r) == limited_text(*read, DEFAULT_MAX_TEXT_FILE_BYTES),
        r matches Ok(body) ==> (read.bytes matches Some(found) ==> (vstd::utf8::valid_utf8(found@)
            ==> vstd::utf8::encode_utf8(body@) == found@)),
{
    read_text_limited_with_cap(read, DEFAULT_MAX_TEXT_FILE_BYTES)
}

/// The text of a file that the file system reports to have at most `max_bytes` bytes and that
/// holds no zero byte.
pub fn read_text_if_small(read: &FileRead, max_bytes: u64) -> (r: Result<
    Option<String>,
    ReadFault,
>)
    ensures
        option_outcome(r) == small_text(*read, max_bytes),
        r matches Ok(Some(body)) ==> (read.bytes matches Some(found) ==> (vstd::utf8::valid_utf8(found@)
            ==> vstd::utf8::encode_utf8(body@) == found@)),
{
    match read.reported_len {
        None => Err(ReadFault::Unreadable),
        Some(len) => if len > max_bytes {
            Ok(None)
        } else {
            match &read.bytes {
                None => Err(ReadFault::Unreadable),
                Some(found) => if has_zero_byte(found) {
                    Ok(None)
                } else {
                    Ok(Some(outside::decode(found)))
                },
            }
        },
    }
}

/// For every line of the text that the detectors look at the value whose entropy decides whether
/// it is a secret; none where there is no such text.
pub open spec fn undecided_values(read: FileRead, max_bytes: u64) -> Seq<Option<Seq<char>>> {
    match small_text(read, max_bytes) {
        Ok(Some(body)) => detect::suspect_values(body),
        _ => Seq::empty(),
    }
}

/// For every line of the text that the detectors look at the value whose entropy decides whether
/// it is a secret: [`FileRead::high_entropy`] holds the answers.
pub fn suspect_values_of(read: &FileRead, max_bytes: u64) -> (r: Vec<Option<String>>)
    ensures
        detect::option_texts(r@) == undecided_values(*read, max_bytes),
{
    match read_text_if_small(read, max_bytes) {
        Ok(Some(body)) => detect::find_suspect_values(body.as_str()),
        _ => {
            let r: Vec<Option<String>> = Vec::new();
            assert(detect::option_texts(r@) =~= Seq::empty());
            r
        },
    }
}

} // verus!

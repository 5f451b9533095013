//! The guest's memory, as the host reads and fills it on each call of the guest.
//!
//! The guest hands the host the address of a record of four 32-bit words: where
//! and how large its input buffer is, and where and how long the request is that
//! it wrote. Every address is an offset into the guest's memory and is checked
//! against the size of that memory before anything is read or written.

use vstd::prelude::*;
use vstd::slice::slice_subrange;
use vstd::string::StringSliceAdditionalSpecFns;
use vstd::utf8::{decode_utf8, valid_utf8};
use crate::session::Config;
use crate::text::{first_word, le_word, text_of};
use crate::wire::agrees;

verus! {

/// The size of the input buffer that a guest is started with by default.
pub const DEFAULT_INPUT_CAP: u32 = 16384;

/// Why a call of the guest could not be served.
#[derive(Debug, Clone, Copy, PartialEq, Eq, Hash, Structural)]
pub enum AdapterError {
    /// An address and a length reach beyond the guest's memory.
    OutOfBounds,
    /// The bytes are not UTF-8.
    NotText,
    /// The reply is longer than the input buffer that the guest offered.
    ReplyTooLong,
}

/// The record that the guest passes on each call.
#[derive(Debug, Clone, Copy, PartialEq, Eq, Hash, Structural)]
pub struct IoParams {
    /// Where the host is to write its reply.
    pub input_ptr: u32,
    /// How many bytes the reply may have.
    pub input_cap: u32,
    /// Where the guest wrote its request.
    pub output_ptr: u32,
    /// How many bytes the request has.
    pub output_len: u32,
}

/// Whether `len` bytes from `ptr` on lie within a memory of `size` bytes.
pub open spec fn in_bounds(size: nat, ptr: u32, len: u32) -> bool {
    ptr + len <= size
}

/// The word that `memory` holds at `at`.
pub open spec fn word_at(memory: Seq<u8>, at: int) -> int {
    le_word(memory.subrange(at, at + 4))
}

impl IoParams {
    /// The record of these four words.
    pub fn new(input_ptr: u32, input_cap: u32, output_ptr: u32, output_len: u32) -> (params: IoParams)
        ensures
            params == (IoParams { input_ptr, input_cap, output_ptr, output_len }),
    {
        IoParams { input_ptr, input_cap, output_ptr, output_len }
    }

    /// Reads the record that the guest left at `params_ptr`: four words, each
    /// with its lowest byte first, in the order of the fields.
    ///
    /// Fails with `OutOfBounds` exactly when the sixteen bytes do not lie within
    /// the memory.
    pub fn read(memory: &[u8], params_ptr: u32) -> (params: Result<IoParams, AdapterError>)
        ensures
            match params {
                Ok(p) => {
                    &&& in_bounds(memory@.len(), params_ptr, 16)
                    &&& p.input_ptr == word_at(memory@, params_ptr as int)
                    &&& p.input_cap == word_at(memory@, params_ptr + 4)
                    &&& p.output_ptr == word_at(memory@, params_ptr + 8)
                    &&& p.output_len == word_at(memory@, params_ptr + 12)
                },
                Err(e) => e == AdapterError::OutOfBounds && !in_bounds(memory@.len(), params_ptr, 16),
            },
    {
        let at = params_ptr as usize;
        if memory.len() < 16 || at > memory.len() - 16 {
            return Err(AdapterError::OutOfBounds);
        }
        let input_ptr = first_word(slice_subrange(memory, at, at + 4));
        let input_cap = first_word(slice_subrange(memory, at + 4, at + 8));
        let output_ptr = first_word(slice_subrange(memory, at + 8, at + 12));
        let output_len = first_word(slice_subrange(memory, at + 12, at + 16));
        Ok(IoParams { input_ptr, input_cap, output_ptr, output_len })
    }

    /// Reads the request that the guest wrote.
    ///
    /// Fails with `OutOfBounds` when the request does not lie within the memory,
    /// and with `NotText` when it does but is not UTF-8.
    pub fn request<'a>(&self, memory: &'a [u8]) -> (text: Result<&'a str, AdapterError>)
        ensures
            agrees(text, guest_text(memory@, self.output_ptr, self.output_len)),
    {
        read_text(memory, self.output_ptr, self.output_len)
    }

    /// Says where a reply goes: `len` bytes at the start of the guest's input
    /// buffer, `len` being the length of the reply in bytes. The result is `len`,
    /// which is also what the guest's call returns.
    ///
    /// Fails with `ReplyTooLong` when the reply is longer than the buffer that
    /// the guest offered, and with `OutOfBounds` when it is not but would not
    /// lie within the memory. Nothing is to be written then.
    pub fn place(&self, memory_len: usize, reply: &str) -> (len: Result<u32, AdapterError>)
        ensures
            len == placement(memory_len as nat, *self, reply.spec_bytes().len()),
    {
        let n = reply.as_bytes().len();
        if n > self.input_cap as usize {
            return Err(AdapterError::ReplyTooLong);
        }
        let at = self.input_ptr as usize;
        if at > memory_len || n > memory_len - at {
            return Err(AdapterError::OutOfBounds);
        }
        Ok(n as u32)
    }
}

/// Where a reply of `len` bytes goes in a memory of `size` bytes.
pub open spec fn placement(size: nat, params: IoParams, len: nat) -> Result<u32, AdapterError> {
    if len > params.input_cap {
        Err(AdapterError::ReplyTooLong)
    } else if params.input_ptr + len > size {
        Err(AdapterError::OutOfBounds)
    } else {
        Ok(len as u32)
    }
}

/// The text that the guest's memory holds in `len` bytes from `ptr` on.
pub open spec fn guest_text(memory: Seq<u8>, ptr: u32, len: u32) -> Result<Seq<char>, AdapterError> {
    if !in_bounds(memory.len(), ptr, len) {
        Err(AdapterError::OutOfBounds)
    } else if !valid_utf8(memory.subrange(ptr as int, ptr + len)) {
        Err(AdapterError::NotText)
    } else {
        Ok(decode_utf8(memory.subrange(ptr as int, ptr + len)))
    }
}

/// Reads text from the guest's memory: `len` bytes from `ptr` on.
///
/// Fails with `OutOfBounds` when they do not lie within the memory, and with
/// `NotText` when they do but are not UTF-8.
pub fn read_text<'a>(memory: &'a [u8], ptr: u32, len: u32) -> (text: Result<&'a str, AdapterError>)
    ensures
        agrees(text, guest_text(memory@, ptr, len)),
{
    let at = ptr as usize;
    let n = len as usize;
    if at > memory.len() || n > memory.len() - at {
        return Err(AdapterError::OutOfBounds);
    }
    match text_of(slice_subrange(memory, at, at + n)) {
        None => Err(AdapterError::NotText),
        Some(text) => Ok(text),
    }
}

/// Reads a log line of the guest. With logging switched off the line is not
/// looked at and the result is `Ok(None)`.
pub fn read_log<'a>(conf: &Config, memory: &'a [u8], msg_ptr: u32, msg_len: u32) -> (line: Result<
    Option<&'a str>,
    AdapterError,
>)
    ensures
        match line {
            Ok(None) => !conf.enable_logging,
            Ok(Some(text)) => conf.enable_logging && guest_text(memory@, msg_ptr, msg_len) == Ok::<
                Seq<char>,
                AdapterError,
            >(text@),
            Err(e) => conf.enable_logging && guest_text(memory@, msg_ptr, msg_len) == Err::<
                Seq<char>,
                AdapterError,
            >(e),
        },
{
    if !conf.enable_logging {
        return Ok(None);
    }
    match read_text(memory, msg_ptr, msg_len) {
        Err(e) => Err(e),
        Ok(text) => Ok(Some(text)),
    }
}

} // verus!

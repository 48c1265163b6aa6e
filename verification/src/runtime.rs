//! Access to a running game process, as the offset discovery and the player
//! readers need it, and the errors of that work.
//!
//! `HeadlessRuntime` is implemented by the program that attaches to the
//! process; everything built on it here is verified for whatever its reads
//! return.
use vstd::prelude::*;

use crate::module_scan::{pattern_found_at, relative_target};
use crate::pattern::pattern_tokens;
use crate::client::MemReaderModuleInfo;
use crate::text::{c_string_from_bytes, c_string_text};
use crate::wire::{le_u16_at, le_u32_at, le_u64_at, read_i16_le, read_i32_le, read_u32_le, read_u64_le};

verus! {

/// Why discovering offsets or reading players failed.
#[derive(Debug, Clone, PartialEq, Eq)]
pub enum HeadlessError {
    /// The runtime could not do what was asked of it.
    Runtime { message: String },
    /// `base + offset` does not fit in an address.
    AddressOverflow { context: &'static str, base: usize, offset: usize },
    /// `index * stride` does not fit in an address.
    MultiplicationOverflow { context: &'static str, index: usize, stride: usize },
    /// A subtraction went below zero.
    AddressUnderflow { context: &'static str },
    /// A signed address computation left the range of `i64`.
    SignedOverflow { context: &'static str },
    /// A built-in byte pattern did not parse.
    InvalidPattern,
    /// A string was to be read with a maximal length of zero.
    ZeroMaxLen,
    /// A byte pattern did not occur where it must.
    PatternNotFound { context: &'static str },
    /// A pattern or the code at a match is too short to decode.
    Truncated { context: &'static str },
    /// Something the schema or an image must hold was missing.
    Missing { context: &'static str },
    /// An image on disk could not be parsed.
    ImageParse,
    /// A file offset of an image does not fit in 64 bits.
    ImageOffsetOverflow,
}

/// `base + offset`, or the overflow error naming `context`.
pub fn checked_addr(base: usize, offset: usize, context: &'static str) -> (r: Result<
    usize,
    HeadlessError,
>)
    ensures
        base + offset <= usize::MAX ==> r == Ok::<usize, HeadlessError>((base + offset) as usize),
        base + offset > usize::MAX ==> r == Err::<usize, HeadlessError>(
            HeadlessError::AddressOverflow { context, base, offset },
        ),
{
    match base.checked_add(offset) {
        Some(address) => Ok(address),
        None => Err(HeadlessError::AddressOverflow { context, base, offset }),
    }
}

/// `index * stride`, or the overflow error naming `context`.
pub fn checked_mul(index: usize, stride: usize, context: &'static str) -> (r: Result<
    usize,
    HeadlessError,
>)
    ensures
        index * stride <= usize::MAX ==> r == Ok::<usize, HeadlessError>((index * stride) as usize),
        index * stride > usize::MAX ==> r == Err::<usize, HeadlessError>(
            HeadlessError::MultiplicationOverflow { context, index, stride },
        ),
{
    match index.checked_mul(stride) {
        Some(product) => Ok(product),
        None => Err(HeadlessError::MultiplicationOverflow { context, index, stride }),
    }
}

/// A module of the process as it is mapped: the path of its file and the span
/// of addresses it occupies.
#[derive(Debug, Clone, PartialEq, Eq)]
pub struct ModuleImage {
    pub path: String,
    pub image_base: usize,
    pub image_end: usize,
}

/// The `len` bytes of `memory` from `address` on.
pub open spec fn mem_bytes(memory: spec_fn(int) -> u8, address: int, len: nat) -> Seq<u8> {
    Seq::new(len, |i: int| memory(address + i))
}

/// The little-endian `u64` at `address`.
pub open spec fn mem_u64(memory: spec_fn(int) -> u8, address: int) -> u64 {
    le_u64_at(mem_bytes(memory, address, 8), 0)
}

/// The little-endian `u32` at `address`.
pub open spec fn mem_u32(memory: spec_fn(int) -> u8, address: int) -> u32 {
    le_u32_at(mem_bytes(memory, address, 4), 0)
}

/// The little-endian `u16` at `address`.
pub open spec fn mem_u16(memory: spec_fn(int) -> u8, address: int) -> u16 {
    le_u16_at(mem_bytes(memory, address, 2), 0)
}

/// The `n` little-endian `u32` (or `f32` bits) from `address` on.
pub open spec fn bits_at(memory: spec_fn(int) -> u8, address: int, n: nat) -> Seq<u32> {
    Seq::new(n, |i: int| mem_u32(memory, address + 4 * i))
}

/// The NUL-terminated text in the `max_len` bytes at `address`.
pub open spec fn c_string_at(memory: spec_fn(int) -> u8, address: int, max_len: nat) -> Seq<char> {
    c_string_text(mem_bytes(memory, address, max_len))
}

/// What the offset discovery needs of an attached process.
///
/// `memory` is the process's memory as the runtime reads it: a read that
/// succeeds gives its bytes, and no call of the runtime changes it.
/// `readable` says which reads succeed, `mappings` what the process has
/// mapped and `module_file` the files of its modules; no call changes them
/// either.
/// A runtime that reads a live game meets this only while the game holds
/// still: what is proved here is proved of a snapshot of the process.
pub trait HeadlessRuntime {
    /// The process's memory as this runtime reads it, byte by byte.
    ///
    /// The library only works on a runtime given as a type parameter, where
    /// this stays abstract: what is proved of it holds whatever memory the
    /// runtime reads. The body, memory of zeros, binds only a verified
    /// implementation that keeps it; one that reads a real process gives
    /// its own.
    closed spec fn memory(&self) -> spec_fn(int) -> u8 {
        |address: int| 0u8
    }

    /// Whether a read of `len` bytes at an address succeeds. The body,
    /// every read succeeding, binds only a verified implementation that
    /// keeps it.
    closed spec fn readable(&self) -> spec_fn(int, nat) -> bool {
        |address: int, len: nat| true
    }

    /// The process's memory mappings, as the kernel lists them. The body, no
    /// mappings, binds only a verified implementation that keeps it.
    closed spec fn mappings(&self) -> Seq<MemReaderModuleInfo> {
        Seq::<MemReaderModuleInfo>::empty()
    }

    /// The file on disk of the module with a path suffix. The body, empty
    /// files, binds only a verified implementation that keeps it.
    closed spec fn module_file(&self) -> spec_fn(Seq<char>) -> Seq<u8> {
        |suffix: Seq<char>| Seq::<u8>::empty()
    }

    /// The process id of the attached process.
    fn pid(&self) -> u32;

    /// The mapped image of the module whose path ends with `suffix`.
    fn module_image(&self, suffix: &str) -> Result<ModuleImage, HeadlessError>;

    /// The file on disk of the module whose path ends with `suffix`; a file
    /// that cannot be had is a `Runtime` error.
    fn read_module_file(&self, suffix: &str) -> (r: Result<Vec<u8>, HeadlessError>)
        ensures
            r matches Ok(bytes) ==> bytes@ == self.module_file()(suffix@),
            r matches Err(e) ==> e is Runtime,
    ;

    /// The address of the first place in the module's memory where the byte
    /// pattern occurs, if any: the pattern occurs in memory there.
    fn scan_module_memory_pattern(&mut self, module_suffix: &str, pattern: &str) -> (r: Result<
        Option<usize>,
        HeadlessError,
    >)
        ensures
            final(self).memory() == old(self).memory(),
            final(self).readable() == old(self).readable(),
            final(self).mappings() == old(self).mappings(),
            final(self).module_file() == old(self).module_file(),
            r matches Ok(Some(address)) ==> pattern_tokens(pattern@) matches Some(tokens) && pattern_found_at(
                old(self).memory(),
                tokens,
                address as int,
            ),
    ;

    /// The target of the RIP-relative operand of the instruction at
    /// `instruction`: the address after the instruction plus the `i32`
    /// displacement read `displacement_offset` bytes into it, as
    /// `module_scan::read_relative_address` computes it.
    fn read_relative_address(
        &mut self,
        instruction: usize,
        displacement_offset: usize,
        instruction_size: usize,
    ) -> (r: Result<usize, HeadlessError>)
        ensures
            final(self).memory() == old(self).memory(),
            final(self).readable() == old(self).readable(),
            final(self).mappings() == old(self).mappings(),
            final(self).module_file() == old(self).module_file(),
            r is Ok ==> r == relative_target(
                instruction,
                instruction_size,
                mem_u32(old(self).memory(), instruction + displacement_offset) as i32,
            ),
    ;

    /// Fills `buf` with the process's bytes at `address`.
    fn read_exact_at(&mut self, address: usize, buf: &mut [u8]) -> (r: Result<(), HeadlessError>)
        ensures
            final(buf)@.len() == old(buf)@.len(),
            final(self).memory() == old(self).memory(),
            final(self).readable() == old(self).readable(),
            final(self).mappings() == old(self).mappings(),
            final(self).module_file() == old(self).module_file(),
            r is Ok ==> final(buf)@ == mem_bytes(old(self).memory(), address as int, old(buf)@.len()),
            r is Ok <==> old(self).readable()(address as int, old(buf)@.len()),
    ;

    /// The little-endian `u64` at `address`.
    fn read_u64(&mut self, address: usize) -> (r: Result<u64, HeadlessError>)
        ensures
            final(self).memory() == old(self).memory(),
            final(self).readable() == old(self).readable(),
            final(self).mappings() == old(self).mappings(),
            final(self).module_file() == old(self).module_file(),
            r is Ok <==> old(self).readable()(address as int, 8),
            r matches Ok(v) ==> v == mem_u64(old(self).memory(), address as int),
    {
        let mut buf: Vec<u8> = vec![0u8; 8];
        self.read_exact_at(address, buf.as_mut_slice())?;
        Ok(read_u64_le(buf.as_slice(), 0))
    }

    /// The little-endian `i32` at `address`.
    fn read_i32(&mut self, address: usize) -> (r: Result<i32, HeadlessError>)
        ensures
            final(self).memory() == old(self).memory(),
            final(self).readable() == old(self).readable(),
            final(self).mappings() == old(self).mappings(),
            final(self).module_file() == old(self).module_file(),
            r is Ok <==> old(self).readable()(address as int, 4),
            r matches Ok(v) ==> v == mem_u32(old(self).memory(), address as int) as i32,
    {
        let mut buf: Vec<u8> = vec![0u8; 4];
        self.read_exact_at(address, buf.as_mut_slice())?;
        Ok(read_i32_le(buf.as_slice(), 0))
    }

    /// The little-endian `i16` at `address`.
    fn read_i16(&mut self, address: usize) -> (r: Result<i16, HeadlessError>)
        ensures
            final(self).memory() == old(self).memory(),
            final(self).readable() == old(self).readable(),
            final(self).mappings() == old(self).mappings(),
            final(self).module_file() == old(self).module_file(),
            r is Ok <==> old(self).readable()(address as int, 2),
            r matches Ok(v) ==> v == mem_u16(old(self).memory(), address as int) as i16,
    {
        let mut buf: Vec<u8> = vec![0u8; 2];
        self.read_exact_at(address, buf.as_mut_slice())?;
        Ok(read_i16_le(buf.as_slice(), 0))
    }

    /// The little-endian `u32` at `address`.
    fn read_u32(&mut self, address: usize) -> (r: Result<u32, HeadlessError>)
        ensures
            final(self).memory() == old(self).memory(),
            final(self).readable() == old(self).readable(),
            final(self).mappings() == old(self).mappings(),
            final(self).module_file() == old(self).module_file(),
            r is Ok <==> old(self).readable()(address as int, 4),
            r matches Ok(v) ==> v == mem_u32(old(self).memory(), address as int),
    {
        let mut buf: Vec<u8> = vec![0u8; 4];
        self.read_exact_at(address, buf.as_mut_slice())?;
        Ok(read_u32_le(buf.as_slice(), 0))
    }

    /// The byte at `address`.
    fn read_u8(&mut self, address: usize) -> (r: Result<u8, HeadlessError>)
        ensures
            final(self).memory() == old(self).memory(),
            final(self).readable() == old(self).readable(),
            final(self).mappings() == old(self).mappings(),
            final(self).module_file() == old(self).module_file(),
            r is Ok <==> old(self).readable()(address as int, 1),
            r matches Ok(v) ==> v == old(self).memory()(address as int),
    {
        let mut buf: Vec<u8> = vec![0u8; 1];
        self.read_exact_at(address, buf.as_mut_slice())?;
        Ok(buf[0])
    }

    /// The bits of the little-endian `f32` at `address`.
    fn read_f32_bits(&mut self, address: usize) -> (r: Result<u32, HeadlessError>)
        ensures
            final(self).memory() == old(self).memory(),
            final(self).readable() == old(self).readable(),
            final(self).mappings() == old(self).mappings(),
            final(self).module_file() == old(self).module_file(),
            r is Ok <==> old(self).readable()(address as int, 4),
            r matches Ok(v) ==> v == mem_u32(old(self).memory(), address as int),
    {
        let mut buf: Vec<u8> = vec![0u8; 4];
        self.read_exact_at(address, buf.as_mut_slice())?;
        Ok(read_u32_le(buf.as_slice(), 0))
    }

    /// `count` bytes at `address`.
    fn read_bytes(&mut self, address: usize, count: usize) -> (r: Result<Vec<u8>, HeadlessError>)
        ensures
            final(self).memory() == old(self).memory(),
            final(self).readable() == old(self).readable(),
            final(self).mappings() == old(self).mappings(),
            final(self).module_file() == old(self).module_file(),
            r is Ok <==> old(self).readable()(address as int, count as nat),
            r matches Ok(bytes) ==> bytes@ == mem_bytes(old(self).memory(), address as int, count as nat),
    {
        let mut buf: Vec<u8> = vec![0u8; count];
        self.read_exact_at(address, buf.as_mut_slice())?;
        Ok(buf)
    }

    /// The NUL-terminated text in the `max_len` bytes at `address`.
    fn read_c_string(&mut self, address: usize, max_len: usize) -> (r: Result<String, HeadlessError>)
        ensures
            final(self).memory() == old(self).memory(),
            final(self).readable() == old(self).readable(),
            final(self).mappings() == old(self).mappings(),
            final(self).module_file() == old(self).module_file(),
            r is Ok <==> max_len > 0 && old(self).readable()(address as int, max_len as nat),
            max_len == 0 ==> r == Err::<String, HeadlessError>(HeadlessError::ZeroMaxLen),
            r matches Ok(s) ==> s@ == c_string_text(mem_bytes(old(self).memory(), address as int, max_len as nat)),
    {
        if max_len == 0 {
            return Err(HeadlessError::ZeroMaxLen);
        }
        let bytes = self.read_bytes(address, max_len)?;
        let text = c_string_from_bytes(bytes.as_slice());
        
        Ok(text)
    }
}

} // verus!

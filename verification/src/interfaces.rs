//! A module's interface registry: finding the registry list through the
//! code that loads it, and the instance an interface's factory returns.
//!
//! The factories and the list head are found in the module's file on disk and
//! carried over to the running process through the module's mapped image.
use vstd::prelude::*;

use crate::client::MemReaderModuleInfo;
use crate::elf::{
    file_offset_for_virtual_addr, file_offset_outcome, find_symbol_virtual_addr, first_named, object_symbols,
    ElfError,
};
use crate::pattern::{find_first_match, first_match, parse_pattern, pattern_tokens, PatternToken};
use crate::runtime::{c_string_at, checked_addr, mem_u64, HeadlessError, HeadlessRuntime, ModuleImage};
use crate::text::{c_string_text, chars_of, has_prefix, has_suffix};
use crate::wire::{le_u32_at, read_u32_le};

verus! {

// ---------------------------------------------------------------------------
// The mapped image of a module
// ---------------------------------------------------------------------------

/// Whether `text` ends with `suffix`.
pub fn ends_with(text: &str, suffix: &str) -> (r: bool)
    ensures
        r == has_suffix(text@, suffix@),
{
    let t = chars_of(text);
    let s = chars_of(suffix);
    if s.len() > t.len() {
        return false;
    }
    let _t_len = t.len();
    let shift = t.len() - s.len();
    let mut i: usize = 0;
    while i < s.len()
        invariant
            i <= s@.len(),
            t@ == text@,
            s@ == suffix@,
            shift + s@.len() == t@.len(),
            t@.len() <= usize::MAX,
            forall|j: int| 0 <= j < i ==> t@[shift + j] == s@[j],
        decreases s.len() - i,
    {
        if t[shift + i] != s[i] {
            assert(t@.subrange(shift as int, t@.len() as int)[i as int] != s@[i as int]);
            return false;
        }
        i = i + 1;
    }
    assert(t@.subrange(shift as int, t@.len() as int) =~= s@);
    true
}

/// The mapping at `i` belongs to the module: its path ends with `suffix`.
pub open spec fn selected(modules: Seq<MemReaderModuleInfo>, suffix: Seq<char>, i: int) -> bool {
    0 <= i < modules.len() && has_suffix(modules[i].path@, suffix)
}

/// Some mapping of the module maps the start of its file.
pub open spec fn maps_file_start(modules: Seq<MemReaderModuleInfo>, suffix: Seq<char>) -> bool {
    exists|i: int| #[trigger] selected(modules, suffix, i) && modules[i].file_offset == 0
}

/// The image of the module whose mappings' paths end with `suffix`: the path
/// of its lowest mapping, as base the lowest mapping of the file's start (the
/// lowest mapping where none maps the start), and as end the highest end.
/// `None` where no mapping belongs to the module.
pub fn module_image(modules: &[MemReaderModuleInfo], suffix: &str) -> (r: Option<ModuleImage>)
    ensures
        r is None <==> forall|i: int| !#[trigger] selected(modules@, suffix@, i),
        r matches Some(image) ==> {
            &&& exists|i: int|
                #[trigger] selected(modules@, suffix@, i) && image.path@ == modules@[i].path@
                    && forall|j: int|
                    #[trigger] selected(modules@, suffix@, j) ==> modules@[i].base <= modules@[j].base
            &&& exists|i: int| #[trigger] selected(modules@, suffix@, i) && image.image_end == modules@[i].end
            &&& forall|j: int| #[trigger] selected(modules@, suffix@, j) ==> modules@[j].end <= image.image_end
            &&& maps_file_start(modules@, suffix@) ==> {
                &&& exists|i: int|
                    #[trigger] selected(modules@, suffix@, i) && modules@[i].file_offset == 0
                        && image.image_base == modules@[i].base
                &&& forall|j: int|
                    #[trigger] selected(modules@, suffix@, j) && modules@[j].file_offset == 0
                        ==> image.image_base <= modules@[j].base
            }
            &&& !maps_file_start(modules@, suffix@) ==> {
                &&& exists|i: int|
                    #[trigger] selected(modules@, suffix@, i) && image.image_base == modules@[i].base
                &&& forall|j: int|
                    #[trigger] selected(modules@, suffix@, j) ==> image.image_base <= modules@[j].base
            }
        },
{
    let mut lowest: Option<usize> = None;
    let mut lowest_start: Option<usize> = None;
    let mut highest_end: Option<usize> = None;
    let mut i: usize = 0;
    while i < modules.len()
        invariant
            i <= modules@.len(),
            lowest is None <==> forall|j: int| 0 <= j < i ==> !#[trigger] selected(modules@, suffix@, j),
            lowest is None <==> highest_end is None,
            lowest matches Some(l) ==> {
                &&& l < i
                &&& selected(modules@, suffix@, l as int)
                &&& forall|j: int|
                    0 <= j < i && #[trigger] selected(modules@, suffix@, j) ==> modules@[l as int].base
                        <= modules@[j].base
            },
            highest_end matches Some(h) ==> {
                &&& h < i
                &&& selected(modules@, suffix@, h as int)
                &&& forall|j: int|
                    0 <= j < i && #[trigger] selected(modules@, suffix@, j) ==> modules@[j].end
                        <= modules@[h as int].end
            },
            lowest_start is None <==> forall|j: int|
                0 <= j < i && #[trigger] selected(modules@, suffix@, j) ==> modules@[j].file_offset
                    != 0,
            lowest_start matches Some(z) ==> {
                &&& z < i
                &&& selected(modules@, suffix@, z as int)
                &&& modules@[z as int].file_offset == 0
                &&& forall|j: int|
                    0 <= j < i && #[trigger] selected(modules@, suffix@, j) && modules@[j].file_offset
                        == 0 ==> modules@[z as int].base <= modules@[j].base
            },
        decreases modules.len() - i,
    {
        let module = &modules[i];
        if ends_with(module.path.as_str(), suffix) {
            assert(selected(modules@, suffix@, i as int));
            match lowest {
                Some(l) => {
                    if module.base < modules[l].base {
                        lowest = Some(i);
                    }
                },
                None => {
                    lowest = Some(i);
                },
            }
            match highest_end {
                Some(h) => {
                    if module.end > modules[h].end {
                        highest_end = Some(i);
                    }
                },
                None => {
                    highest_end = Some(i);
                },
            }
            if module.file_offset == 0 {
                match lowest_start {
                    Some(z) => {
                        if module.base < modules[z].base {
                            lowest_start = Some(i);
                        }
                    },
                    None => {
                        lowest_start = Some(i);
                    },
                }
            }
        } else {
            assert(!selected(modules@, suffix@, i as int));
        }
        i = i + 1;
    }
    match (lowest, highest_end) {
        (Some(l), Some(h)) => {
            let image_base = match lowest_start {
                Some(z) => modules[z].base,
                None => modules[l].base,
            };
            proof {
                if maps_file_start(modules@, suffix@) {
                    let w = choose|w: int| #[trigger] selected(modules@, suffix@, w) && modules@[w].file_offset == 0;
                    assert(0 <= w < i);
                }
            }
            Some(ModuleImage { path: modules[l].path.clone(), image_base, image_end: modules[h].end })
        },
        _ => None,
    }
}

// ---------------------------------------------------------------------------
// RIP-relative operands
// ---------------------------------------------------------------------------

/// The message of a match too short to hold a RIP displacement.
pub const RIP_TOO_SHORT: &'static str = "pattern match too short to decode RIP displacement";
/// The message of a RIP target whose computation overflows.
pub const RIP_OVERFLOW: &'static str = "RIP target virtual offset overflow";

/// The displacement of the 7-byte `mov reg, [rip + disp32]` at the start of
/// `code`.
pub open spec fn rip_displacement(code: Seq<u8>) -> i32 {
    le_u32_at(code, 3) as i32
}

/// The target, before it is cast back to an address, of the instruction at
/// `code` that lies at `offset`.
pub open spec fn rip_sum(offset: usize, code: Seq<u8>) -> int {
    ((offset + 7) as usize as i64) + rip_displacement(code)
}

/// The target of the instruction can be computed without a signed overflow.
pub open spec fn rip_target_fits(offset: usize, code: Seq<u8>) -> bool {
    code.len() >= 7 && offset + 7 <= usize::MAX ==> i64::MIN <= rip_sum(offset, code) <= i64::MAX
}

/// The address that the RIP-relative instruction at the start of `code`, lying
/// at `offset`, refers to.
pub open spec fn rip_target(offset: usize, code: Seq<u8>) -> Result<usize, HeadlessError> {
    if code.len() < 7 {
        Err(HeadlessError::Truncated { context: RIP_TOO_SHORT })
    } else if offset + 7 > usize::MAX {
        Err(HeadlessError::AddressOverflow { context: RIP_OVERFLOW, base: offset, offset: 7 })
    } else {
        Ok(rip_sum(offset, code) as i64 as usize)
    }
}

/// The message of a RIP target outside the range of `i64`.
pub const RIP_SIGNED_OVERFLOW: &'static str = "RIP target leaves the signed address range";

/// `rip_target`, or the overflow error where the target does not fit.
pub open spec fn checked_rip_target(offset: usize, code: Seq<u8>) -> Result<usize, HeadlessError> {
    if rip_target_fits(offset, code) {
        rip_target(offset, code)
    } else {
        Err(HeadlessError::SignedOverflow { context: RIP_SIGNED_OVERFLOW })
    }
}

/// Whether the target of the instruction at `code` can be computed.
fn rip_fits(offset: usize, code: &[u8]) -> (r: bool)
    ensures
        r == rip_target_fits(offset, code@),
{
    if code.len() < 7 || offset > usize::MAX - 7 {
        return true;
    }
    let disp = read_u32_le(code, 3) as i32;
    let sum: i128 = ((offset + 7) as i64) as i128 + disp as i128;
    i64::MIN as i128 <= sum && sum <= i64::MAX as i128
}

/// `decode_rip_target` where the target fits; the overflow error otherwise.
fn decode_checked_rip_target(offset: usize, code: &[u8]) -> (r: Result<usize, HeadlessError>)
    ensures
        r == checked_rip_target(offset, code@),
{
    if rip_fits(offset, code) {
        decode_rip_target(offset, code)
    } else {
        Err(HeadlessError::SignedOverflow { context: RIP_SIGNED_OVERFLOW })
    }
}

/// Decodes the target of the RIP-relative instruction at the start of `code`,
/// which lies at `offset`.
pub fn decode_rip_target(offset: usize, code: &[u8]) -> (r: Result<usize, HeadlessError>)
    requires
        rip_target_fits(offset, code@),
    ensures
        r == rip_target(offset, code@),
{
    if code.len() < 7 {
        return Err(HeadlessError::Truncated { context: RIP_TOO_SHORT });
    }
    let disp = read_u32_le(code, 3) as i32;
    let after = checked_addr(offset, 7, RIP_OVERFLOW)?;
    let target = (after as i64) + (disp as i64);
    Ok(target as usize)
}

// ---------------------------------------------------------------------------
// The interface registry list
// ---------------------------------------------------------------------------

/// The code that loads the head of the interface registry list.
pub const INTERFACE_LIST_PATTERN: &'static str = "48 8B 1D ? ? ? ? 48 85 DB 74 ?";
/// The exported factory the registry list is searched near.
pub const CREATE_INTERFACE_SYMBOL: &'static str = "CreateInterface";
/// How many bytes from the factory's start the load is searched in.
pub const INTERFACE_WINDOW_BYTES: usize = 0x40;
/// The message of a search window whose end overflows.
pub const WINDOW_OVERFLOW: &'static str = "interface list window overflow";
/// The message of a match whose virtual address overflows.
pub const LOCAL_MATCH_OVERFLOW: &'static str = "interface list local match overflow";
/// The message of a search window that starts past the end of the file.
pub const WINDOW_OUTSIDE: &'static str = "interface list window lies past the end of the file";

/// The end of the search window that starts at `start` in a file of `len` bytes.
pub open spec fn window_end(start: int, len: int) -> int {
    if start + INTERFACE_WINDOW_BYTES < len {
        start + INTERFACE_WINDOW_BYTES
    } else {
        len
    }
}

/// Where the registry load lies near the factory whose virtual address is
/// `symbol.0` and whose file offset is `symbol.1`: its virtual address and its
/// file offset. `Ok(None)` where it does not occur in the window.
pub open spec fn local_candidate(
    file: Seq<u8>,
    pattern: Seq<PatternToken>,
    symbol: (usize, usize),
) -> Result<Option<(usize, usize)>, HeadlessError> {
    let (virtual_addr, start) = symbol;
    if start + INTERFACE_WINDOW_BYTES > usize::MAX {
        Err(
            HeadlessError::AddressOverflow {
                context: WINDOW_OVERFLOW,
                base: start,
                offset: INTERFACE_WINDOW_BYTES,
            },
        )
    } else {
        match first_match(file.subrange(start as int, window_end(start as int, file.len() as int)), pattern) {
            None => Ok(None),
            Some(local) => if virtual_addr + local > usize::MAX {
                Err(
                    HeadlessError::AddressOverflow {
                        context: LOCAL_MATCH_OVERFLOW,
                        base: virtual_addr,
                        offset: local as usize,
                    },
                )
            } else {
                Ok(Some(((virtual_addr + local) as usize, (start + local) as usize)))
            },
        }
    }
}

/// The virtual address of the registry list head, read off the load found
/// near the factory, or else off the first load anywhere in the file.
pub open spec fn interface_list_outcome(
    file: Seq<u8>,
    pattern: Seq<PatternToken>,
    symbol: Option<(usize, usize)>,
) -> Result<Option<usize>, HeadlessError> {
    let local = match symbol {
        Some(sym) => if sym.1 > file.len() {
            Err(HeadlessError::Truncated { context: WINDOW_OUTSIDE })
        } else {
            local_candidate(file, pattern, sym)
        },
        None => Ok(None),
    };
    match local {
        Err(e) => Err(e),
        Ok(Some((virtual_addr, offset))) => match checked_rip_target(
            virtual_addr,
            file.skip(offset as int),
        ) {
            Ok(target) => Ok(Some(target)),
            Err(e) => Err(e),
        },
        Ok(None) => match first_match(file, pattern) {
            None => Ok(None),
            Some(offset) => match checked_rip_target(offset as usize, file.skip(offset)) {
                Ok(target) => Ok(Some(target)),
                Err(e) => Err(e),
            },
        },
    }
}

/// Finds the virtual address of the interface registry list head in a module
/// file: first by the load near the factory (given as its virtual address and
/// file offset), then by the first load anywhere. A window that starts past
/// the end of the file, and a target outside the signed range, are errors.
pub fn interface_list_in_file(
    file: &[u8],
    pattern: &[PatternToken],
    symbol: Option<(usize, usize)>,
) -> (r: Result<Option<usize>, HeadlessError>)
    ensures
        r == interface_list_outcome(file@, pattern@, symbol),
{
    let _file_len = file.len();
    if let Some((virtual_addr, start)) = symbol {
        if start > file.len() {
            return Err(HeadlessError::Truncated { context: WINDOW_OUTSIDE });
        }
        let end = checked_addr(start, INTERFACE_WINDOW_BYTES, WINDOW_OVERFLOW)?;
        let end = if end < file.len() {
            end
        } else {
            file.len()
        };
        let window = vstd::slice::slice_subrange(file, start, end);
        if let Some(local) = find_first_match(window, pattern, 1) {
            let match_virtual = checked_addr(virtual_addr, local, LOCAL_MATCH_OVERFLOW)?;
            let local_start = start + local;
            let code = vstd::slice::slice_subrange(file, local_start, file.len());
            assert(code@ == file@.skip(local_start as int));
            return match decode_checked_rip_target(match_virtual, code) {
                Ok(target) => Ok(Some(target)),
                Err(e) => Err(e),
            };
        }
    }
    match find_first_match(file, pattern, 4) {
        None => Ok(None),
        Some(offset) => {
            let code = vstd::slice::slice_subrange(file, offset, file.len());
            assert(code@ == file@.skip(offset as int));
            match decode_checked_rip_target(offset, code) {
                Ok(target) => Ok(Some(target)),
                Err(e) => Err(e),
            }
        },
    }
}

/// What `find_interface_list_virtual` answers: the registry list head found
/// near the factory at `create_interface_virtual` where the factory's code is
/// in the file, else anywhere in the file.
pub open spec fn interface_list_search(
    file: Seq<u8>,
    create_interface_virtual: Option<usize>,
) -> Result<Option<usize>, HeadlessError> {
    match pattern_tokens(INTERFACE_LIST_PATTERN@) {
        None => Err(HeadlessError::InvalidPattern),
        Some(pattern) => match create_interface_virtual {
            None => interface_list_outcome(file, pattern, None),
            Some(symbol_virtual) => match file_offset_outcome(file, symbol_virtual as u64) {
                Err(ElfError::Parse) => Err(HeadlessError::ImageParse),
                Err(ElfError::OffsetOverflow) => Err(HeadlessError::ImageOffsetOverflow),
                Ok(None) => interface_list_outcome(file, pattern, None),
                Ok(Some(file_offset)) => interface_list_outcome(
                    file,
                    pattern,
                    Some((symbol_virtual, file_offset as usize)),
                ),
            },
        },
    }
}

/// Finds the virtual address of the interface registry list head in a module
/// file, searching near the exported factory at `create_interface_virtual`
/// first when there is one.
pub fn find_interface_list_virtual(
    file_bytes: &[u8],
    create_interface_virtual: Option<usize>,
) -> (r: Result<Option<usize>, HeadlessError>)
    ensures
        r == interface_list_search(file_bytes@, create_interface_virtual),
{
    let pattern = match parse_pattern(INTERFACE_LIST_PATTERN) {
        Ok(pattern) => pattern,
        Err(_) => return Err(HeadlessError::InvalidPattern),
    };
    let mut symbol: Option<(usize, usize)> = None;
    if let Some(symbol_virtual) = create_interface_virtual {
        match file_offset_for_virtual_addr(file_bytes, symbol_virtual as u64) {
            Err(ElfError::Parse) => return Err(HeadlessError::ImageParse),
            Err(ElfError::OffsetOverflow) => return Err(HeadlessError::ImageOffsetOverflow),
            Ok(Some(file_offset)) => {
                symbol = Some((symbol_virtual, file_offset as usize));
            },
            Ok(None) => {},
        }
    }
    interface_list_in_file(file_bytes, pattern.as_slice(), symbol)
}

// ---------------------------------------------------------------------------
// Interface instances
// ---------------------------------------------------------------------------

/// An entry of a module's interface registry: the interface's versioned name
/// and the address of its factory.
#[derive(Debug, Clone, PartialEq, Eq)]
pub struct InterfaceEntry {
    pub name: String,
    pub create_fn: usize,
}

/// The message of a factory below the module's image base.
pub const CREATE_FN_BELOW_BASE: &'static str = "create_fn is below module image base";
/// The message of a factory whose code offset overflows.
pub const CREATE_FN_OFFSET_OVERFLOW: &'static str = "create_fn offset overflow for interface instance decode";
/// The message of a factory whose code lies outside the file.
pub const CREATE_FN_OUTSIDE: &'static str = "create_fn offset is outside file bounds for interface instance decode";
/// The message of an instance address that overflows.
pub const INSTANCE_ADDRESS_OVERFLOW: &'static str = "compute interface instance runtime address";

/// The factory is `lea rax, [rip + disp32]; ret`: it returns the address of a
/// static instance.
pub open spec fn returns_static_instance(code: Seq<u8>) -> bool {
    &&& code.len() == 8
    &&& code[0] == 0x48
    &&& code[1] == 0x8D
    &&& code[2] == 0x05
    &&& code[7] == 0xC3
}

/// The instance address decoded from the factory code at `file_offset`, whose
/// virtual address in the image is `create_fn_virtual`.
pub open spec fn instance_from_code(
    module: ModuleImage,
    file: Seq<u8>,
    create_fn_virtual: usize,
    file_offset: u64,
) -> Result<Option<usize>, HeadlessError> {
    let start = file_offset as usize;
    if start + 8 > usize::MAX {
        Err(
            HeadlessError::AddressOverflow {
                context: CREATE_FN_OFFSET_OVERFLOW,
                base: start,
                offset: 8,
            },
        )
    } else if start + 8 > file.len() {
        Err(HeadlessError::Truncated { context: CREATE_FN_OUTSIDE })
    } else if !returns_static_instance(file.subrange(start as int, start + 8)) {
        Ok(None)
    } else {
        match checked_rip_target(create_fn_virtual, file.subrange(start as int, start + 8)) {
            Err(e) => Err(e),
            Ok(instance_virtual) => if module.image_base + instance_virtual > usize::MAX {
                Err(
                    HeadlessError::AddressOverflow {
                        context: INSTANCE_ADDRESS_OVERFLOW,
                        base: module.image_base,
                        offset: instance_virtual,
                    },
                )
            } else {
                Ok(Some((module.image_base + instance_virtual) as usize))
            },
        }
    }
}

/// What `decode_interface_instance_runtime` answers for the factory at
/// `create_fn`.
pub open spec fn interface_instance(
    module: ModuleImage,
    file: Seq<u8>,
    create_fn: usize,
) -> Result<Option<usize>, HeadlessError> {
    if create_fn < module.image_base {
        Err(HeadlessError::AddressUnderflow { context: CREATE_FN_BELOW_BASE })
    } else {
        let create_fn_virtual = (create_fn - module.image_base) as usize;
        match file_offset_outcome(file, create_fn_virtual as u64) {
            Err(ElfError::Parse) => Err(HeadlessError::ImageParse),
            Err(ElfError::OffsetOverflow) => Err(HeadlessError::ImageOffsetOverflow),
            Ok(None) => Ok(None),
            Ok(Some(file_offset)) => instance_from_code(module, file, create_fn_virtual, file_offset),
        }
    }
}

/// The runtime address of the instance an interface's factory returns, where
/// the factory just returns the address of a static instance; `Ok(None)`
/// where it does something else or its code is not in the file.
pub fn decode_interface_instance_runtime(
    module: &ModuleImage,
    file_bytes: &[u8],
    entry: &InterfaceEntry,
) -> (r: Result<Option<usize>, HeadlessError>)
    ensures
        r == interface_instance(*module, file_bytes@, entry.create_fn),
{
    if entry.create_fn < module.image_base {
        return Err(HeadlessError::AddressUnderflow { context: CREATE_FN_BELOW_BASE });
    }
    let create_fn_virtual = entry.create_fn - module.image_base;
    let file_offset = match file_offset_for_virtual_addr(file_bytes, create_fn_virtual as u64) {
        Err(ElfError::Parse) => return Err(HeadlessError::ImageParse),
        Err(ElfError::OffsetOverflow) => return Err(HeadlessError::ImageOffsetOverflow),
        Ok(None) => return Ok(None),
        Ok(Some(file_offset)) => file_offset,
    };
    let start = file_offset as usize;
    let end = checked_addr(start, 8, CREATE_FN_OFFSET_OVERFLOW)?;
    if end > file_bytes.len() {
        return Err(HeadlessError::Truncated { context: CREATE_FN_OUTSIDE });
    }
    let code = vstd::slice::slice_subrange(file_bytes, start, end);
    if !(code[0] == 0x48 && code[1] == 0x8D && code[2] == 0x05 && code[7] == 0xC3) {
        return Ok(None);
    }
    let instance_virtual = decode_checked_rip_target(create_fn_virtual, code)?;
    match checked_addr(module.image_base, instance_virtual, INSTANCE_ADDRESS_OVERFLOW) {
        Ok(address) => Ok(Some(address)),
        Err(e) => Err(e),
    }
}

// ---------------------------------------------------------------------------
// Reading the registry out of the process
// ---------------------------------------------------------------------------

/// How many registry entries are read at most.
pub const MAX_INTERFACE_ENTRIES: usize = 256;

/// Whether `text` starts with `prefix`.
pub fn starts_with(text: &str, prefix: &str) -> (r: bool)
    ensures
        r == has_prefix(text@, prefix@),
{
    let t = chars_of(text);
    let p = chars_of(prefix);
    if p.len() > t.len() {
        return false;
    }
    let mut i: usize = 0;
    while i < p.len()
        invariant
            i <= p@.len(),
            p@.len() <= t@.len(),
            t@ == text@,
            p@ == prefix@,
            forall|j: int| 0 <= j < i ==> t@[j] == p@[j],
        decreases p.len() - i,
    {
        if t[i] != p[i] {
            assert(t@.subrange(0, p@.len() as int)[i as int] != p@[i as int]);
            return false;
        }
        i = i + 1;
    }
    assert(t@.subrange(0, p@.len() as int) =~= p@);
    true
}

/// The entry at `i` is the first whose name starts with `name`.
pub open spec fn is_first_with_prefix(entries: Seq<InterfaceEntry>, name: Seq<char>, i: int) -> bool {
    &&& 0 <= i < entries.len()
    &&& has_prefix(entries[i].name@, name)
    &&& forall|j: int| 0 <= j < i ==> !has_prefix(#[trigger] entries[j].name@, name)
}

/// The instance of the first registered interface whose name starts with
/// `interface_name` (versions follow the name); `Ok(None)` where none does.
pub fn find_interface_instance(
    module: &ModuleImage,
    file_bytes: &[u8],
    entries: &[InterfaceEntry],
    interface_name: &str,
) -> (r: Result<Option<usize>, HeadlessError>)
    ensures
        (forall|i: int| 0 <= i < entries@.len() ==> !has_prefix(#[trigger] entries@[i].name@, interface_name@))
            ==> r == Ok::<Option<usize>, HeadlessError>(None),
        forall|i: int|
            is_first_with_prefix(entries@, interface_name@, i) ==> r == interface_instance(
                *module,
                file_bytes@,
                #[trigger] entries@[i].create_fn,
            ),
{
    let mut i: usize = 0;
    while i < entries.len()
        invariant
            i <= entries@.len(),
            forall|j: int| 0 <= j < i ==> !has_prefix(#[trigger] entries@[j].name@, interface_name@),
        decreases entries.len() - i,
    {
        if starts_with(entries[i].name.as_str(), interface_name) {
            proof {
                assert(is_first_with_prefix(entries@, interface_name@, i as int));
                assert forall|k: int| is_first_with_prefix(entries@, interface_name@, k) implies k == i by {
                    if k < i {
                        assert(!has_prefix(entries@[k].name@, interface_name@));
                    } else if k > i {
                        assert(!has_prefix(entries@[i as int].name@, interface_name@));
                    }
                }
            }
            return decode_interface_instance_runtime(module, file_bytes, &entries[i]);
        }
        i = i + 1;
    }
    Ok(None)
}

/// An interface entry as plain values: its factory and its name.
pub open spec fn entry_view(e: InterfaceEntry) -> (usize, Seq<char>) {
    (e.create_fn, e.name@)
}

/// The registry list in `memory` from `cursor` on, at most `fuel` entries:
/// each entry holds its factory, a pointer to its name and its successor;
/// the list ends at a null cursor or an empty name.
pub open spec fn registry_from(memory: spec_fn(int) -> u8, cursor: usize, fuel: nat) -> Seq<(usize, Seq<char>)>
    decreases fuel,
{
    if cursor == 0 || fuel == 0 {
        Seq::empty()
    } else {
        let name = c_string_at(memory, mem_u64(memory, cursor + 0x8) as usize as int, 128);
        if name.len() == 0 {
            Seq::empty()
        } else {
            seq![(mem_u64(memory, cursor as int) as usize, name)] + registry_from(
                memory,
                mem_u64(memory, cursor + 0x10) as usize,
                (fuel - 1) as nat,
            )
        }
    }
}

/// Reads the registry list from `cursor` on: each entry's factory, name and
/// successor, until the list ends, a name is empty, or `max_entries` have
/// been read.
pub fn read_interface_entries<R: HeadlessRuntime>(
    runtime: &mut R,
    cursor: usize,
    max_entries: usize,
) -> (r: Result<Vec<InterfaceEntry>, HeadlessError>)
    ensures
        final(runtime).memory() == old(runtime).memory(),
        final(runtime).readable() == old(runtime).readable(),
        final(runtime).mappings() == old(runtime).mappings(),
        final(runtime).module_file() == old(runtime).module_file(),
        r matches Ok(entries) ==> entries@.len() <= max_entries && forall|i: int|
            0 <= i < entries@.len() ==> (#[trigger] entries@[i]).name@.len() > 0,
        r matches Ok(entries) ==> entries@.map_values(|e: InterfaceEntry| entry_view(e))
            == registry_from(old(runtime).memory(), cursor, max_entries as nat),
{
    let ghost mem = runtime.memory();
    let ghost start = cursor;
    let mut entries: Vec<InterfaceEntry> = Vec::new();
    let mut cursor = cursor;
    while cursor != 0 && entries.len() < max_entries
        invariant
            runtime.memory() == mem,
            runtime.readable() == old(runtime).readable(),
            runtime.mappings() == old(runtime).mappings(),
            runtime.module_file() == old(runtime).module_file(),
            mem == old(runtime).memory(),
            entries@.len() <= max_entries,
            forall|i: int| 0 <= i < entries@.len() ==> (#[trigger] entries@[i]).name@.len() > 0,
            entries@.map_values(|e: InterfaceEntry| entry_view(e)) + registry_from(
                mem,
                cursor,
                (max_entries - entries@.len()) as nat,
            ) == registry_from(mem, start, max_entries as nat),
        ensures
            runtime.memory() == mem,
            runtime.readable() == old(runtime).readable(),
            runtime.mappings() == old(runtime).mappings(),
            runtime.module_file() == old(runtime).module_file(),
            entries@.len() <= max_entries,
            forall|i: int| 0 <= i < entries@.len() ==> (#[trigger] entries@[i]).name@.len() > 0,
            entries@.map_values(|e: InterfaceEntry| entry_view(e)) == registry_from(mem, start, max_entries as nat),
        decreases max_entries - entries@.len(),
    {
        let create_fn = runtime.read_u64(cursor)? as usize;
        let name_ptr = runtime.read_u64(
            checked_addr(cursor, 0x8, "read interface name pointer")?,
        )? as usize;
        let next = runtime.read_u64(checked_addr(cursor, 0x10, "read interface next pointer")?)?
            as usize;
        let name = runtime.read_c_string(name_ptr, 128)?;
        let ghost fuel = (max_entries - entries@.len()) as nat;
        if name.as_str().is_empty() {
            proof {
                assert(registry_from(mem, cursor, fuel) =~= Seq::<(usize, Seq<char>)>::empty());
                assert(entries@.map_values(|e: InterfaceEntry| entry_view(e)) + Seq::<(usize, Seq<char>)>::empty()
                    =~= entries@.map_values(|e: InterfaceEntry| entry_view(e)));
            }
            break;
        }
        let ghost before = entries@;
        entries.push(InterfaceEntry { name, create_fn });
        proof {
            assert(registry_from(mem, cursor, fuel) == seq![(create_fn, name@)] + registry_from(
                mem,
                next,
                (fuel - 1) as nat,
            ));
            assert(entries@.map_values(|e: InterfaceEntry| entry_view(e)) =~= before.map_values(
                |e: InterfaceEntry| entry_view(e),
            ).push((create_fn, name@)));
            assert(entries@.map_values(|e: InterfaceEntry| entry_view(e)) + registry_from(
                mem,
                next,
                (fuel - 1) as nat,
            ) =~= before.map_values(|e: InterfaceEntry| entry_view(e)) + registry_from(mem, cursor, fuel));
        }
        cursor = next;
    }
    proof {
        let rest = registry_from(mem, cursor, (max_entries - entries@.len()) as nat);
        assert(rest =~= Seq::<(usize, Seq<char>)>::empty());
        assert(entries@.map_values(|e: InterfaceEntry| entry_view(e)) + rest =~= entries@.map_values(
            |e: InterfaceEntry| entry_view(e),
        ));
    }
    Ok(entries)
}

/// The address of the exported interface factory in an image's symbols: the
/// dynamic symbol of that name, else the symbol table's.
pub open spec fn create_interface_symbol(file: Seq<u8>) -> Option<usize> {
    match object_symbols(file) {
        Some((dynamic, table)) => match first_named(dynamic, CREATE_INTERFACE_SYMBOL@) {
            Some(address) => Some(address as usize),
            None => match first_named(table, CREATE_INTERFACE_SYMBOL@) {
                Some(address) => Some(address as usize),
                None => None,
            },
        },
        None => None,
    }
}

/// Reads the interface registry of the module whose mapped image is `module`
/// and whose file is `file_bytes`.
pub fn read_interfaces<R: HeadlessRuntime>(
    runtime: &mut R,
    module: &ModuleImage,
    file_bytes: &[u8],
) -> (r: Result<Vec<InterfaceEntry>, HeadlessError>)
    ensures
        final(runtime).memory() == old(runtime).memory(),
        final(runtime).readable() == old(runtime).readable(),
        final(runtime).mappings() == old(runtime).mappings(),
        final(runtime).module_file() == old(runtime).module_file(),
        object_symbols(file_bytes@) is None ==> r == Err::<Vec<InterfaceEntry>, HeadlessError>(
            HeadlessError::ImageParse,
        ),
        r matches Ok(entries) ==> entries@.len() <= MAX_INTERFACE_ENTRIES,
        r matches Ok(entries) ==> (interface_list_search(
            file_bytes@,
            create_interface_symbol(file_bytes@),
        ) matches Ok(Some(list_virtual)) && entries@.map_values(|e: InterfaceEntry| entry_view(e))
            == registry_from(
            old(runtime).memory(),
            mem_u64(old(runtime).memory(), module.image_base + list_virtual) as usize,
            MAX_INTERFACE_ENTRIES as nat,
        )),
{
    let create_interface_virtual = match find_symbol_virtual_addr(file_bytes, CREATE_INTERFACE_SYMBOL) {
        Err(_) => return Err(HeadlessError::ImageParse),
        Ok(Some(address)) => Some(address as usize),
        Ok(None) => None,
    };
    let list_virtual = match find_interface_list_virtual(file_bytes, create_interface_virtual)? {
        Some(address) => address,
        None => return Err(HeadlessError::Missing { context: "failed to discover InterfaceReg list" }),
    };
    let list_runtime = checked_addr(
        module.image_base,
        list_virtual,
        "compute interface list runtime address",
    )?;
    let list_head = runtime.read_u64(list_runtime)? as usize;
    read_interface_entries(runtime, list_head, MAX_INTERFACE_ENTRIES)
}

/// The entry at `i` of `registry` is the first whose name starts with `name`.
pub open spec fn is_first_registered(registry: Seq<(usize, Seq<char>)>, name: Seq<char>, i: int) -> bool {
    &&& 0 <= i < registry.len()
    &&& has_prefix(registry[i].1, name)
    &&& forall|j: int| 0 <= j < i ==> !has_prefix(#[trigger] registry[j].1, name)
}

/// `result` is what looking up `name` gives in the registry of the module
/// mapped as `module` with the file `file`: the registry list is found
/// through the file's `CreateInterface`, read from `memory`, and the
/// instance is that of the first entry whose name starts with `name`, or
/// none where no entry's does.
pub open spec fn interface_found(
    memory: spec_fn(int) -> u8,
    module: ModuleImage,
    file: Seq<u8>,
    name: Seq<char>,
    result: Result<Option<usize>, HeadlessError>,
) -> bool {
    interface_list_search(file, create_interface_symbol(file)) matches Ok(Some(list_virtual)) && {
        let registry = registry_from(
            memory,
            mem_u64(memory, module.image_base + list_virtual) as usize,
            MAX_INTERFACE_ENTRIES as nat,
        );
        &&& (forall|i: int| 0 <= i < registry.len() ==> !has_prefix(#[trigger] registry[i].1, name))
            ==> result == Ok::<Option<usize>, HeadlessError>(None)
        &&& forall|i: int|
            is_first_registered(registry, name, i) ==> result == interface_instance(
                module,
                file,
                #[trigger] registry[i].0,
            )
    }
}

/// The runtime address of the instance of the interface `interface_name` of
/// the module whose path ends with `module_suffix`.
///
/// The runtime gives the module's mapping and file; for those, an answer
/// that is not an error is the lookup in the registry read from memory.
pub fn resolve_interface_instance<R: HeadlessRuntime>(
    runtime: &mut R,
    module_suffix: &str,
    interface_name: &str,
) -> (r: Result<Option<usize>, HeadlessError>)
    ensures
        final(runtime).memory() == old(runtime).memory(),
        final(runtime).readable() == old(runtime).readable(),
        final(runtime).mappings() == old(runtime).mappings(),
        final(runtime).module_file() == old(runtime).module_file(),
        r is Ok ==> exists|module: ModuleImage, file: Seq<u8>| #[trigger] interface_found(
            old(runtime).memory(),
            module,
            file,
            interface_name@,
            r,
        ),
{
    let module = runtime.module_image(module_suffix)?;
    let file_bytes = runtime.read_module_file(module_suffix)?;
    let entries = read_interfaces(runtime, &module, file_bytes.as_slice())?;
    let r = find_interface_instance(&module, file_bytes.as_slice(), entries.as_slice(), interface_name);
    proof {
        let memory = old(runtime).memory();
        let file = file_bytes@;
        let list_virtual = interface_list_search(file, create_interface_symbol(file))->Ok_0->Some_0;
        let registry = registry_from(
            memory,
            mem_u64(memory, module.image_base + list_virtual) as usize,
            MAX_INTERFACE_ENTRIES as nat,
        );
        assert(registry == entries@.map_values(|e: InterfaceEntry| entry_view(e)));
        assert forall|i: int| 0 <= i < registry.len() implies #[trigger] registry[i] == (
            entries@[i].create_fn,
            entries@[i].name@,
        ) by {}
        if forall|i: int| 0 <= i < registry.len() ==> !has_prefix(#[trigger] registry[i].1, interface_name@) {
            assert forall|i: int| 0 <= i < entries@.len() implies !has_prefix(
                #[trigger] entries@[i].name@,
                interface_name@,
            ) by {
                assert(registry[i].1 == entries@[i].name@);
            }
        }
        assert forall|i: int| is_first_registered(registry, interface_name@, i) implies r == interface_instance(
            module,
            file,
            #[trigger] registry[i].0,
        ) by {
            assert(registry[i] == (entries@[i].create_fn, entries@[i].name@));
            assert forall|j: int| 0 <= j < i implies !has_prefix(#[trigger] entries@[j].name@, interface_name@) by {
                assert(registry[j].1 == entries@[j].name@);
                assert(!has_prefix(registry[j].1, interface_name@));
            }
            assert(is_first_with_prefix(entries@, interface_name@, i));
        }
        if r is Ok {
            assert(interface_found(memory, module, file, interface_name@, r));
        }
    }
    r
}

/// The mangled class name of the object at `instance` in `memory`: through
/// its vtable, the type information before it, and the name pointer of that;
/// none where a pointer on the way is null.
pub open spec fn class_name_at(memory: spec_fn(int) -> u8, instance: usize) -> Option<Seq<char>> {
    let vtable = mem_u64(memory, instance as int) as usize;
    if vtable < 8 {
        None
    } else {
        let typeinfo = mem_u64(memory, vtable - 8) as usize;
        if typeinfo == 0 {
            None
        } else {
            let name_ptr = mem_u64(memory, typeinfo + 8) as usize;
            if name_ptr == 0 {
                None
            } else {
                Some(c_string_at(memory, name_ptr as int, 128))
            }
        }
    }
}

/// Whether every read on the way to the class name of the object at
/// `instance` succeeds, `readable` telling which reads do.
pub open spec fn class_name_readable(memory: spec_fn(int) -> u8, readable: spec_fn(int, nat) -> bool, instance: usize) -> bool {
    let vtable = mem_u64(memory, instance as int) as usize;
    let typeinfo = mem_u64(memory, vtable - 8) as usize;
    let name_ptr = mem_u64(memory, typeinfo + 8) as usize;
    &&& readable(instance as int, 8)
    &&& vtable >= 8 ==> {
        &&& readable(vtable - 8, 8)
        &&& typeinfo != 0 ==> {
            &&& typeinfo + 8 <= usize::MAX
            &&& readable(typeinfo + 8, 8)
            &&& name_ptr != 0 ==> readable(name_ptr as int, 128)
        }
    }
}

/// The mangled class name of the object at `instance`, read through its
/// vtable's type information; `Ok(None)` where a pointer on the way is null.
pub fn read_instance_class_name<R: HeadlessRuntime>(runtime: &mut R, instance: usize) -> (r: Result<
    Option<String>,
    HeadlessError,
>)
    ensures
        final(runtime).memory() == old(runtime).memory(),
        final(runtime).readable() == old(runtime).readable(),
        final(runtime).mappings() == old(runtime).mappings(),
        final(runtime).module_file() == old(runtime).module_file(),
        r matches Ok(Some(name)) ==> class_name_at(old(runtime).memory(), instance) == Some(name@),
        r matches Ok(None) ==> class_name_at(old(runtime).memory(), instance) is None,
        r is Ok <==> class_name_readable(old(runtime).memory(), old(runtime).readable(), instance),
{
    let vtable = runtime.read_u64(instance)? as usize;
    if vtable < 8 {
        return Ok(None);
    }
    let typeinfo = runtime.read_u64(vtable - 8)? as usize;
    if typeinfo == 0 {
        return Ok(None);
    }
    let name_ptr = runtime.read_u64(checked_addr(typeinfo, 8, "read typeinfo name pointer")?)?
        as usize;
    if name_ptr == 0 {
        return Ok(None);
    }
    Ok(Some(runtime.read_c_string(name_ptr, 128)?))
}

} // verus!

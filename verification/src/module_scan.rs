//! Searching a module's memory for a byte pattern, and following the
//! RIP-relative operand of an instruction found there.
//!
//! These are what the attached game runtime offers the offset discovery;
//! they are verified here over the memory reader's interface.
use vstd::prelude::*;

use crate::class_instance::SnapshotMemory;
use crate::client::MemReaderModuleInfo;
use crate::interfaces::{ends_with, starts_with};
use crate::pattern::{
    find_first_match, first_match, is_first_match, lemma_first_match, lemma_runs_are_clean, parse_pattern, pattern_matches_at,
    pattern_tokens, segments, PatternToken,
};
use crate::runtime::{checked_addr, mem_bytes, mem_u32, HeadlessError, HeadlessRuntime};
use crate::text::{has_prefix, has_suffix};
use crate::wire::{le_u32_at, read_u32_le};

verus! {

/// How much of a module's memory is read at a time.
pub const MODULE_SCAN_CHUNK_BYTES: usize = 0x80000;

/// A mapping that is searched for a module: its path ends with the module's
/// suffix and it is readable.
pub open spec fn scanned_segment(m: MemReaderModuleInfo, suffix: Seq<char>) -> bool {
    has_suffix(m.path@, suffix) && has_prefix(m.perms@, "r"@)
}

/// The mappings of `modules` that are searched for a module with the path
/// suffix `suffix`, in their order.
pub open spec fn scanned_segments(modules: Seq<MemReaderModuleInfo>, suffix: Seq<char>) -> Seq<
    MemReaderModuleInfo,
> {
    modules.filter(|m: MemReaderModuleInfo| scanned_segment(m, suffix))
}

/// The first place where `m` belongs in the ascending `out`.
fn insertion_point(out: &Vec<MemReaderModuleInfo>, base: usize) -> (k: usize)
    ensures
        k <= out@.len(),
        forall|a: int| 0 <= a < k ==> out@[a].base < base,
        k < out@.len() ==> out@[k as int].base >= base,
{
    let mut k: usize = 0;
    while k < out.len() && out[k].base < base
        invariant
            k <= out@.len(),
            forall|a: int| 0 <= a < k ==> out@[a].base < base,
        decreases out.len() - k,
    {
        k = k + 1;
    }
    k
}

/// The mappings of `modules` that are searched for the module with the
/// path suffix `suffix`, ascending by base.
fn segments_by_base(modules: Vec<MemReaderModuleInfo>, suffix: &str) -> (out: Vec<MemReaderModuleInfo>)
    ensures
        forall|a: int, b: int| 0 <= a < b < out@.len() ==> out@[a].base <= out@[b].base,
        forall|i: int| 0 <= i < out@.len() ==> scanned_segment(#[trigger] out@[i], suffix@),
        forall|i: int| 0 <= i < out@.len() ==> modules@.contains(#[trigger] out@[i]),
        forall|i: int|
            0 <= i < modules@.len() && scanned_segment(#[trigger] modules@[i], suffix@) ==> out@.contains(
                modules@[i],
            ),
        out@.to_multiset() == scanned_segments(modules@, suffix@).to_multiset(),
{
    let ghost all = modules@;
    let mut rest = modules;
    let mut out: Vec<MemReaderModuleInfo> = Vec::new();
    proof {
        broadcast use vstd::seq_lib::group_to_multiset_ensures;
        assert(out@.to_multiset() =~= vstd::multiset::Multiset::<MemReaderModuleInfo>::empty());
    }
    assert(out@.to_multiset().add(scanned_segments(rest@, suffix@).to_multiset()) =~= scanned_segments(
        all,
        suffix@,
    ).to_multiset());
    while rest.len() > 0
        invariant
            forall|a: int, b: int| 0 <= a < b < out@.len() ==> out@[a].base <= out@[b].base,
            forall|i: int| 0 <= i < out@.len() ==> scanned_segment(#[trigger] out@[i], suffix@),
            forall|i: int| 0 <= i < out@.len() ==> all.contains(#[trigger] out@[i]),
            forall|i: int| 0 <= i < rest@.len() ==> all.contains(#[trigger] rest@[i]),
            forall|i: int|
                0 <= i < all.len() && scanned_segment(#[trigger] all[i], suffix@) ==> out@.contains(all[i])
                    || rest@.contains(all[i]),
            out@.to_multiset().add(scanned_segments(rest@, suffix@).to_multiset()) == scanned_segments(
                all,
                suffix@,
            ).to_multiset(),
        decreases rest.len(),
    {
        let ghost rest_before = rest@;
        let ghost out_before = out@;
        let module = rest.pop().unwrap();
        assert(rest_before == rest@.push(module));
        proof {
            broadcast use vstd::seq_lib::group_to_multiset_ensures;
            rest@.lemma_filter_push(module, |m: MemReaderModuleInfo| scanned_segment(m, suffix@));
        }
        assert forall|i: int| 0 <= i < rest@.len() implies all.contains(#[trigger] rest@[i]) by {
            assert(rest@[i] == rest_before[i]);
        }
        if ends_with(module.path.as_str(), suffix) && starts_with(module.perms.as_str(), "r") {
            let k = insertion_point(&out, module.base);
            let ghost before = out@;
            out.insert(k, module);
            assert(out@ == out_before.insert(k as int, module));
            proof {
                broadcast use vstd::seq_lib::group_to_multiset_ensures;
                assert(out@.remove(k as int) =~= out_before);
                assert(out@[k as int] == module);
                assert(out@.to_multiset() =~= out_before.to_multiset().insert(module));
                assert(out@.to_multiset().add(scanned_segments(rest@, suffix@).to_multiset())
                    =~= out_before.to_multiset().add(scanned_segments(rest_before, suffix@).to_multiset()));
            }
            assert forall|i: int| 0 <= i < out@.len() implies all.contains(#[trigger] out@[i]) by {
                if i < k {
                    assert(out@[i] == out_before[i]);
                } else if i > k {
                    assert(out@[i] == out_before[i - 1]);
                } else {
                    assert(rest_before[rest_before.len() - 1] == module);
                }
            }
            assert forall|i: int|
                0 <= i < all.len() && scanned_segment(#[trigger] all[i], suffix@) implies out@.contains(all[i])
                    || rest@.contains(all[i]) by {
                if out_before.contains(all[i]) {
                    let j = choose|j: int| 0 <= j < out_before.len() && out_before[j] == all[i];
                    if j < k {
                        assert(out@[j] == all[i]);
                    } else {
                        assert(out@[j + 1] == all[i]);
                    }
                } else if all[i] == module {
                    assert(out@[k as int] == module);
                } else {
                    let j = choose|j: int| 0 <= j < rest_before.len() && rest_before[j] == all[i];
                    assert(j < rest@.len());
                    assert(rest@[j] == all[i]);
                }
            }
            assert forall|a: int, b: int| 0 <= a < b < out@.len() implies out@[a].base <= out@[b].base by {
                if b < k {
                    assert(out@[a] == before[a] && out@[b] == before[b]);
                } else if b == k {
                    assert(out@[a] == before[a]);
                } else if a < k {
                    assert(out@[a] == before[a] && out@[b] == before[b - 1]);
                } else if a == k {
                    assert(out@[b] == before[b - 1]);
                    assert(before[k as int].base >= out@[a].base);
                } else {
                    assert(out@[a] == before[a - 1] && out@[b] == before[b - 1]);
                }
            }
        } else {
            assert forall|i: int|
                0 <= i < all.len() && scanned_segment(#[trigger] all[i], suffix@) implies out@.contains(all[i])
                    || rest@.contains(all[i]) by {
                if !out@.contains(all[i]) {
                    let j = choose|j: int| 0 <= j < rest_before.len() && rest_before[j] == all[i];
                    if j == rest@.len() {
                        assert(all[i] == module);
                    } else {
                        assert(rest@[j] == all[i]);
                    }
                }
            }
        }
    }
    assert(scanned_segments(rest@, suffix@) =~= Seq::<MemReaderModuleInfo>::empty());
    assert(out@.to_multiset().add(scanned_segments(rest@, suffix@).to_multiset()) =~= out@.to_multiset());
    out
}

/// `tokens` occur in `memory` at `address`, within a stretch of memory read
/// as one piece.
pub open spec fn pattern_found_at(memory: spec_fn(int) -> u8, tokens: Seq<PatternToken>, address: int) -> bool {
    exists|from: int, len: nat|
        from <= address && #[trigger] pattern_matches_at(mem_bytes(memory, from, len), tokens, address - from)
}

/// A match of a parsed pattern starts inside the bytes searched.
proof fn lemma_match_inside(bytes: Seq<u8>, pattern: Seq<PatternToken>, start: int)
    requires
        is_first_match(bytes, pattern, start),
    ensures
        0 <= start < bytes.len(),
{
    lemma_runs_are_clean(pattern, crate::pattern::gap_sep());
    assert(segments(pattern)[0].len() > 0);
}

/// The first place in the memory of the module whose path ends with
/// `module_suffix` where `pattern` occurs: the readable mappings are
/// searched in ascending order of their bases, each in chunks of
/// [`MODULE_SCAN_CHUNK_BYTES`] that overlap by one byte less than the
/// pattern has tokens, so that no occurrence across a chunk's end is missed.
/// A pattern at least as long as a chunk cannot advance the search, which
/// then leaves the mapping.
pub fn scan_module_memory_pattern<R: SnapshotMemory>(
    runtime: &mut R,
    module_suffix: &str,
    pattern: &str,
) -> (r: Result<Option<usize>, HeadlessError>)
    ensures
        final(runtime).memory() == old(runtime).memory(),
        final(runtime).readable() == old(runtime).readable(),
        final(runtime).mappings() == old(runtime).mappings(),
        final(runtime).module_file() == old(runtime).module_file(),
        pattern_tokens(pattern@) is None ==> r == Err::<Option<usize>, HeadlessError>(
            HeadlessError::InvalidPattern,
        ),
        r matches Ok(Some(address)) ==> exists|m: MemReaderModuleInfo|
            scanned_segment(m, module_suffix@) && m.base <= address < m.end,
        r matches Ok(Some(address)) ==> pattern_tokens(pattern@) matches Some(tokens) && pattern_found_at(
            old(runtime).memory(),
            tokens,
            address as int,
        ),
{
    let tokens = match parse_pattern(pattern) {
        Ok(tokens) => tokens,
        Err(_) => return Err(HeadlessError::InvalidPattern),
    };
    let pattern_len = if tokens.len() > 1 {
        tokens.len()
    } else {
        1
    };
    let segments = segments_by_base(runtime.mapped_modules(), module_suffix);
    let mut s: usize = 0;
    while s < segments.len()
        invariant
            s <= segments@.len(),
            runtime.memory() == old(runtime).memory(),
            runtime.readable() == old(runtime).readable(),
            runtime.mappings() == old(runtime).mappings(),
            runtime.module_file() == old(runtime).module_file(),
            pattern_len >= 1,
            pattern_tokens(pattern@) is Some,
            pattern_tokens(pattern@) == Some(tokens@),
            forall|i: int| 0 <= i < segments@.len() ==> scanned_segment(#[trigger] segments@[i], module_suffix@),
        decreases segments.len() - s,
    {
        let base = segments[s].base;
        let end = segments[s].end;
        let ghost segment = segments@[s as int];
        assert(scanned_segment(segment, module_suffix@));
        let mut offset: usize = 0;
        while base < end && offset < end - base
            invariant
                runtime.memory() == old(runtime).memory(),
                runtime.readable() == old(runtime).readable(),
                runtime.mappings() == old(runtime).mappings(),
                runtime.module_file() == old(runtime).module_file(),
                segment.base == base,
                segment.end == end,
                scanned_segment(segment, module_suffix@),
                base < end ==> offset <= end - base,
                pattern_len >= 1,
                pattern_tokens(pattern@) is Some,
                pattern_tokens(pattern@) == Some(tokens@),
            decreases end - base - offset,
        {
            let start = base + offset;
            let remaining = end - start;
            let chunk_len = if remaining < MODULE_SCAN_CHUNK_BYTES {
                remaining
            } else {
                MODULE_SCAN_CHUNK_BYTES
            };
            let bytes = runtime.read_bytes(start, chunk_len)?;
            if let Some(found) = find_first_match(bytes.as_slice(), tokens.as_slice(), 1) {
                proof {
                    lemma_match_inside(bytes@, tokens@, found as int);
                    lemma_first_match(bytes@, tokens@, found as int);
                    assert(pattern_matches_at(mem_bytes(old(runtime).memory(), start as int, chunk_len as nat), tokens@, (start + found) - start));
                    assert(pattern_found_at(old(runtime).memory(), tokens@, (start + found) as int));
                }
                return Ok(Some(start + found));
            }
            if remaining <= chunk_len {
                break;
            }
            let overlap = pattern_len - 1;
            if chunk_len <= overlap {
                break;
            }
            offset = offset + (chunk_len - overlap);
        }
        s = s + 1;
    }
    Ok(None)
}

/// The target of a RIP-relative operand: the address after the instruction,
/// taken as an `i64`, plus the displacement.
pub open spec fn relative_target_sum(instruction: usize, instruction_size: usize, disp: i32) -> int {
    ((instruction + instruction_size) as usize as i64) + disp
}

/// The target of a RIP-relative operand with displacement `disp`, of an
/// instruction of `instruction_size` bytes at `instruction`; an error where
/// the address after the instruction or the sum overflows.
pub open spec fn relative_target(instruction: usize, instruction_size: usize, disp: i32) -> Result<
    usize,
    HeadlessError,
> {
    if instruction + instruction_size > usize::MAX {
        Err(
            HeadlessError::AddressOverflow {
                context: "relative instruction end overflow",
                base: instruction,
                offset: instruction_size,
            },
        )
    } else if relative_target_sum(instruction, instruction_size, disp) < i64::MIN
        || relative_target_sum(instruction, instruction_size, disp) > i64::MAX {
        Err(HeadlessError::SignedOverflow { context: "relative target overflow" })
    } else {
        Ok(relative_target_sum(instruction, instruction_size, disp) as i64 as usize)
    }
}

/// Computes `relative_target`.
pub fn relative_target_of(instruction: usize, instruction_size: usize, disp: i32) -> (r: Result<
    usize,
    HeadlessError,
>)
    ensures
        r == relative_target(instruction, instruction_size, disp),
{
    let after = checked_addr(instruction, instruction_size, "relative instruction end overflow")?;
    let wide = after as i64;
    match wide.checked_add(disp as i64) {
        Some(target) => Ok(target as usize),
        None => Err(HeadlessError::SignedOverflow { context: "relative target overflow" }),
    }
}

/// The target of the RIP-relative operand of the instruction at
/// `instruction`, whose little-endian `i32` displacement lies
/// `displacement_offset` bytes into it.
pub fn read_relative_address<R: HeadlessRuntime>(
    runtime: &mut R,
    instruction: usize,
    displacement_offset: usize,
    instruction_size: usize,
) -> (r: Result<usize, HeadlessError>)
    ensures
        final(runtime).memory() == old(runtime).memory(),
        final(runtime).readable() == old(runtime).readable(),
        final(runtime).mappings() == old(runtime).mappings(),
        final(runtime).module_file() == old(runtime).module_file(),
        r is Ok ==> r == relative_target(
            instruction,
            instruction_size,
            mem_u32(old(runtime).memory(), instruction + displacement_offset) as i32,
        ),
{
    let at = checked_addr(instruction, displacement_offset, "relative displacement overflow")?;
    let bytes = runtime.read_bytes(at, 4)?;
    let disp = read_u32_le(bytes.as_slice(), 0) as i32;
    assert(bytes@ =~= mem_bytes(old(runtime).memory(), at as int, 4));
    let r = relative_target_of(instruction, instruction_size, disp);
    assert(r == relative_target(instruction, instruction_size, disp));
    r
}

} // verus!

//! Finding the live instance of a class of the client library by its RTTI:
//! the class name in the library's file, the type information that points at
//! it, the vtable that points at that, and an object in writable memory that
//! points at the vtable.
use vstd::prelude::*;

use crate::client::MemReaderModuleInfo;
use crate::interfaces::{class_name_at, class_name_readable, ends_with, read_instance_class_name, starts_with};
use vstd::string::StringSliceAdditionalSpecFns;
use crate::runtime::{mem_bytes, mem_u64, HeadlessError, HeadlessRuntime};
use crate::text::{
    chars_of, contains_chars, contains_text, decimal_digits, has_prefix, has_suffix, push_decimal_digits,
};
use crate::wire::{le_u64_at, read_u64_le};

verus! {

/// The memory mappings of the attached process, besides what the offset
/// discovery reads.
pub trait SnapshotMemory: HeadlessRuntime {
    /// The process's memory mappings, as the kernel lists them.
    fn mapped_modules(&self) -> (r: Vec<MemReaderModuleInfo>)
        ensures
            r@ == self.mappings(),
    ;
}

// ---------------------------------------------------------------------------
// Scanning memory for a pointer
// ---------------------------------------------------------------------------

/// How much memory is read at a time.
pub const QWORD_CHUNK_SIZE: usize = 0x10000;
/// The largest mapping that is scanned.
pub const MAX_REGION_SIZE: usize = 0x1000000;

/// Hits of a scan of `[start, end)`: ascending, each with its eight bytes in
/// the range.
pub open spec fn hits_in_range(hits: Seq<usize>, start: int, end: int) -> bool {
    &&& forall|i: int| 0 <= i < hits.len() ==> start <= #[trigger] hits[i] && hits[i] + 8 <= end
    &&& forall|i: int, j: int| 0 <= i < j < hits.len() ==> hits[i] < hits[j]
}

/// Whether the `k`-th chunk of a scan of `[start, end)` can be read.
pub open spec fn qword_chunk_read(readable: spec_fn(int, nat) -> bool, start: int, end: int, k: int) -> bool {
    let from = start + k * 0x10000;
    readable(from, (if end - from < 0x10000 { end - from } else { 0x10000 }) as nat)
}

/// A scan of `[start, end)` sees `needle` at `h`: its eight bytes lie in the
/// range, are `needle`, and every chunk they touch can be read.
pub open spec fn qword_seen(
    memory: spec_fn(int) -> u8,
    readable: spec_fn(int, nat) -> bool,
    start: int,
    end: int,
    needle: u64,
    h: int,
) -> bool {
    &&& start <= h
    &&& h + 8 <= end
    &&& mem_u64(memory, h) == needle
    &&& forall|k: int|
        0 <= k && start + k * 0x10000 < h + 8 && h < start + (k + 1) * 0x10000 ==> #[trigger] qword_chunk_read(
            readable,
            start,
            end,
            k,
        )
}

/// The addresses among the first `n` of `[start, end)` at which a scan sees
/// `needle`, ascending.
pub open spec fn qword_seen_upto(
    memory: spec_fn(int) -> u8,
    readable: spec_fn(int, nat) -> bool,
    start: int,
    end: int,
    needle: u64,
    n: nat,
) -> Seq<usize>
    decreases n,
{
    if n == 0 {
        Seq::empty()
    } else {
        let earlier = qword_seen_upto(memory, readable, start, end, needle, (n - 1) as nat);
        if qword_seen(memory, readable, start, end, needle, start + n - 1) {
            earlier.push((start + n - 1) as usize)
        } else {
            earlier
        }
    }
}

/// What a scan of `[start, end)` for `needle` finds, at most `limit`
/// addresses: the first of those where it sees `needle`.
pub open spec fn qword_scan(
    memory: spec_fn(int) -> u8,
    readable: spec_fn(int, nat) -> bool,
    start: int,
    end: int,
    needle: u64,
    limit: nat,
) -> Seq<usize> {
    at_most(qword_seen_upto(memory, readable, start, end, needle, (if end > start { end - start } else { 0 }) as nat), limit)
}

/// The first `limit` items of `s`, or all of them where there are fewer.
pub open spec fn at_most(s: Seq<usize>, limit: nat) -> Seq<usize> {
    if s.len() <= limit { s } else { s.take(limit as int) }
}

proof fn lemma_at_most_append(a: Seq<usize>, r: Seq<usize>, limit: nat)
    ensures
        at_most(a, limit).len() <= limit,
        at_most(a, limit) + at_most(r, (limit - at_most(a, limit).len()) as nat) == at_most(a + r, limit),
{
    if a.len() <= limit {
        if r.len() <= limit - a.len() {
        } else {
            assert(a + r.take(limit - a.len()) =~= (a + r).take(limit as int));
        }
    } else {
        assert(at_most(r, 0) =~= Seq::<usize>::empty());
        assert(a.take(limit as int) + Seq::<usize>::empty() =~= (a + r).take(limit as int));
    }
}

proof fn lemma_seen_skip(
    memory: spec_fn(int) -> u8,
    readable: spec_fn(int, nat) -> bool,
    start: int,
    end: int,
    needle: u64,
    a: nat,
    b: nat,
)
    requires
        a <= b,
        forall|h: int| start + a <= h < start + b ==> !#[trigger] qword_seen(memory, readable, start, end, needle, h),
    ensures
        qword_seen_upto(memory, readable, start, end, needle, b) == qword_seen_upto(memory, readable, start, end, needle, a),
    decreases b,
{
    if b > a {
        assert(!qword_seen(memory, readable, start, end, needle, start + b - 1));
        lemma_seen_skip(memory, readable, start, end, needle, a, (b - 1) as nat);
    }
}

proof fn lemma_seen_prefix(
    memory: spec_fn(int) -> u8,
    readable: spec_fn(int, nat) -> bool,
    start: int,
    end: int,
    needle: u64,
    a: nat,
    b: nat,
)
    requires
        a <= b,
    ensures
        qword_seen_upto(memory, readable, start, end, needle, a).len() <= qword_seen_upto(
            memory,
            readable,
            start,
            end,
            needle,
            b,
        ).len(),
        qword_seen_upto(memory, readable, start, end, needle, b).take(
            qword_seen_upto(memory, readable, start, end, needle, a).len() as int,
        ) == qword_seen_upto(memory, readable, start, end, needle, a),
    decreases b,
{
    let sa = qword_seen_upto(memory, readable, start, end, needle, a);
    if b == a {
        assert(sa.take(sa.len() as int) =~= sa);
    } else {
        lemma_seen_prefix(memory, readable, start, end, needle, a, (b - 1) as nat);
        let sb1 = qword_seen_upto(memory, readable, start, end, needle, (b - 1) as nat);
        let sb = qword_seen_upto(memory, readable, start, end, needle, b);
        assert(sb.take(sa.len() as int) =~= sb1.take(sa.len() as int));
    }
}

/// The addresses in `[start, end)` whose eight little-endian bytes are
/// `needle`, at most `limit` of them, in ascending order. Memory is read in
/// chunks of `QWORD_CHUNK_SIZE`, each with the last seven bytes of the one
/// before; a chunk that cannot be read is skipped.
pub fn find_qword_in_range<R: HeadlessRuntime>(
    runtime: &mut R,
    start: usize,
    end: usize,
    needle: u64,
    limit: usize,
) -> (hits: Vec<usize>)
    ensures
        final(runtime).memory() == old(runtime).memory(),
        final(runtime).readable() == old(runtime).readable(),
        final(runtime).mappings() == old(runtime).mappings(),
        final(runtime).module_file() == old(runtime).module_file(),
        hits@ == qword_scan(old(runtime).memory(), old(runtime).readable(), start as int, end as int, needle, limit as nat),
        hits@.len() <= limit,
        hits_in_range(hits@, start as int, end as int),
        forall|i: int| 0 <= i < hits@.len() ==> mem_u64(old(runtime).memory(), #[trigger] hits@[i] as int) == needle,
{
    let ghost memory = runtime.memory();
    let ghost rd = runtime.readable();
    let mut hits: Vec<usize> = Vec::new();
    if start >= end || limit == 0 {
        proof {
            let all = qword_seen_upto(memory, rd, start as int, end as int, needle, (if end > start { end - start } else { 0 }) as nat);
            assert(all.take(0) =~= Seq::<usize>::empty());
        }
        return hits;
    }
    let mut cursor = start;
    let mut carry: Vec<u8> = Vec::new();
    let ghost mut k: int = 0;
    let ghost mut pt: nat = 0;
    while cursor < end && hits.len() < limit
        invariant
            start <= cursor <= end,
            start < end,
            carry@.len() <= 7,
            carry@.len() <= cursor - start,
            carry@ == mem_bytes(memory, cursor - carry@.len(), carry@.len()),
            runtime.memory() == memory,
            runtime.readable() == old(runtime).readable(),
            runtime.mappings() == old(runtime).mappings(),
            runtime.module_file() == old(runtime).module_file(),
            memory == old(runtime).memory(),
            rd == old(runtime).readable(),
            forall|i: int| 0 <= i < hits@.len() ==> mem_u64(memory, #[trigger] hits@[i] as int) == needle,
            hits@.len() <= limit,
            forall|i: int| 0 <= i < hits@.len() ==> start <= #[trigger] hits@[i] && hits@[i] + 8 <= cursor,
            forall|i: int, j: int| 0 <= i < j < hits@.len() ==> hits@[i] < hits@[j],
            k >= 0,
            cursor == start + k * 0x10000 || cursor == end,
            carry@.len() > 0 ==> k >= 1 && qword_chunk_read(rd, start as int, end as int, k - 1),
            hits@ == qword_seen_upto(memory, rd, start as int, end as int, needle, pt),
            pt <= cursor - start,
            hits@.len() < limit ==> pt == cursor - carry@.len() - start,
        decreases end - cursor,
    {
        let chunk_end = if end - cursor < QWORD_CHUNK_SIZE {
            end
        } else {
            cursor + QWORD_CHUNK_SIZE
        };
        let chunk_len = chunk_end - cursor;
        assert(cursor == start + k * 0x10000);
        let mut buf: Vec<u8> = vec![0u8; chunk_len];
        match runtime.read_exact_at(cursor, buf.as_mut_slice()) {
            Err(_) => {
                proof {
                    assert(!qword_chunk_read(rd, start as int, end as int, k));
                    assert forall|h: int| start + pt <= h < start + (chunk_end - start) implies !#[trigger] qword_seen(
                        memory,
                        rd,
                        start as int,
                        end as int,
                        needle,
                        h,
                    ) by {
                        if qword_seen(memory, rd, start as int, end as int, needle, h) {
                            assert(qword_chunk_read(rd, start as int, end as int, k));
                        }
                    }
                    lemma_seen_skip(memory, rd, start as int, end as int, needle, pt, (chunk_end - start) as nat);
                    pt = (chunk_end - start) as nat;
                    k = k + 1;
                }
                cursor = chunk_end;
                carry = Vec::new();
            },
            Ok(()) => {
                let ghost carry_len = carry@.len();
                let base = cursor - carry.len();
                let mut window = carry;
                window.append(&mut buf);
                assert(window@ =~= mem_bytes(memory, base as int, window@.len()));
                assert(qword_chunk_read(rd, start as int, end as int, k));
                let mut index: usize = 0;
                while index < window.len() && window.len() - index >= 8 && hits.len() < limit
                    invariant
                        index <= window@.len(),
                        window@.len() == chunk_end - base,
                        base >= start,
                        chunk_end <= end,
                        base + window@.len() == chunk_end,
                        window@ == mem_bytes(memory, base as int, window@.len()),
                        forall|i: int| 0 <= i < hits@.len() ==> mem_u64(memory, #[trigger] hits@[i] as int) == needle,
                        hits@.len() <= limit,
                        forall|i: int|
                            0 <= i < hits@.len() ==> start <= #[trigger] hits@[i] && hits@[i] + 8
                                <= chunk_end,
                        forall|i: int| 0 <= i < hits@.len() ==> #[trigger] hits@[i] < base + index,
                        forall|i: int, j: int| 0 <= i < j < hits@.len() ==> hits@[i] < hits@[j],
                        runtime.memory() == memory,
                        runtime.readable() == rd,
                        runtime.mappings() == old(runtime).mappings(),
                        runtime.module_file() == old(runtime).module_file(),
                        k >= 0,
                        cursor == start + k * 0x10000,
                        chunk_end == cursor + chunk_len,
                        chunk_len == (if end - cursor < 0x10000 { end - cursor } else { 0x10000 }),
                        qword_chunk_read(rd, start as int, end as int, k),
                        base == cursor - carry_len,
                        carry_len <= 7,
                        carry_len > 0 ==> k >= 1 && qword_chunk_read(rd, start as int, end as int, k - 1),
                        hits@ == qword_seen_upto(memory, rd, start as int, end as int, needle, pt),
                        pt == base + index - start,
                        window@.len() >= 7 ==> index <= window@.len() - 7,
                        window@.len() < 7 ==> index == 0,
                    decreases window@.len() - index,
                {
                    let ghost h: int = base + index;
                    let ghost before = hits@;
                    proof {
                        assert(window@.subrange(index as int, index + 8) =~= mem_bytes(
                            memory,
                            base + index,
                            8,
                        ).subrange(0, 8));
                        assert forall|j: int|
                            0 <= j && start + j * 0x10000 < h + 8 && h < start + (j + 1) * 0x10000 implies #[trigger] qword_chunk_read(
                            rd,
                            start as int,
                            end as int,
                            j,
                        ) by {
                            assert(j <= k);
                            assert(j >= k - 1);
                            if j == k - 1 {
                                assert(h < cursor);
                            }
                        }
                    }
                    if read_u64_le(window.as_slice(), index) == needle {
                        hits.push(base + index);
                    }
                    proof {
                        assert(qword_seen(memory, rd, start as int, end as int, needle, h) == (mem_u64(memory, h) == needle));
                        pt = pt + 1;
                    }
                    index = index + 1;
                }
                let keep = if window.len() < 7 {
                    0
                } else {
                    window.len() - 7
                };
                carry = vstd::slice::slice_to_vec(
                    vstd::slice::slice_subrange(window.as_slice(), keep, window.len()),
                );
                assert(carry@ =~= mem_bytes(memory, chunk_end - carry@.len(), carry@.len()));
                proof {
                    k = k + 1;
                }
                cursor = chunk_end;
            },
        }
    }
    proof {
        let span: nat = (end - start) as nat;
        if hits@.len() < limit {
            assert forall|h: int| start + pt <= h < start + span implies !#[trigger] qword_seen(
                memory,
                rd,
                start as int,
                end as int,
                needle,
                h,
            ) by {}
            lemma_seen_skip(memory, rd, start as int, end as int, needle, pt, span);
        } else {
            lemma_seen_prefix(memory, rd, start as int, end as int, needle, pt, span);
            let all = qword_seen_upto(memory, rd, start as int, end as int, needle, span);
            if all.len() == limit {
                assert(all.take(limit as int) =~= all);
            }
        }
    }
    hits
}

/// Which mappings a scan looks in.
#[derive(Debug, Clone, Copy, PartialEq, Eq, Structural)]
pub enum MappingFilter {
    /// Every mapping.
    Any,
    /// Writable anonymous memory and the heap.
    WritableAnonymousOrHeap,
}

/// A mapping passes the filter.
pub open spec fn passes_filter(filter: MappingFilter, mapping: MemReaderModuleInfo) -> bool {
    match filter {
        MappingFilter::Any => true,
        MappingFilter::WritableAnonymousOrHeap => has_prefix(mapping.perms@, "rw"@) && (
        mapping.path@ == "[anon]"@ || mapping.path@ == "[heap]"@),
    }
}

/// A mapping is scanned: it passes the filter and is neither empty nor larger
/// than `MAX_REGION_SIZE`.
pub open spec fn scanned(filter: MappingFilter, mapping: MemReaderModuleInfo) -> bool {
    &&& passes_filter(filter, mapping)
    &&& mapping.base < mapping.end
    &&& mapping.end - mapping.base <= MAX_REGION_SIZE
}

fn filter_passes(filter: MappingFilter, mapping: &MemReaderModuleInfo) -> (r: bool)
    ensures
        r == passes_filter(filter, *mapping),
{
    match filter {
        MappingFilter::Any => true,
        MappingFilter::WritableAnonymousOrHeap => starts_with(mapping.perms.as_str(), "rw") && (
        mapping.path == "[anon]".to_owned() || mapping.path == "[heap]".to_owned()),
    }
}

/// The eight bytes at `address` lie in a scanned mapping.
pub open spec fn in_scanned_mapping(
    mappings: Seq<MemReaderModuleInfo>,
    filter: MappingFilter,
    address: usize,
) -> bool {
    exists|m: int|
        0 <= m < mappings.len() && scanned(filter, #[trigger] mappings[m]) && mappings[m].base
            <= address && address + 8 <= mappings[m].end
}

/// The addresses at which a scan of each of the first `n` mappings that are
/// scanned sees `needle`, mapping after mapping.
pub open spec fn mappings_seen(
    memory: spec_fn(int) -> u8,
    readable: spec_fn(int, nat) -> bool,
    mappings: Seq<MemReaderModuleInfo>,
    filter: MappingFilter,
    needle: u64,
    n: nat,
) -> Seq<usize>
    decreases n,
{
    if n == 0 {
        Seq::empty()
    } else {
        let m = mappings[n - 1];
        mappings_seen(memory, readable, mappings, filter, needle, (n - 1) as nat) + (if scanned(filter, m) {
            qword_seen_upto(memory, readable, m.base as int, m.end as int, needle, (m.end - m.base) as nat)
        } else {
            Seq::empty()
        })
    }
}

proof fn lemma_mappings_prefix(
    memory: spec_fn(int) -> u8,
    readable: spec_fn(int, nat) -> bool,
    mappings: Seq<MemReaderModuleInfo>,
    filter: MappingFilter,
    needle: u64,
    a: nat,
    b: nat,
)
    requires
        a <= b,
    ensures
        mappings_seen(memory, readable, mappings, filter, needle, a).len() <= mappings_seen(
            memory,
            readable,
            mappings,
            filter,
            needle,
            b,
        ).len(),
        mappings_seen(memory, readable, mappings, filter, needle, b).take(
            mappings_seen(memory, readable, mappings, filter, needle, a).len() as int,
        ) == mappings_seen(memory, readable, mappings, filter, needle, a),
    decreases b,
{
    let sa = mappings_seen(memory, readable, mappings, filter, needle, a);
    if b == a {
        assert(sa.take(sa.len() as int) =~= sa);
    } else {
        lemma_mappings_prefix(memory, readable, mappings, filter, needle, a, (b - 1) as nat);
        let sb1 = mappings_seen(memory, readable, mappings, filter, needle, (b - 1) as nat);
        let sb = mappings_seen(memory, readable, mappings, filter, needle, b);
        assert(sb.take(sa.len() as int) =~= sb1.take(sa.len() as int));
    }
}

/// The addresses in the scanned mappings whose eight bytes are `needle`, at
/// most `limit` of them, mapping after mapping.
pub fn find_qword_in_mappings<R: HeadlessRuntime>(
    runtime: &mut R,
    mappings: &[MemReaderModuleInfo],
    needle: u64,
    limit: usize,
    filter: MappingFilter,
) -> (hits: Vec<usize>)
    ensures
        final(runtime).memory() == old(runtime).memory(),
        final(runtime).readable() == old(runtime).readable(),
        final(runtime).mappings() == old(runtime).mappings(),
        final(runtime).module_file() == old(runtime).module_file(),
        hits@.len() <= limit,
        forall|i: int|
            0 <= i < hits@.len() ==> in_scanned_mapping(mappings@, filter, #[trigger] hits@[i]),
        forall|i: int| 0 <= i < hits@.len() ==> mem_u64(old(runtime).memory(), #[trigger] hits@[i] as int) == needle,
        hits@ == at_most(
            mappings_seen(old(runtime).memory(), old(runtime).readable(), mappings@, filter, needle, mappings@.len()),
            limit as nat,
        ),
{
    let ghost memory = runtime.memory();
    let ghost rd = runtime.readable();
    let mut hits: Vec<usize> = Vec::new();
    let mut m: usize = 0;
    while m < mappings.len()
        invariant_except_break
            hits@ == at_most(mappings_seen(memory, rd, mappings@, filter, needle, m as nat), limit as nat),
        invariant
            m <= mappings@.len(),
            hits@.len() <= limit,
            forall|i: int|
                0 <= i < hits@.len() ==> in_scanned_mapping(mappings@, filter, #[trigger] hits@[i]),
            runtime.memory() == memory,
            runtime.readable() == old(runtime).readable(),
            runtime.mappings() == old(runtime).mappings(),
            runtime.module_file() == old(runtime).module_file(),
            memory == old(runtime).memory(),
            forall|i: int| 0 <= i < hits@.len() ==> mem_u64(memory, #[trigger] hits@[i] as int) == needle,
            rd == old(runtime).readable(),
        ensures
            hits@ == at_most(mappings_seen(memory, rd, mappings@, filter, needle, mappings@.len()), limit as nat),
        decreases mappings.len() - m,
    {
        let mapping = &mappings[m];
        let ghost seen_before = mappings_seen(memory, rd, mappings@, filter, needle, m as nat);
        if filter_passes(filter, mapping) && mapping.base < mapping.end && mapping.end - mapping.base
            <= MAX_REGION_SIZE {
            let ghost before = hits@;
            let mut found = find_qword_in_range(
                runtime,
                mapping.base,
                mapping.end,
                needle,
                limit - hits.len(),
            );
            let ghost new_hits = found@;
            hits.append(&mut found);
            proof {
                assert forall|i: int| 0 <= i < hits@.len() implies in_scanned_mapping(
                    mappings@,
                    filter,
                    #[trigger] hits@[i],
                ) by {
                    if i >= before.len() {
                        assert(hits@[i] == new_hits[i - before.len()]);
                        assert(scanned(filter, mappings@[m as int]));
                    } else {
                        assert(hits@[i] == before[i]);
                    }
                }
                assert forall|i: int| 0 <= i < hits@.len() implies mem_u64(memory, #[trigger] hits@[i] as int) == needle by {
                    if i >= before.len() {
                        assert(hits@[i] == new_hits[i - before.len()]);
                    } else {
                        assert(hits@[i] == before[i]);
                    }
                }
            }
            proof {
                let mp = mappings@[m as int];
                assert(scanned(filter, mp));
                let r = qword_seen_upto(memory, rd, mp.base as int, mp.end as int, needle, (mp.end - mp.base) as nat);
                lemma_at_most_append(seen_before, r, limit as nat);
                assert(hits@ =~= before + new_hits);
                assert(mappings_seen(memory, rd, mappings@, filter, needle, (m + 1) as nat) == seen_before + r);
            }
            if hits.len() >= limit {
                proof {
                    let total = mappings@.len();
                    lemma_mappings_prefix(memory, rd, mappings@, filter, needle, (m + 1) as nat, total);
                    let s1 = mappings_seen(memory, rd, mappings@, filter, needle, (m + 1) as nat);
                    let sall = mappings_seen(memory, rd, mappings@, filter, needle, total);
                    assert(s1.len() >= limit);
                    assert(sall.take(limit as int) =~= s1.take(limit as int));
                    if sall.len() == limit {
                        assert(sall.take(limit as int) =~= sall);
                    }
                    if s1.len() == limit {
                        assert(s1.take(limit as int) =~= s1);
                    }
                }
                break;
            }
        } else {
            proof {
                let mp = mappings@[m as int];
                assert(!scanned(filter, mp));
                assert(mappings_seen(memory, rd, mappings@, filter, needle, (m + 1) as nat) =~= seen_before);
            }
        }
        m = m + 1;
    }
    hits
}

/// The ranges of the writable anonymous mappings of `modules` that start at
/// most `max_gap` bytes after `module_end`, in their order.
pub open spec fn near_regions(modules: Seq<MemReaderModuleInfo>, module_end: usize, max_gap: usize) -> Seq<
    (usize, usize),
>
    decreases modules.len(),
{
    if modules.len() == 0 {
        Seq::empty()
    } else {
        let last = modules.last();
        let earlier = near_regions(modules.drop_last(), module_end, max_gap);
        if near_anonymous(last, module_end, max_gap) {
            earlier.push((last.base, last.end))
        } else {
            earlier
        }
    }
}

/// The writable anonymous mappings that start at most `max_gap` bytes after
/// `module_end`, as address ranges in their order.
pub fn find_nearby_anon_regions_from_modules(
    modules: &[MemReaderModuleInfo],
    module_end: usize,
    max_gap: usize,
) -> (regions: Vec<(usize, usize)>)
    ensures
        regions@ == near_regions(modules@, module_end, max_gap),
        regions@.len() <= modules@.len(),
        forall|i: int|
            0 <= i < regions@.len() ==> is_near_region(modules@, module_end, max_gap, #[trigger] regions@[i]),
{
    let mut regions: Vec<(usize, usize)> = Vec::new();
    let mut m: usize = 0;
    while m < modules.len()
        invariant
            m <= modules@.len(),
            regions@.len() <= m,
            regions@ == near_regions(modules@.take(m as int), module_end, max_gap),
            forall|i: int|
                0 <= i < regions@.len() ==> is_near_region(modules@, module_end, max_gap, #[trigger] regions@[i]),
        decreases modules.len() - m,
    {
        let module = &modules[m];
        assert(modules@.take(m + 1).drop_last() =~= modules@.take(m as int));
        if starts_with(module.perms.as_str(), "rw") && module.path == "[anon]".to_owned()
            && module.base >= module_end && module.base - module_end <= max_gap {
            let ghost before = regions@;
            regions.push((module.base, module.end));
            proof {
                assert forall|i: int| 0 <= i < regions@.len() implies is_near_region(
                    modules@,
                    module_end,
                    max_gap,
                    #[trigger] regions@[i],
                ) by {
                    if i < before.len() {
                        assert(regions@[i] == before[i]);
                    } else {
                        assert(regions@[i] == (modules@[m as int].base, modules@[m as int].end));
                        assert(near_anonymous(modules@[m as int], module_end, max_gap));
                    }
                }
            }
        }
        m = m + 1;
    }
    assert(modules@.take(m as int) =~= modules@);
    regions
}

/// `region` is the range of a writable anonymous mapping near `module_end`.
pub open spec fn is_near_region(
    modules: Seq<MemReaderModuleInfo>,
    module_end: usize,
    max_gap: usize,
    region: (usize, usize),
) -> bool {
    exists|m: int|
        0 <= m < modules.len() && near_anonymous(#[trigger] modules[m], module_end, max_gap)
            && region == (modules[m].base, modules[m].end)
}

/// A writable anonymous mapping starting at most `max_gap` bytes after
/// `module_end`.
pub open spec fn near_anonymous(module: MemReaderModuleInfo, module_end: usize, max_gap: usize) -> bool {
    &&& has_prefix(module.perms@, "rw"@)
    &&& module.path@ == "[anon]"@
    &&& module.base >= module_end
    &&& module.base - module_end <= max_gap
}

// ---------------------------------------------------------------------------
// The RTTI name in the file
// ---------------------------------------------------------------------------

/// The Itanium-mangled name of a class: its length in decimal, then its name.
pub open spec fn rtti_name(class_name: Seq<u8>) -> Seq<u8> {
    decimal_digits(class_name.len()) + class_name
}

/// `needle` occurs in `haystack` at `i`.
pub open spec fn occurs_at(haystack: Seq<u8>, needle: Seq<u8>, i: int) -> bool {
    0 <= i && i + needle.len() <= haystack.len() && haystack.subrange(i, i + needle.len()) == needle
}

/// The first place where `needle` occurs in `haystack`.
pub fn find_bytes(haystack: &[u8], needle: &[u8]) -> (r: Option<usize>)
    requires
        needle@.len() > 0,
    ensures
        match r {
            Some(i) => occurs_at(haystack@, needle@, i as int) && forall|j: int|
                0 <= j < i ==> !occurs_at(haystack@, needle@, j),
            None => forall|j: int| !occurs_at(haystack@, needle@, j),
        },
{
    if needle.len() > haystack.len() {
        return None;
    }
    let last = haystack.len() - needle.len();
    let mut i: usize = 0;
    while i <= last
        invariant
            last + needle@.len() == haystack@.len(),
            haystack@.len() <= usize::MAX,
            needle@.len() > 0,
            forall|j: int| 0 <= j < i ==> !occurs_at(haystack@, needle@, j),
        decreases last + 1 - i,
    {
        let mut k: usize = 0;
        let mut same = true;
        while k < needle.len()
            invariant
                i <= last,
                last + needle@.len() == haystack@.len(),
                haystack@.len() <= usize::MAX,
                k <= needle@.len(),
                same <==> forall|m: int| 0 <= m < k ==> haystack@[i + m] == needle@[m],
            decreases needle.len() - k,
        {
            if haystack[i + k] != needle[k] {
                same = false;
            }
            k = k + 1;
        }
        if same {
            assert(haystack@.subrange(i as int, i + needle@.len()) =~= needle@);
            return Some(i);
        }
        proof {
            let m = choose|m: int| 0 <= m < needle@.len() && haystack@[i + m] != needle@[m];
            assert(haystack@.subrange(i as int, i + needle@.len())[m] != needle@[m]);
        }
        if i == last {
            proof {
                assert forall|j: int| !occurs_at(haystack@, needle@, j) by {
                    if 0 <= j <= last {
                        assert(j <= i);
                    }
                }
            }
            return None;
        }
        i = i + 1;
    }
    None
}

/// The mapping holds the byte at `file_offset` of its file.
pub open spec fn maps_file_offset(entry: MemReaderModuleInfo, file_offset: usize) -> bool {
    &&& entry.file_offset <= file_offset
    &&& file_offset - entry.file_offset < (if entry.end >= entry.base {
        entry.end - entry.base
    } else {
        0
    })
}

/// The runtime address of the byte at `file_offset` of the module's file,
/// through the first of its mappings that holds it.
pub fn runtime_address_of_file_offset(entries: &[MemReaderModuleInfo], file_offset: usize) -> (r:
    Option<usize>)
    ensures
        match r {
            Some(address) => exists|i: int|
                0 <= i < entries@.len() && maps_file_offset(#[trigger] entries@[i], file_offset)
                    && (forall|j: int| 0 <= j < i ==> !maps_file_offset(entries@[j], file_offset))
                    && address == entries@[i].base + (file_offset - entries@[i].file_offset),
            None => forall|i: int|
                0 <= i < entries@.len() ==> !maps_file_offset(#[trigger] entries@[i], file_offset),
        },
{
    let mut i: usize = 0;
    while i < entries.len()
        invariant
            i <= entries@.len(),
            forall|j: int| 0 <= j < i ==> !maps_file_offset(#[trigger] entries@[j], file_offset),
        decreases entries.len() - i,
    {
        let entry = &entries[i];
        let region_size = entry.end.saturating_sub(entry.base);
        if file_offset >= entry.file_offset && file_offset - entry.file_offset < region_size {
            assert(maps_file_offset(entries@[i as int], file_offset));
            return Some(entry.base + (file_offset - entry.file_offset));
        }
        i = i + 1;
    }
    None
}

// ---------------------------------------------------------------------------
// Resolving the instance
// ---------------------------------------------------------------------------

/// The class whose instance is remembered between reads.
pub const CVIEWRENDER_CLASS_NAME: &'static str = "CViewRender";
/// How far after the client library the instance's memory is first sought.
pub const NEARBY_ANON_MAX_GAP: usize = 0x800000;

/// A remembered instance and the vtable it had.
#[derive(Debug, Clone, Copy, PartialEq, Eq, Structural)]
pub struct ViewRenderCacheEntry {
    pub vtable_addr: usize,
    pub instance_addr: usize,
}

/// Remembered instances, by process id and end of the client library.
#[derive(Debug)]
pub struct ClassInstanceCache {
    entries: Vec<((u32, usize), ViewRenderCacheEntry)>,
}

impl ClassInstanceCache {
    #[verifier::type_invariant]
    spec fn well_formed(self) -> bool {
        forall|i: int, j: int|
            0 <= i < self.entries@.len() && 0 <= j < self.entries@.len() && i != j ==> #[trigger] self.entries@[i].0
                != #[trigger] self.entries@[j].0
    }

    /// The remembered instances by key.
    pub closed spec fn cache_map(&self) -> Map<(u32, usize), ViewRenderCacheEntry> {
        Map::new(
            |key: (u32, usize)| exists|i: int| 0 <= i < self.entries@.len() && #[trigger] self.entries@[i].0 == key,
            |key: (u32, usize)|
                self.entries@[choose|i: int| 0 <= i < self.entries@.len() && #[trigger] self.entries@[i].0 == key].1,
        )
    }

    /// Nothing remembered.
    pub fn new() -> (c: ClassInstanceCache)
        ensures
            c.cache_map() == Map::<(u32, usize), ViewRenderCacheEntry>::empty(),
    {
        let c = ClassInstanceCache { entries: Vec::new() };
        assert(c.cache_map() =~= Map::<(u32, usize), ViewRenderCacheEntry>::empty());
        c
    }

    fn position(&self, key: (u32, usize)) -> (r: Option<usize>)
        ensures
            match r {
                Some(i) => i < self.entries@.len() && self.entries@[i as int].0 == key,
                None => forall|i: int| 0 <= i < self.entries@.len() ==> #[trigger] self.entries@[i].0 != key,
            },
    {
        let mut i: usize = 0;
        while i < self.entries.len()
            invariant
                i <= self.entries@.len(),
                forall|j: int| 0 <= j < i ==> #[trigger] self.entries@[j].0 != key,
            decreases self.entries.len() - i,
        {
            if self.entries[i].0.0 == key.0 && self.entries[i].0.1 == key.1 {
                return Some(i);
            }
            i = i + 1;
        }
        None
    }

    /// The instance remembered under `key`.
    pub fn get(&self, key: (u32, usize)) -> (r: Option<ViewRenderCacheEntry>)
        ensures
            r == (if self.cache_map().contains_key(key) {
                Some(self.cache_map()[key])
            } else {
                None
            }),
    {
        proof {
            use_type_invariant(self);
        }
        match self.position(key) {
            Some(i) => {
                proof {
                    let c = choose|c: int| 0 <= c < self.entries@.len() && #[trigger] self.entries@[c].0 == key;
                    if c != i {
                        assert(self.entries@[c].0 != self.entries@[i as int].0);
                    }
                }
                Some(self.entries[i].1)
            },
            None => None,
        }
    }

    /// Remembers `entry` under `key`.
    pub fn insert(&mut self, key: (u32, usize), entry: ViewRenderCacheEntry)
        ensures
            final(self).cache_map() == old(self).cache_map().insert(key, entry),
    {
        proof {
            use_type_invariant(&*self);
        }
        let ghost before = self.entries@;
        let position = self.position(key);
        let mut entries = Vec::new();
        std::mem::swap(&mut entries, &mut self.entries);
        match position {
            Some(i) => {
                entries.set(i, (key, entry));
            },
            None => {
                entries.push((key, entry));
            },
        }
        let ghost after = entries@;
        proof {
            assert forall|a: int, b: int|
                0 <= a < after.len() && 0 <= b < after.len() && a != b implies #[trigger] after[a].0
                != #[trigger] after[b].0 by {
                if a < before.len() && b < before.len() && (position is None || (a != position->0
                    && b != position->0)) {
                    assert(before[a].0 != before[b].0);
                } else if position is Some {
                    let p = position->0 as int;
                    if a == p {
                        assert(before[p].0 != before[b].0);
                    } else {
                        assert(before[a].0 != before[p].0);
                    }
                }
            }
            let m_after = Map::new(
                |k: (u32, usize)| exists|i: int| 0 <= i < after.len() && #[trigger] after[i].0 == k,
                |k: (u32, usize)| after[choose|i: int| 0 <= i < after.len() && #[trigger] after[i].0 == k].1,
            );
            let m_before = Map::new(
                |k: (u32, usize)| exists|i: int| 0 <= i < before.len() && #[trigger] before[i].0 == k,
                |k: (u32, usize)| before[choose|i: int| 0 <= i < before.len() && #[trigger] before[i].0 == k].1,
            );
            assert forall|k: (u32, usize)| #[trigger] m_after.contains_key(k) == m_before.insert(key, entry).contains_key(k) by {
                if exists|i: int| 0 <= i < before.len() && #[trigger] before[i].0 == k {
                    let i = choose|i: int| 0 <= i < before.len() && #[trigger] before[i].0 == k;
                    assert(after[i].0 == k);
                }
                if exists|i: int| 0 <= i < after.len() && #[trigger] after[i].0 == k {
                    let i = choose|i: int| 0 <= i < after.len() && #[trigger] after[i].0 == k;
                    if i < before.len() && (position is None || i != position->0) {
                        assert(before[i].0 == k);
                    }
                }
                if k == key {
                    match position {
                        Some(p) => assert(after[p as int].0 == k),
                        None => assert(after[before.len() as int].0 == k),
                    }
                }
            }
            assert forall|k: (u32, usize)| m_after.contains_key(k) implies #[trigger] m_after[k] == m_before.insert(key, entry)[k] by {
                let i = choose|i: int| 0 <= i < after.len() && #[trigger] after[i].0 == k;
                if k == key {
                    match position {
                        Some(p) => {
                            if i != p {
                                assert(after[i].0 != after[p as int].0);
                            }
                        },
                        None => {
                            if i != before.len() {
                                assert(after[i].0 != after[before.len() as int].0);
                            }
                        },
                    }
                } else {
                    let j = choose|j: int| 0 <= j < before.len() && #[trigger] before[j].0 == k;
                    assert(after[j].0 == k);
                    if i != j {
                        assert(after[i].0 != after[j].0);
                    }
                }
            }
            assert(m_after =~= m_before.insert(key, entry));
        }
        self.entries = entries;
    }
}

/// The class name of the object at `instance` contains `class_name`.
pub open spec fn class_name_contains(memory: spec_fn(int) -> u8, instance: usize, class_name: Seq<char>) -> bool {
    class_name_at(memory, instance) matches Some(name) && contains_text(name, class_name)
}

/// The instance's class name, read through its vtable, contains `class_name`;
/// false where it cannot be read.
fn class_name_matches<R: HeadlessRuntime>(runtime: &mut R, instance: usize, class_name: &str) -> (r: bool)
    ensures
        final(runtime).memory() == old(runtime).memory(),
        final(runtime).readable() == old(runtime).readable(),
        final(runtime).mappings() == old(runtime).mappings(),
        final(runtime).module_file() == old(runtime).module_file(),
        r == (class_name_readable(old(runtime).memory(), old(runtime).readable(), instance) && class_name_contains(
            old(runtime).memory(),
            instance,
            class_name@,
        )),
{
    match read_instance_class_name(runtime, instance) {
        Ok(Some(name)) => {
            let name_chars = chars_of(name.as_str());
            let wanted = chars_of(class_name);
            contains_chars(&name_chars, &wanted)
        },
        _ => false,
    }
}

/// Where the RTTI name of a class cannot be placed in the client library's
/// memory.
pub const RTTI_UNMAPPED: &'static str = "failed to map RTTI file offset into runtime address";

/// The mappings of the client library among `mods`, in their order.
pub open spec fn client_entries(mods: Seq<MemReaderModuleInfo>) -> Seq<MemReaderModuleInfo> {
    mods.filter(|m: MemReaderModuleInfo| has_suffix(m.path@, "libclient.so"@))
}

/// `needle` occurs first in `haystack` at `o`.
pub open spec fn first_occurrence(haystack: Seq<u8>, needle: Seq<u8>, o: int) -> bool {
    occurs_at(haystack, needle, o) && forall|j: int| 0 <= j < o ==> !occurs_at(haystack, needle, j)
}

/// The mapping at `i` of `entries` is the first that holds file offset `o`.
pub open spec fn maps_first(entries: Seq<MemReaderModuleInfo>, o: int, i: int) -> bool {
    &&& 0 <= i < entries.len()
    &&& 0 <= o
    &&& maps_file_offset(entries[i], o as usize)
    &&& forall|j: int| 0 <= j < i ==> !maps_file_offset(#[trigger] entries[j], o as usize)
}

/// The first hit of a search of the first `n` regions for `needle`, taking
/// the regions in order until one gives a hit.
pub open spec fn region_candidates(
    memory: spec_fn(int) -> u8,
    readable: spec_fn(int, nat) -> bool,
    regions: Seq<(usize, usize)>,
    needle: u64,
    n: nat,
) -> Seq<usize>
    decreases n,
{
    if n == 0 {
        Seq::empty()
    } else {
        let earlier = region_candidates(memory, readable, regions, needle, (n - 1) as nat);
        if earlier.len() > 0 {
            earlier
        } else {
            qword_scan(memory, readable, regions[n - 1].0 as int, regions[n - 1].1 as int, needle, 1)
        }
    }
}

/// The objects found pointing at `vtable`: the first in the writable
/// anonymous mappings near the end `module_end` of the client library, else
/// the first in all writable anonymous memory and the heap.
pub open spec fn instance_candidates(
    memory: spec_fn(int) -> u8,
    readable: spec_fn(int, nat) -> bool,
    mods: Seq<MemReaderModuleInfo>,
    module_end: usize,
    vtable: usize,
) -> Seq<usize> {
    let regions = near_regions(mods, module_end, NEARBY_ANON_MAX_GAP);
    let near = region_candidates(memory, readable, regions, vtable as u64, regions.len());
    if near.len() > 0 {
        near
    } else {
        at_most(
            mappings_seen(memory, readable, mods, MappingFilter::WritableAnonymousOrHeap, vtable as u64, mods.len()),
            1,
        )
    }
}

/// From the RTTI name at `name_addr` on, the search finds no instance: no
/// type information points at the name, the first that does lies below 8,
/// no vtable points at the type information, or no object found pointing at
/// the vtable has a readable class name containing `class_name`.
pub open spec fn rtti_chain_stops(
    memory: spec_fn(int) -> u8,
    readable: spec_fn(int, nat) -> bool,
    mods: Seq<MemReaderModuleInfo>,
    module_end: usize,
    name_addr: usize,
    class_name: Seq<char>,
) -> bool {
    let entries = client_entries(mods);
    let ti = mappings_seen(memory, readable, entries, MappingFilter::Any, name_addr as u64, entries.len());
    let vh = mappings_seen(memory, readable, entries, MappingFilter::Any, (ti[0] - 8) as u64, entries.len());
    let cands = instance_candidates(memory, readable, mods, module_end, (vh[0] + 8) as usize);
    ||| ti.len() == 0
    ||| ti[0] < 8
    ||| vh.len() == 0
    ||| forall|i: int|
        0 <= i < cands.len() ==> !(class_name_readable(memory, readable, #[trigger] cands[i]) && class_name_contains(
            memory,
            cands[i],
            class_name,
        ))
}

proof fn lemma_region_candidates_stay(
    memory: spec_fn(int) -> u8,
    readable: spec_fn(int, nat) -> bool,
    regions: Seq<(usize, usize)>,
    needle: u64,
    a: nat,
    b: nat,
)
    requires
        a <= b,
        region_candidates(memory, readable, regions, needle, a).len() > 0,
    ensures
        region_candidates(memory, readable, regions, needle, b) == region_candidates(memory, readable, regions, needle, a),
    decreases b,
{
    if b > a {
        lemma_region_candidates_stay(memory, readable, regions, needle, a, (b - 1) as nat);
    }
}

/// The end of the client library: the largest end among the mappings whose
/// path ends with `libclient.so`; none where there is no such mapping.
pub fn client_library_end(modules: &[MemReaderModuleInfo]) -> (r: Option<usize>)
    ensures
        r is None <==> forall|i: int| 0 <= i < modules@.len() ==> !has_suffix(#[trigger] modules@[i].path@, "libclient.so"@),
        r matches Some(e) ==> exists|i: int|
            0 <= i < modules@.len() && has_suffix(#[trigger] modules@[i].path@, "libclient.so"@) && modules@[i].end == e,
        r matches Some(e) ==> forall|i: int|
            0 <= i < modules@.len() && has_suffix(#[trigger] modules@[i].path@, "libclient.so"@) ==> modules@[i].end <= e,
{
    let mut best: Option<usize> = None;
    let mut i: usize = 0;
    while i < modules.len()
        invariant
            i <= modules@.len(),
            best is None <==> forall|j: int| 0 <= j < i ==> !has_suffix(#[trigger] modules@[j].path@, "libclient.so"@),
            best matches Some(e) ==> exists|j: int|
                0 <= j < i && has_suffix(#[trigger] modules@[j].path@, "libclient.so"@) && modules@[j].end == e,
            best matches Some(e) ==> forall|j: int|
                0 <= j < i && has_suffix(#[trigger] modules@[j].path@, "libclient.so"@) ==> modules@[j].end <= e,
        decreases modules.len() - i,
    {
        if ends_with(modules[i].path.as_str(), "libclient.so") {
            let end = modules[i].end;
            best = match best {
                Some(e) => if end > e { Some(end) } else { Some(e) },
                None => Some(end),
            };
        }
        i = i + 1;
    }
    best
}

fn copy_module_info(m: &MemReaderModuleInfo) -> (r: MemReaderModuleInfo)
    ensures
        r == *m,
{
    MemReaderModuleInfo {
        base: m.base,
        end: m.end,
        file_offset: m.file_offset,
        perms: m.perms.clone(),
        path: m.path.clone(),
    }
}

/// `cache` remembers the instance at `instance` under some process id and
/// `module_end`.
pub open spec fn remembered_in(cache: Map<(u32, usize), ViewRenderCacheEntry>, module_end: usize, instance: usize) -> bool {
    exists|pid: u32| #[trigger] cache.contains_key((pid, module_end)) && cache[(pid, module_end)].instance_addr == instance
}

/// `after` is `before` with `entry` remembered under `key`.
pub open spec fn remembers(
    before: Map<(u32, usize), ViewRenderCacheEntry>,
    after: Map<(u32, usize), ViewRenderCacheEntry>,
    key: (u32, usize),
    entry: ViewRenderCacheEntry,
) -> bool {
    after == before.insert(key, entry)
}

/// `after` is `before` with the object at `instance` remembered, with the
/// vtable it points at, under some process id and `module_end`.
pub open spec fn remembers_instance(
    memory: spec_fn(int) -> u8,
    before: Map<(u32, usize), ViewRenderCacheEntry>,
    after: Map<(u32, usize), ViewRenderCacheEntry>,
    module_end: usize,
    instance: usize,
) -> bool {
    exists|pid: u32| #[trigger]
        remembers(
            before,
            after,
            (pid, module_end),
            ViewRenderCacheEntry { vtable_addr: mem_u64(memory, instance as int) as usize, instance_addr: instance },
        )
}

/// Finds the live instance of the client library's class `class_name`: the
/// RTTI name in the library's file, the type information pointing at it,
/// the vtable pointing at that, and the first object pointing at the vtable,
/// sought first in writable anonymous memory shortly after the library ending
/// at `module_end`, then in all writable anonymous memory and the heap, whose
/// class name checks out. The instance of `CViewRender` is remembered in
/// `cache` and used again while its vtable and class name still check out.
pub fn resolve_class_instance_addr<R: SnapshotMemory>(
    runtime: &mut R,
    cache: &mut ClassInstanceCache,
    module_end: usize,
    class_name: &str,
) -> (r: Result<Option<usize>, HeadlessError>)
    ensures
        final(runtime).memory() == old(runtime).memory(),
        final(runtime).readable() == old(runtime).readable(),
        final(runtime).mappings() == old(runtime).mappings(),
        final(runtime).module_file() == old(runtime).module_file(),
        r matches Ok(Some(instance)) ==> class_name_contains(old(runtime).memory(), instance, class_name@),
        r matches Ok(None) ==> {
            let file = old(runtime).module_file()("libclient.so"@);
            let rtti = rtti_name(class_name.spec_bytes());
            let entries = client_entries(old(runtime).mappings());
            ||| forall|j: int| !occurs_at(file, rtti, j)
            ||| exists|o: int, i: int|
                first_occurrence(file, rtti, o) && #[trigger] maps_first(entries, o, i) && rtti_chain_stops(
                    old(runtime).memory(),
                    old(runtime).readable(),
                    old(runtime).mappings(),
                    module_end,
                    (entries[i].base + (o - entries[i].file_offset)) as usize,
                    class_name@,
                )
        },
        r matches Err(e) ==> e is Runtime || e == (HeadlessError::Missing { context: RTTI_UNMAPPED }),
        (forall|j: int| !#[trigger] occurs_at(old(runtime).module_file()("libclient.so"@), rtti_name(class_name.spec_bytes()), j))
            ==> {
            ||| r == Ok::<Option<usize>, HeadlessError>(None)
            ||| r matches Err(e) && e is Runtime
            ||| r matches Ok(Some(a)) && class_name@ == CVIEWRENDER_CLASS_NAME@ && remembered_in(
                old(cache).cache_map(),
                module_end,
                a,
            )
        },
        r == Err::<Option<usize>, HeadlessError>(HeadlessError::Missing { context: RTTI_UNMAPPED }) ==> {
            let file = old(runtime).module_file()("libclient.so"@);
            let rtti = rtti_name(class_name.spec_bytes());
            let entries = client_entries(old(runtime).mappings());
            exists|o: int|
                #[trigger] first_occurrence(file, rtti, o) && forall|i: int|
                    0 <= i < entries.len() ==> !maps_file_offset(#[trigger] entries[i], o as usize)
        },
        class_name@ != CVIEWRENDER_CLASS_NAME@ ==> final(cache).cache_map() == old(cache).cache_map(),
        !(r matches Ok(Some(_))) ==> final(cache).cache_map() == old(cache).cache_map(),
        r matches Ok(Some(instance)) ==> final(cache).cache_map() == old(cache).cache_map()
            || remembers_instance(
            old(runtime).memory(),
            old(cache).cache_map(),
            final(cache).cache_map(),
            module_end,
            instance,
        ),
{
    let ghost memory = runtime.memory();
    let key = (runtime.pid(), module_end);
    let remembered = class_name.to_owned() == CVIEWRENDER_CLASS_NAME.to_owned();
    if remembered {
        if let Some(entry) = cache.get(key) {
            let vtable_ok = match runtime.read_u64(entry.instance_addr) {
                Ok(vtable) => vtable as usize == entry.vtable_addr,
                Err(_) => false,
            };
            if vtable_ok && class_name_matches(runtime, entry.instance_addr, class_name) {
                return Ok(Some(entry.instance_addr));
            }
        }
    }
    let modules = runtime.mapped_modules();
    let ghost mods = modules@;
    let ghost rd = runtime.readable();
    let mut module_entries: Vec<MemReaderModuleInfo> = Vec::new();
    let mut m: usize = 0;
    while m < modules.len()
        invariant
            m <= modules@.len(),
            runtime.memory() == memory,
            runtime.readable() == old(runtime).readable(),
            runtime.mappings() == old(runtime).mappings(),
            runtime.module_file() == old(runtime).module_file(),
            memory == old(runtime).memory(),
            cache.cache_map() == old(cache).cache_map(),
            module_entries@ == client_entries(modules@.take(m as int)),
        decreases modules.len() - m,
    {
        proof {
            assert(modules@.take(m + 1) =~= modules@.take(m as int).push(modules@[m as int]));
            modules@.take(m as int).lemma_filter_push(
                modules@[m as int],
                |x: MemReaderModuleInfo| has_suffix(x.path@, "libclient.so"@),
            );
        }
        if ends_with(modules[m].path.as_str(), "libclient.so") {
            module_entries.push(copy_module_info(&modules[m]));
        }
        m = m + 1;
    }
    assert(modules@.take(m as int) =~= modules@);
    let ghost entries = module_entries@;
    assert(entries == client_entries(old(runtime).mappings()));
    let file_bytes = runtime.read_module_file("libclient.so")?;
    let mut rtti: Vec<u8> = Vec::new();
    let name_bytes = class_name.as_bytes();
    push_decimal_digits(&mut rtti, name_bytes.len() as u64);
    let mut b: usize = 0;
    while b < name_bytes.len()
        invariant
            b <= name_bytes@.len(),
            rtti@ == decimal_digits(name_bytes@.len()) + name_bytes@.take(b as int),
        decreases name_bytes.len() - b,
    {
        rtti.push(name_bytes[b]);
        b = b + 1;
        assert(rtti@ =~= decimal_digits(name_bytes@.len()) + name_bytes@.take(b as int));
    }
    assert(name_bytes@.take(name_bytes@.len() as int) =~= name_bytes@);
    assert(rtti@ == rtti_name(name_bytes@));
    assert(rtti@ == rtti_name(class_name.spec_bytes()));
    let name_file_offset = match find_bytes(file_bytes.as_slice(), rtti.as_slice()) {
        Some(offset) => offset,
        None => return Ok(None),
    };
    let ghost o: int = name_file_offset as int;
    assert(first_occurrence(file_bytes@, rtti@, o));
    assert(occurs_at(old(runtime).module_file()("libclient.so"@), rtti_name(class_name.spec_bytes()), o));
    let name_addr = match runtime_address_of_file_offset(module_entries.as_slice(), name_file_offset) {
        Some(address) => address,
        None => {
            return Err(HeadlessError::Missing { context: RTTI_UNMAPPED });
        },
    };
    let ghost i_map: int = choose|i: int|
        0 <= i < entries.len() && maps_file_offset(#[trigger] entries[i], name_file_offset) && (forall|j: int|
            0 <= j < i ==> !maps_file_offset(entries[j], name_file_offset)) && name_addr == entries[i].base + (
        name_file_offset - entries[i].file_offset);
    assert(maps_first(entries, o, i_map));
    assert(name_addr == (entries[i_map].base + (o - entries[i_map].file_offset)) as usize);
    let ghost ti = mappings_seen(memory, rd, entries, MappingFilter::Any, name_addr as u64, entries.len());
    let typeinfo_hits = find_qword_in_mappings(
        runtime,
        module_entries.as_slice(),
        name_addr as u64,
        1,
        MappingFilter::Any,
    );
    if typeinfo_hits.len() == 0 {
        assert(rtti_chain_stops(memory, rd, mods, module_end, name_addr, class_name@));
        return Ok(None);
    }
    let typeinfo_slot = typeinfo_hits[0];
    assert(typeinfo_slot == ti[0]);
    if typeinfo_slot < 8 {
        assert(rtti_chain_stops(memory, rd, mods, module_end, name_addr, class_name@));
        return Ok(None);
    }
    let typeinfo_addr = typeinfo_slot - 8;
    let ghost vh = mappings_seen(memory, rd, entries, MappingFilter::Any, typeinfo_addr as u64, entries.len());
    let vtable_hits = find_qword_in_mappings(
        runtime,
        module_entries.as_slice(),
        typeinfo_addr as u64,
        1,
        MappingFilter::Any,
    );
    if vtable_hits.len() == 0 {
        assert(rtti_chain_stops(memory, rd, mods, module_end, name_addr, class_name@));
        return Ok(None);
    }
    proof {
        assert(in_scanned_mapping(module_entries@, MappingFilter::Any, vtable_hits@[0]));
    }
    let vtable_addr = vtable_hits[0] + 8;
    assert(vtable_addr == (vh[0] + 8) as usize);
    let regions = find_nearby_anon_regions_from_modules(modules.as_slice(), module_end, NEARBY_ANON_MAX_GAP);
    let mut instances: Vec<usize> = Vec::new();
    let mut g: usize = 0;
    while g < regions.len()
        invariant_except_break
            instances@.len() == 0,
            region_candidates(memory, rd, regions@, vtable_addr as u64, g as nat) == Seq::<usize>::empty(),
        invariant
            g <= regions@.len(),
            runtime.memory() == memory,
            runtime.readable() == old(runtime).readable(),
            runtime.mappings() == old(runtime).mappings(),
            runtime.module_file() == old(runtime).module_file(),
            memory == old(runtime).memory(),
            rd == old(runtime).readable(),
            cache.cache_map() == old(cache).cache_map(),
            occurs_at(old(runtime).module_file()("libclient.so"@), rtti_name(class_name.spec_bytes()), o),
            forall|i: int| 0 <= i < instances@.len() ==> mem_u64(memory, #[trigger] instances@[i] as int)
                == vtable_addr as u64,
        ensures
            instances@ == region_candidates(memory, rd, regions@, vtable_addr as u64, regions@.len()),
        decreases regions.len() - g,
    {
        let (start, end) = regions[g];
        let mut found = find_qword_in_range(runtime, start, end, vtable_addr as u64, 1);
        let ghost before = instances@;
        let ghost new_hits = found@;
        instances.append(&mut found);
        proof {
            assert forall|i: int| 0 <= i < instances@.len() implies mem_u64(memory, #[trigger] instances@[i] as int)
                == vtable_addr as u64 by {
                if i >= before.len() {
                    assert(instances@[i] == new_hits[i - before.len()]);
                } else {
                    assert(instances@[i] == before[i]);
                }
            }
            assert(instances@ =~= new_hits);
            assert(region_candidates(memory, rd, regions@, vtable_addr as u64, (g + 1) as nat) == new_hits);
        }
        if instances.len() > 0 {
            proof {
                lemma_region_candidates_stay(memory, rd, regions@, vtable_addr as u64, (g + 1) as nat, regions@.len());
            }
            break;
        }
        g = g + 1;
    }
    if instances.len() == 0 {
        instances = find_qword_in_mappings(
            runtime,
            modules.as_slice(),
            vtable_addr as u64,
            1,
            MappingFilter::WritableAnonymousOrHeap,
        );
    }
    assert(instances@ == instance_candidates(memory, rd, mods, module_end, vtable_addr));
    let mut n: usize = 0;
    while n < instances.len()
        invariant
            n <= instances@.len(),
            cache.cache_map() == old(cache).cache_map(),
            remembered == (class_name@ == CVIEWRENDER_CLASS_NAME@),
            key.1 == module_end,
            runtime.memory() == memory,
            runtime.readable() == old(runtime).readable(),
            runtime.mappings() == old(runtime).mappings(),
            runtime.module_file() == old(runtime).module_file(),
            memory == old(runtime).memory(),
            rd == old(runtime).readable(),
            occurs_at(old(runtime).module_file()("libclient.so"@), rtti_name(class_name.spec_bytes()), o),
            forall|i: int| 0 <= i < instances@.len() ==> mem_u64(memory, #[trigger] instances@[i] as int)
                == vtable_addr as u64,
            forall|i: int|
                0 <= i < n ==> !(class_name_readable(memory, rd, #[trigger] instances@[i]) && class_name_contains(
                    memory,
                    instances@[i],
                    class_name@,
                )),
        decreases instances.len() - n,
    {
        let instance_addr = instances[n];
        if class_name_matches(runtime, instance_addr, class_name) {
            if remembered {
                cache.insert(key, ViewRenderCacheEntry { vtable_addr, instance_addr });
                assert(mem_u64(memory, instance_addr as int) as usize == vtable_addr);
                assert(remembers(
                    old(cache).cache_map(),
                    cache.cache_map(),
                    (key.0, module_end),
                    ViewRenderCacheEntry { vtable_addr, instance_addr },
                ));
            }
            assert(remembered ==> remembers_instance(
                old(runtime).memory(),
                old(cache).cache_map(),
                cache.cache_map(),
                module_end,
                instance_addr,
            ));
            return Ok(Some(instance_addr));
        }
        n = n + 1;
    }
    assert(rtti_chain_stops(memory, rd, mods, module_end, name_addr, class_name@));
    Ok(None)
}

} // verus!

//! Questions asked of an ELF image on disk: where in the file a virtual
//! address lies, and at which virtual address a symbol is defined.
//!
//! Parsing the image is the `object` crate's work; the searches over what it
//! reports are this library's.
use object::{Object, ObjectSegment, ObjectSymbol};
use vstd::prelude::*;

verus! {

#[verifier::external_type_specification]
#[verifier::external_body]
pub struct ExObjectError(object::read::Error);

/// Why an image could not be searched.
#[derive(Debug, Clone, Copy, PartialEq, Eq, Structural)]
pub enum ElfError {
    /// The `object` crate did not accept the bytes as an object file.
    Parse,
    /// The file offset of the address does not fit in 64 bits.
    OffsetOverflow,
}

/// A segment as `object` reports it: virtual address, size in memory, offset
/// of its file data and size of its file data.
pub type SegmentRange = (u64, u64, u64, u64);

/// A symbol as `object` reports it: its name when that is valid UTF-8, and
/// its address.
pub type SymbolEntry = (Option<String>, u64);

/// The segments that `object::File::parse` and `Object::segments` report for
/// an image, in their order; `None` when the bytes are not an object file.
pub uninterp spec fn object_segments(bytes: Seq<u8>) -> Option<Seq<SegmentRange>>;

/// The dynamic symbols and then the symbol table that `object` reports for an
/// image, each in its order, with names as text; `None` when the bytes are not
/// an object file.
pub uninterp spec fn object_symbols(bytes: Seq<u8>) -> Option<
    (Seq<(Option<Seq<char>>, u64)>, Seq<(Option<Seq<char>>, u64)>),
>;

/// The view of a symbol list: names as text.
pub open spec fn symbol_views(v: Seq<SymbolEntry>) -> Seq<(Option<Seq<char>>, u64)> {
    v.map_values(
        |e: SymbolEntry|
            (
                match e.0 {
                    Some(name) => Some(name@),
                    None => None,
                },
                e.1,
            ),
    )
}

/// Parses `bytes` with `object::File::parse` and lists `Object::segments`,
/// each with `address`, `size` and `file_range`. The contract claims only that
/// the list is the one named by `object_segments`, and that the call fails
/// exactly when that name has no list.
#[verifier::external_body]
fn parse_segments(bytes: &[u8]) -> (r: Result<Vec<SegmentRange>, object::read::Error>)
    ensures
        match r {
            Ok(segments) => object_segments(bytes@) == Some(segments@),
            Err(_) => object_segments(bytes@) is None,
        },
{
    let file = object::File::parse(bytes)?;
    Ok(
        file.segments().map(
            |segment| {
                let (offset, size) = segment.file_range();
                (segment.address(), segment.size(), offset, size)
            },
        ).collect(),
    )
}

/// Parses `bytes` with `object::File::parse` and lists `Object::dynamic_symbols`
/// and `Object::symbols`, each symbol with `ObjectSymbol::name` (kept when it
/// is valid UTF-8) and `ObjectSymbol::address`. The contract claims only that
/// the two lists are the ones named by `object_symbols`, and that the call
/// fails exactly when that name has no lists.
#[verifier::external_body]
fn parse_symbols(bytes: &[u8]) -> (r: Result<
    (Vec<SymbolEntry>, Vec<SymbolEntry>),
    object::read::Error,
>)
    ensures
        match r {
            Ok((dynamic, table)) => object_symbols(bytes@) == Some(
                (symbol_views(dynamic@), symbol_views(table@)),
            ),
            Err(_) => object_symbols(bytes@) is None,
        },
{
    let file = object::File::parse(bytes)?;
    let dynamic = file.dynamic_symbols().map(
        |s| (s.name().ok().map(|n| n.to_string()), s.address()),
    ).collect();
    let table = file.symbols().map(|s| (s.name().ok().map(|n| n.to_string()), s.address())).collect();
    Ok((dynamic, table))
}

// ---------------------------------------------------------------------------
// Virtual address to file offset
// ---------------------------------------------------------------------------

/// `a + b`, held at `u64::MAX`.
pub open spec fn saturating_sum(a: u64, b: u64) -> int {
    if a + b > u64::MAX {
        u64::MAX as int
    } else {
        a + b
    }
}

/// `segment` maps `virtual_addr` to a byte of the file: the address lies in the
/// segment, and its offset in the segment lies within the segment's file data.
pub open spec fn maps_to_file(segment: SegmentRange, virtual_addr: u64) -> bool {
    &&& segment.0 <= virtual_addr
    &&& virtual_addr < saturating_sum(segment.0, segment.1)
    &&& virtual_addr - segment.0 < segment.3
}

/// The first segment that maps `virtual_addr` to the file is the one at `i`.
pub open spec fn is_first_mapping(segments: Seq<SegmentRange>, virtual_addr: u64, i: int) -> bool {
    &&& 0 <= i < segments.len()
    &&& maps_to_file(segments[i], virtual_addr)
    &&& forall|j: int| 0 <= j < i ==> !maps_to_file(#[trigger] segments[j], virtual_addr)
}

/// The file offset at which the segment at `i` holds `virtual_addr`.
pub open spec fn file_offset_via(segments: Seq<SegmentRange>, virtual_addr: u64, i: int) -> int {
    segments[i].2 + (virtual_addr - segments[i].0)
}

/// The file offset of `virtual_addr` fits in 64 bits, where there is one.
pub open spec fn file_offset_fits(segments: Seq<SegmentRange>, virtual_addr: u64) -> bool {
    forall|i: int|
        is_first_mapping(segments, virtual_addr, i) ==> #[trigger] file_offset_via(
            segments,
            virtual_addr,
            i,
        ) <= u64::MAX
}

/// At most one segment is the first to map an address.
pub proof fn lemma_first_mapping_unique(segments: Seq<SegmentRange>, virtual_addr: u64, i: int, j: int)
    requires
        is_first_mapping(segments, virtual_addr, i),
        is_first_mapping(segments, virtual_addr, j),
    ensures
        i == j,
{
    if i < j {
        assert(!maps_to_file(segments[i], virtual_addr));
    } else if j < i {
        assert(!maps_to_file(segments[j], virtual_addr));
    }
}

/// What `file_offset_for_virtual_addr` answers for `virtual_addr` in `bytes`.
pub open spec fn file_offset_outcome(bytes: Seq<u8>, virtual_addr: u64) -> Result<Option<u64>, ElfError> {
    match object_segments(bytes) {
        None => Err(ElfError::Parse),
        Some(segments) => if !file_offset_fits(segments, virtual_addr) {
            Err(ElfError::OffsetOverflow)
        } else if exists|i: int| is_first_mapping(segments, virtual_addr, i) {
            Ok(
                Some(
                    file_offset_via(
                        segments,
                        virtual_addr,
                        choose|i: int| is_first_mapping(segments, virtual_addr, i),
                    ) as u64,
                ),
            )
        } else {
            Ok(None)
        },
    }
}

/// The file offset that `virtual_addr` has in the first segment that maps it
/// to the file, or `None` where no segment does.
pub fn file_offset_in_segments(segments: &[SegmentRange], virtual_addr: u64) -> (r: Option<u64>)
    requires
        file_offset_fits(segments@, virtual_addr),
    ensures
        match r {
            Some(offset) => exists|i: int|
                is_first_mapping(segments@, virtual_addr, i) && offset == file_offset_via(
                    segments@,
                    virtual_addr,
                    i,
                ),
            None => forall|i: int|
                0 <= i < segments@.len() ==> !maps_to_file(#[trigger] segments@[i], virtual_addr),
        },
{
    let mut i: usize = 0;
    while i < segments.len()
        invariant
            i <= segments.len(),
            file_offset_fits(segments@, virtual_addr),
            forall|j: int| 0 <= j < i ==> !maps_to_file(#[trigger] segments@[j], virtual_addr),
        decreases segments.len() - i,
    {
        let (address, size, file_offset, file_size) = segments[i];
        if virtual_addr >= address && virtual_addr < address.saturating_add(size) {
            let offset_in_segment = virtual_addr - address;
            if offset_in_segment < file_size {
                assert(is_first_mapping(segments@, virtual_addr, i as int));
                assert(file_offset_via(segments@, virtual_addr, i as int) <= u64::MAX);
                return Some(file_offset + offset_in_segment);
            }
        }
        i = i + 1;
    }
    None
}

/// Where in the file of an ELF image the byte at `virtual_addr` lies: `Ok(None)`
/// where no segment maps it to file data.
pub fn file_offset_for_virtual_addr(bytes: &[u8], virtual_addr: u64) -> (r: Result<
    Option<u64>,
    ElfError,
>)
    ensures
        r == file_offset_outcome(bytes@, virtual_addr),
        match object_segments(bytes@) {
            None => r == Err::<Option<u64>, ElfError>(ElfError::Parse),
            Some(segments) => if file_offset_fits(segments, virtual_addr) {
                r is Ok && match r->Ok_0 {
                    Some(offset) => exists|i: int|
                        is_first_mapping(segments, virtual_addr, i) && offset == file_offset_via(
                            segments,
                            virtual_addr,
                            i,
                        ),
                    None => forall|i: int|
                        0 <= i < segments.len() ==> !maps_to_file(
                            #[trigger] segments[i],
                            virtual_addr,
                        ),
                }
            } else {
                r == Err::<Option<u64>, ElfError>(ElfError::OffsetOverflow)
            },
        },
{
    let segments = match parse_segments(bytes) {
        Ok(segments) => segments,
        Err(_) => return Err(ElfError::Parse),
    };
    if !offset_fits(segments.as_slice(), virtual_addr) {
        return Err(ElfError::OffsetOverflow);
    }
    let found = file_offset_in_segments(segments.as_slice(), virtual_addr);
    proof {
        match found {
            Some(offset) => {
                let i = choose|i: int|
                    is_first_mapping(segments@, virtual_addr, i) && offset == file_offset_via(
                        segments@,
                        virtual_addr,
                        i,
                    );
                let c = choose|c: int| is_first_mapping(segments@, virtual_addr, c);
                lemma_first_mapping_unique(segments@, virtual_addr, i, c);
            },
            None => {
                assert forall|i: int| !is_first_mapping(segments@, virtual_addr, i) by {
                    if 0 <= i < segments@.len() {
                        assert(!maps_to_file(segments@[i], virtual_addr));
                    }
                }
            },
        }
    }
    Ok(found)
}

fn offset_fits(segments: &[SegmentRange], virtual_addr: u64) -> (r: bool)
    ensures
        r == file_offset_fits(segments@, virtual_addr),
{
    let mut i: usize = 0;
    while i < segments.len()
        invariant
            i <= segments.len(),
            forall|j: int| 0 <= j < i ==> !maps_to_file(#[trigger] segments@[j], virtual_addr),
        decreases segments.len() - i,
    {
        let (address, size, file_offset, file_size) = segments[i];
        if virtual_addr >= address && virtual_addr < address.saturating_add(size) && virtual_addr
            - address < file_size {
            let fits = file_offset.checked_add(virtual_addr - address).is_some();
            proof {
                assert(is_first_mapping(segments@, virtual_addr, i as int));
                assert forall|k: int| is_first_mapping(segments@, virtual_addr, k) implies k == i by {
                    if k < i {
                        assert(!maps_to_file(segments@[k], virtual_addr));
                    } else if k > i {
                        assert(!maps_to_file(segments@[i as int], virtual_addr));
                    }
                }
                assert(file_offset_via(segments@, virtual_addr, i as int) == file_offset + (
                virtual_addr - address));
                if fits {
                    assert forall|k: int| is_first_mapping(segments@, virtual_addr, k) implies #[trigger] file_offset_via(
                        segments@,
                        virtual_addr,
                        k,
                    ) <= u64::MAX by {
                        assert(k == i);
                    }
                }
            }
            return fits;
        }
        i = i + 1;
    }
    true
}

// ---------------------------------------------------------------------------
// Symbol lookup
// ---------------------------------------------------------------------------

/// The address of the first entry of `symbols` named `name`.
pub open spec fn first_named(symbols: Seq<(Option<Seq<char>>, u64)>, name: Seq<char>) -> Option<u64>
    decreases symbols.len(),
{
    if symbols.len() == 0 {
        None
    } else if symbols[0].0 == Some(name) {
        Some(symbols[0].1)
    } else {
        first_named(symbols.drop_first(), name)
    }
}

/// The address of the first of the parsed `symbols` named `name`, if any.
pub fn first_named_in(symbols: &Vec<SymbolEntry>, name: &str) -> (r: Option<u64>)
    ensures
        r == first_named(symbol_views(symbols@), name@),
{
    let wanted = name.to_owned();
    let mut i: usize = 0;
    assert(symbol_views(symbols@).skip(0) =~= symbol_views(symbols@));
    while i < symbols.len()
        invariant
            i <= symbols.len(),
            wanted@ == name@,
            first_named(symbol_views(symbols@), name@) == first_named(
                symbol_views(symbols@).skip(i as int),
                name@,
            ),
        decreases symbols.len() - i,
    {
        let ghost rest = symbol_views(symbols@).skip(i as int);
        assert(rest.drop_first() =~= symbol_views(symbols@).skip(i + 1));
        match &symbols[i].0 {
            Some(candidate) => {
                if *candidate == wanted {
                    return Some(symbols[i].1);
                }
            },
            None => {},
        }
        i = i + 1;
    }
    assert(symbol_views(symbols@).skip(i as int) =~= Seq::empty());
    None
}

/// The virtual address of the symbol `symbol_name`, looked up among the
/// dynamic symbols first and then in the symbol table.
pub fn find_symbol_virtual_addr(bytes: &[u8], symbol_name: &str) -> (r: Result<Option<u64>, ElfError>)
    ensures
        match object_symbols(bytes@) {
            None => r == Err::<Option<u64>, ElfError>(ElfError::Parse),
            Some((dynamic, table)) => r == Ok::<Option<u64>, ElfError>(
                match first_named(dynamic, symbol_name@) {
                    Some(address) => Some(address),
                    None => first_named(table, symbol_name@),
                },
            ),
        },
{
    let (dynamic, table) = match parse_symbols(bytes) {
        Ok(lists) => lists,
        Err(_) => return Err(ElfError::Parse),
    };
    match first_named_in(&dynamic, symbol_name) {
        Some(address) => Ok(Some(address)),
        None => Ok(first_named_in(&table, symbol_name)),
    }
}

} // verus!

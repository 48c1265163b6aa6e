use cs2_radar::class_instance::{
    find_nearby_anon_regions_from_modules, find_qword_in_mappings, find_qword_in_range,
    client_library_end, resolve_class_instance_addr, ClassInstanceCache, MappingFilter, SnapshotMemory, RTTI_UNMAPPED,
};
use cs2_radar::client::MemReaderModuleInfo;
use cs2_radar::runtime::{HeadlessError, HeadlessRuntime, ModuleImage};
use cs2_radar::schema::{Class, ModuleScope};

/// Process memory made of regions.
struct Regions {
    regions: Vec<(usize, Vec<u8>)>,
    file: Option<Vec<u8>>,
    modules: Vec<MemReaderModuleInfo>,
}

impl Regions {
    fn new() -> Self {
        Regions { regions: Vec::new(), file: None, modules: Vec::new() }
    }

    fn region(&mut self, base: usize, len: usize) {
        self.regions.push((base, vec![0u8; len]));
    }

    fn write(&mut self, address: usize, bytes: &[u8]) {
        for (base, data) in self.regions.iter_mut() {
            if address >= *base && address + bytes.len() <= *base + data.len() {
                let at = address - *base;
                data[at..at + bytes.len()].copy_from_slice(bytes);
                return;
            }
        }
        panic!("write outside the regions at {address:#x}");
    }

    fn write_u64(&mut self, address: usize, value: u64) {
        self.write(address, &value.to_le_bytes());
    }

    fn write_i32(&mut self, address: usize, value: i32) {
        self.write(address, &value.to_le_bytes());
    }

    fn write_i16(&mut self, address: usize, value: i16) {
        self.write(address, &value.to_le_bytes());
    }

    fn write_text(&mut self, address: usize, text: &str) {
        let mut bytes = text.as_bytes().to_vec();
        bytes.push(0);
        self.write(address, &bytes);
    }
}

impl HeadlessRuntime for Regions {
    fn pid(&self) -> u32 {
        11
    }

    fn module_image(&self, suffix: &str) -> Result<ModuleImage, HeadlessError> {
        Err(HeadlessError::Runtime { message: format!("no module {suffix}") })
    }

    fn read_module_file(&self, suffix: &str) -> Result<Vec<u8>, HeadlessError> {
        match &self.file {
            Some(bytes) => Ok(bytes.clone()),
            None => Err(HeadlessError::Runtime { message: format!("no file {suffix}") }),
        }
    }

    fn scan_module_memory_pattern(
        &mut self,
        _module_suffix: &str,
        _pattern: &str,
    ) -> Result<Option<usize>, HeadlessError> {
        Ok(None)
    }

    fn read_relative_address(
        &mut self,
        _instruction: usize,
        _displacement_offset: usize,
        _instruction_size: usize,
    ) -> Result<usize, HeadlessError> {
        Err(HeadlessError::Runtime { message: "no code".to_string() })
    }

    fn read_exact_at(&mut self, address: usize, buf: &mut [u8]) -> Result<(), HeadlessError> {
        for (base, data) in &self.regions {
            if address >= *base && address.saturating_add(buf.len()) <= *base + data.len() {
                let at = address - *base;
                buf.copy_from_slice(&data[at..at + buf.len()]);
                return Ok(());
            }
        }
        Err(HeadlessError::Runtime { message: format!("unmapped read at {address:#x}") })
    }
}

impl SnapshotMemory for Regions {
    fn mapped_modules(&self) -> Vec<MemReaderModuleInfo> {
        self.modules.clone()
    }
}

fn mapping(base: usize, end: usize, perms: &str, path: &str) -> MemReaderModuleInfo {
    MemReaderModuleInfo { base, end, file_offset: 0, perms: perms.to_string(), path: path.to_string() }
}

const A: usize = 0x7000_0000;

/// Writes a class description at `at` with the given fields, their
/// descriptions at `fields`, and the names after `names`.
fn write_class(mem: &mut Regions, at: usize, name_at: usize, name: &str, size: i32, count: i16, fields: usize) {
    mem.write_u64(at + 0x08, name_at as u64);
    mem.write_text(name_at, name);
    mem.write_i32(at + 0x20, size);
    mem.write_i16(at + 0x24, count);
    mem.write_u64(at + 0x30, fields as u64);
}

fn write_field(mem: &mut Regions, at: usize, name_at: usize, name: &str, offset: i32) {
    mem.write_u64(at, name_at as u64);
    mem.write_text(name_at, name);
    mem.write_i32(at + 0x10, offset);
}

#[test]
fn class_read_gives_name_size_and_fields() {
    let mut mem = Regions::new();
    mem.region(A, 0x2000);
    write_class(&mut mem, A, A + 0x100, "C_BaseEntity", 0x540, 2, A + 0x400);
    write_field(&mut mem, A + 0x400, A + 0x800, "m_iHealth", 0x344);
    write_field(&mut mem, A + 0x420, A + 0x880, "m_iTeamNum", 0x3E3);
    let class = Class::read(&mut mem, A).unwrap();
    assert_eq!(class.name(), "C_BaseEntity");
    assert_eq!(class.size(), 0x540);
    assert_eq!(class.get("m_iHealth"), Some(0x344));
    assert_eq!(class.get("m_iTeamNum"), Some(0x3E3));
    assert_eq!(class.get("m_lifeState"), None);
}

#[test]
fn class_read_skips_fields_of_an_out_of_range_count() {
    let mut mem = Regions::new();
    mem.region(A, 0x2000);
    write_class(&mut mem, A, A + 0x100, "CGameSceneNode", 0x160, -1, A + 0x400);
    write_field(&mut mem, A + 0x400, A + 0x800, "m_bDormant", 0xEF);
    let class = Class::read(&mut mem, A).unwrap();
    assert_eq!(class.name(), "CGameSceneNode");
    assert_eq!(class.get("m_bDormant"), None);
}

#[test]
fn class_read_leaves_out_an_unreadable_field() {
    let mut mem = Regions::new();
    mem.region(A, 0x2000);
    write_class(&mut mem, A, A + 0x100, "C_CSPlayerPawn", 0x1800, 2, A + 0x400);
    mem.write_u64(A + 0x400, 0x10);
    write_field(&mut mem, A + 0x420, A + 0x880, "m_iShotsFired", 0x1420);
    let class = Class::read(&mut mem, A).unwrap();
    assert_eq!(class.get("m_iShotsFired"), Some(0x1420));
}

#[test]
fn class_read_of_unmapped_memory_fails() {
    let mut mem = Regions::new();
    assert!(Class::read(&mut mem, A).is_err());
}

#[test]
fn module_scope_read_collects_bucket_and_blob_classes() {
    let mut mem = Regions::new();
    let scope = A;
    mem.region(A, 0x10000);
    mem.write_text(scope + 0x08, "libclient.so");
    let element = A + 0x8000;
    mem.write_u64(scope + 0x5F0 + 3 * 24 + 0x28, element as u64);
    mem.write_u64(element + 0x10, (A + 0x9000) as u64);
    mem.write_u64(element + 0x08, 0);
    write_class(&mut mem, A + 0x9000, A + 0x9100, "CEntityIdentity", 0x70, 0, 0);
    let blob = A + 0x8100;
    mem.write_u64(scope + 0x580, blob as u64);
    mem.write_u64(blob + 0x10, (A + 0xA000) as u64);
    mem.write_u64(blob, 0);
    write_class(&mut mem, A + 0xA000, A + 0xA100, "C_BaseEntity", 0x540, 1, A + 0xA400);
    write_field(&mut mem, A + 0xA400, A + 0xA800, "m_iHealth", 0x344);
    let read = ModuleScope::read(&mut mem, scope).unwrap();
    assert_eq!(read.name(), "libclient.so");
    assert_eq!(read.get_class("CEntityIdentity").unwrap().size(), 0x70);
    assert_eq!(read.get_class("C_BaseEntity").unwrap().get("m_iHealth"), Some(0x344));
    assert!(read.get_class("CGameSceneNode").is_none());
}

#[test]
fn qword_scan_finds_matches_across_chunks_in_order() {
    let mut mem = Regions::new();
    mem.region(A, 0x20000);
    let needle = 0x1122_3344_5566_7788u64;
    mem.write_u64(A + 0x10, needle);
    mem.write_u64(A + 0xFFFC, needle);
    mem.write_u64(A + 0x18000, needle);
    let hits = find_qword_in_range(&mut mem, A, A + 0x20000, needle, 10);
    assert_eq!(hits, vec![A + 0x10, A + 0xFFFC, A + 0x18000]);
    let first = find_qword_in_range(&mut mem, A, A + 0x20000, needle, 1);
    assert_eq!(first, vec![A + 0x10]);
    assert!(find_qword_in_range(&mut mem, A, A + 0x20000, needle, 0).is_empty());
    assert!(find_qword_in_range(&mut mem, A + 0x100, A + 0x100, needle, 5).is_empty());
}

#[test]
fn qword_scan_skips_unreadable_chunks() {
    let mut mem = Regions::new();
    mem.region(A + 0x10000, 0x10000);
    let needle = 0xDEAD_BEEFu64;
    mem.write_u64(A + 0x10040, needle);
    let hits = find_qword_in_range(&mut mem, A, A + 0x20000, needle, 4);
    assert_eq!(hits, vec![A + 0x10040]);
}

#[test]
fn qword_scan_of_mappings_keeps_to_the_filter() {
    let mut mem = Regions::new();
    mem.region(A, 0x1000);
    mem.region(A + 0x1000, 0x1000);
    let needle = 0x4242u64;
    mem.write_u64(A + 0x20, needle);
    mem.write_u64(A + 0x1020, needle);
    let mappings = vec![
        mapping(A, A + 0x1000, "r-xp", "/game/libclient.so"),
        mapping(A + 0x1000, A + 0x2000, "rw-p", "[anon]"),
    ];
    let any = find_qword_in_mappings(&mut mem, &mappings, needle, 5, MappingFilter::Any);
    assert_eq!(any, vec![A + 0x20, A + 0x1020]);
    let anon =
        find_qword_in_mappings(&mut mem, &mappings, needle, 5, MappingFilter::WritableAnonymousOrHeap);
    assert_eq!(anon, vec![A + 0x1020]);
}

#[test]
fn nearby_anon_regions_are_writable_anonymous_within_the_gap() {
    let modules = vec![
        mapping(0x1000, 0x2000, "r-xp", "/game/libclient.so"),
        mapping(0x2000, 0x3000, "rw-p", "[anon]"),
        mapping(0x5000, 0x6000, "r--p", "[anon]"),
        mapping(0x6000, 0x7000, "rw-p", "[heap]"),
        mapping(0x8000, 0x9000, "rw-p", "[anon]"),
        mapping(0x20000, 0x21000, "rw-p", "[anon]"),
        mapping(0x800, 0x900, "rw-p", "[anon]"),
    ];
    let regions = find_nearby_anon_regions_from_modules(&modules, 0x2000, 0x6000);
    assert_eq!(regions, vec![(0x2000, 0x3000), (0x8000, 0x9000)]);
    assert!(find_nearby_anon_regions_from_modules(&modules, 0x30000, 0x1000).is_empty());
}

/// A client library mapped at `A` from file offset `file_offset`, whose file
/// holds the RTTI name of `CViewRender` at 0x40, with its type information,
/// vtable and an instance in the anonymous memory after it.
fn rtti_world(file_offset: usize) -> Regions {
    let mut mem = Regions::new();
    mem.region(A, 0x2000);
    let mut file = vec![0u8; 0x1000];
    file[0x40..0x40 + 13].copy_from_slice(b"11CViewRender");
    mem.file = Some(file);
    mem.modules.push(MemReaderModuleInfo {
        base: A,
        end: A + 0x1000,
        file_offset,
        perms: "r--p".to_string(),
        path: "/game/bin/linuxsteamrt64/libclient.so".to_string(),
    });
    mem.modules.push(mapping(A + 0x1000, A + 0x2000, "rw-p", "[anon]"));
    let name_addr = A + 0x40;
    mem.write_text(name_addr, "11CViewRender");
    mem.write_u64(A + 0x200, name_addr as u64);
    mem.write_u64(A + 0x300, (A + 0x1F8) as u64);
    mem.write_u64(A + 0x1100, (A + 0x308) as u64);
    mem
}

#[test]
fn class_instance_is_found_through_its_rtti() {
    let mut mem = rtti_world(0);
    let mut cache = ClassInstanceCache::new();
    assert_eq!(resolve_class_instance_addr(&mut mem, &mut cache, A + 0x1000, "CViewRender"), Ok(Some(A + 0x1100)));
    assert_eq!(resolve_class_instance_addr(&mut mem, &mut cache, A + 0x1000, "CViewRender"), Ok(Some(A + 0x1100)));
}

#[test]
fn class_instance_without_rtti_name_is_none() {
    let mut mem = rtti_world(0);
    let mut cache = ClassInstanceCache::new();
    assert_eq!(resolve_class_instance_addr(&mut mem, &mut cache, A + 0x1000, "CMissingClass"), Ok(None));
}

#[test]
fn class_instance_with_unmapped_rtti_name_fails() {
    let mut mem = rtti_world(0x5000);
    let mut cache = ClassInstanceCache::new();
    assert_eq!(
        resolve_class_instance_addr(&mut mem, &mut cache, A + 0x1000, "CViewRender"),
        Err(HeadlessError::Missing { context: RTTI_UNMAPPED })
    );
}

#[test]
fn client_library_end_is_the_largest_end_of_its_mappings() {
    let modules = vec![
        mapping(0x1000, 0x2000, "r--p", "/game/libclient.so"),
        mapping(0x2000, 0x9000, "rw-p", "[anon]"),
        mapping(0x3000, 0x5000, "r-xp", "/game/libclient.so"),
        mapping(0x5000, 0x4800, "rw-p", "/game/libclient.so"),
    ];
    assert_eq!(client_library_end(&modules), Some(0x5000));
    assert_eq!(client_library_end(&modules[1..2]), None);
}

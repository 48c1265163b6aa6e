use cs2_radar::class_instance::SnapshotMemory;
use cs2_radar::client::MemReaderModuleInfo;
use cs2_radar::module_scan::{read_relative_address, relative_target_of, scan_module_memory_pattern};
use cs2_radar::runtime::{HeadlessError, HeadlessRuntime, ModuleImage};
use cs2_radar::snapshot_reader::{
    entity_addr_for_handle, entity_addr_for_index, entity_handle_index, find_global_vars_ptr,
    is_gameplay_player_pawn_class, player_origin_plausible, process_addr_plausible,
    read_controller_score, read_game_time_bits, read_map_name, read_persona_level, read_snapshot,
    read_string_ptr, vec3_plausible, SnapshotOffsets,
};

/// Process memory made of regions, with a list of mappings.
struct Memory {
    regions: Vec<(usize, Vec<u8>)>,
    modules: Vec<MemReaderModuleInfo>,
}

impl Memory {
    fn new() -> Self {
        Memory { regions: Vec::new(), modules: Vec::new() }
    }

    fn region(&mut self, base: usize, len: usize) {
        self.regions.push((base, vec![0u8; len]));
    }

    fn write(&mut self, address: usize, bytes: &[u8]) {
        for (base, data) in self.regions.iter_mut() {
            if address >= *base && address + bytes.len() <= *base + data.len() {
                let at = address - *base;
                data[at..at + bytes.len()].copy_from_slice(bytes);
                return;
            }
        }
        panic!("write outside the regions at {address:#x}");
    }

    fn write_u64(&mut self, address: usize, value: u64) {
        self.write(address, &value.to_le_bytes());
    }

    fn write_u32(&mut self, address: usize, value: u32) {
        self.write(address, &value.to_le_bytes());
    }

    fn write_f32(&mut self, address: usize, value: f32) {
        self.write(address, &value.to_le_bytes());
    }

    fn mapping(&mut self, base: usize, end: usize, perms: &str, path: &str) {
        self.modules.push(MemReaderModuleInfo {
            base,
            end,
            file_offset: 0,
            perms: perms.to_string(),
            path: path.to_string(),
        });
    }
}

impl HeadlessRuntime for Memory {
    fn pid(&self) -> u32 {
        7
    }

    fn module_image(&self, suffix: &str) -> Result<ModuleImage, HeadlessError> {
        Err(HeadlessError::Runtime { message: format!("no module {suffix}") })
    }

    fn read_module_file(&self, suffix: &str) -> Result<Vec<u8>, HeadlessError> {
        Err(HeadlessError::Runtime { message: format!("no file {suffix}") })
    }

    fn scan_module_memory_pattern(
        &mut self,
        module_suffix: &str,
        pattern: &str,
    ) -> Result<Option<usize>, HeadlessError> {
        scan_module_memory_pattern(self, module_suffix, pattern)
    }

    fn read_relative_address(
        &mut self,
        instruction: usize,
        displacement_offset: usize,
        instruction_size: usize,
    ) -> Result<usize, HeadlessError> {
        read_relative_address(self, instruction, displacement_offset, instruction_size)
    }

    fn read_exact_at(&mut self, address: usize, buf: &mut [u8]) -> Result<(), HeadlessError> {
        for (base, data) in &self.regions {
            if address >= *base && address.saturating_add(buf.len()) <= *base + data.len() {
                let at = address - *base;
                buf.copy_from_slice(&data[at..at + buf.len()]);
                return Ok(());
            }
        }
        Err(HeadlessError::Runtime { message: format!("unmapped read at {address:#x}") })
    }
}

impl SnapshotMemory for Memory {
    fn mapped_modules(&self) -> Vec<MemReaderModuleInfo> {
        self.modules.clone()
    }
}

const B: usize = 0x1_0000_0000;
const ER: usize = B + 0x1000;
const CHUNK: usize = B + 0x2000;
const C0: usize = B + 0x8000;
const C1: usize = B + 0x8100;
const P0: usize = B + 0x9000;
const P1: usize = B + 0x9400;
const S0: usize = B + 0xA000;
const S1: usize = B + 0xA100;
const VTABLE: usize = B + 0xB000;
const TYPEINFO: usize = B + 0xB100;
const NAME: usize = B + 0xB200;
const LOCAL_SLOT: usize = B + 0xC000;
const GLOBALS_SLOT: usize = B + 0xC010;
const GLOBALS: usize = B + 0xC100;
const INVENTORY: usize = B + 0xC200;
const LOCAL_HANDLE: u32 = (0x25 << 15) | 200;
const OTHER_HANDLE: u32 = (0x07 << 15) | 201;

fn offsets() -> SnapshotOffsets {
    SnapshotOffsets {
        global_vars_ptr: GLOBALS_SLOT,
        entity_root: ER,
        local_player_controller_ptr: LOCAL_SLOT,
        controller_pawn: 0x10,
        controller_score: 0x18,
        controller_inventory_services: 0x20,
        inventory_persona_public_level: 0x28,
        pawn_health: 0x30,
        pawn_team: 0x34,
        pawn_life_state: 0x38,
        pawn_game_scene_node: 0x20,
        pawn_view_offset: 0x80,
        pawn_eye_angles: 0x40,
        pawn_view_angles: 0x48,
        pawn_shots_fired: 0x50,
        pawn_aim_punch_services: 0x58,
        aim_punch_cache: 0x10,
        pawn_deathmatch_immunity: 0x60,
        game_scene_node_origin: 0xD0,
    }
}

/// A world with the local player (controller entity 1, pawn entity 200) and
/// one other player (controller entity 2, pawn entity 201).
fn world() -> Memory {
    let mut m = Memory::new();
    m.region(B, 0x10000);
    m.write_u64(ER, CHUNK as u64);
    m.write_u64(CHUNK + 0x70, C0 as u64);
    m.write_u64(CHUNK + 2 * 0x70, C1 as u64);
    m.write_u64(CHUNK + 200 * 0x70, P0 as u64);
    m.write_u64(CHUNK + 201 * 0x70, P1 as u64);
    m.write_u64(LOCAL_SLOT, C0 as u64);
    m.write_u32(C0 + 0x10, LOCAL_HANDLE);
    m.write_u32(C0 + 0x18, 42);
    m.write_u64(C0 + 0x20, INVENTORY as u64);
    m.write_u32(INVENTORY + 0x28, 17);
    m.write_u32(C1 + 0x10, OTHER_HANDLE);
    for (pawn, scene, health, team) in [(P0, S0, 100u32, 3u8), (P1, S1, 80, 2)] {
        m.write_u64(pawn, VTABLE as u64);
        m.write_u64(pawn + 0x20, scene as u64);
        m.write_u32(pawn + 0x30, health);
        m.write(pawn + 0x34, &[team]);
        m.write_u32(pawn + 0x38, 0);
        m.write(pawn + 0x60, &[0]);
    }
    m.write_f32(S0 + 0xD0, 10.0);
    m.write_f32(S0 + 0xD4, 20.0);
    m.write_f32(S0 + 0xD8, 30.0);
    m.write_f32(S1 + 0xD0, -500.0);
    m.write_f32(S1 + 0xD4, 1200.5);
    m.write_f32(S1 + 0xD8, 64.0);
    m.write_f32(P0 + 0x80, 0.0);
    m.write_f32(P0 + 0x88, 64.0);
    m.write_f32(P0 + 0x48, 12.5);
    m.write_f32(P0 + 0x4C, -90.0);
    m.write_u32(P0 + 0x50, 3);
    m.write_u64(VTABLE - 8, TYPEINFO as u64);
    m.write_u64(TYPEINFO + 8, NAME as u64);
    m.write(NAME, b"15C_CSPlayerPawn\0");
    m.write_u64(GLOBALS_SLOT, GLOBALS as u64);
    m.write_f32(GLOBALS + 0x30, 123.25);
    m
}

#[test]
fn handles_and_addresses() {
    assert_eq!(entity_handle_index(LOCAL_HANDLE), 200);
    assert_eq!(entity_handle_index(0xFFFF_FFFF), 0x7FFF);
    assert!(!process_addr_plausible(0xFFFF_FFFF));
    assert!(process_addr_plausible(0x1_0000_0000));
    assert!(process_addr_plausible(0x7FFF_FFFF_FFFF));
    assert!(!process_addr_plausible(0x8000_0000_0000));
    assert!(is_gameplay_player_pawn_class("15C_CSPlayerPawn"));
    assert!(!is_gameplay_player_pawn_class("C_CSPlayerPawnBase"));
}

fn bits(v: [f32; 3]) -> [u32; 3] {
    [v[0].to_bits(), v[1].to_bits(), v[2].to_bits()]
}

#[test]
fn plausible_positions_follow_their_floats() {
    let samples = [
        [0.0f32, 0.0, 0.0],
        [1.0, -2.0, 3.0],
        [99_999.0, 0.0, 0.0],
        [100_000.0, 0.0, 0.0],
        [-100_000.0, 1.0, 1.0],
        [f32::NAN, 1.0, 1.0],
        [f32::INFINITY, 1.0, 1.0],
        [f32::EPSILON, 0.0, -0.0],
        [0.0, 2.0 * f32::EPSILON, 0.0],
    ];
    for v in samples {
        let finite = v.iter().all(|x| x.is_finite() && x.abs() < 100_000.0);
        let off_zero = v.iter().any(|x| x.abs() > f32::EPSILON);
        assert_eq!(vec3_plausible(bits(v)), finite, "{v:?}");
        assert_eq!(player_origin_plausible(bits(v)), finite && off_zero, "{v:?}");
    }
}

#[test]
fn entity_lookups_follow_the_list() {
    let mut m = world();
    assert_eq!(entity_addr_for_index(&mut m, ER, 1), Some(C0));
    assert_eq!(entity_addr_for_index(&mut m, ER, 3), None);
    assert_eq!(entity_addr_for_index(&mut m, ER, 512), None);
    assert_eq!(entity_addr_for_handle(&mut m, ER, OTHER_HANDLE), Some(P1));
    assert_eq!(entity_addr_for_index(&mut m, usize::MAX, 600), None);
}

#[test]
fn controller_fields_need_a_controller() {
    let mut m = world();
    assert_eq!(read_controller_score(&mut m, &offsets(), 0), None);
    assert_eq!(read_controller_score(&mut m, &offsets(), C0), Some(42));
    assert_eq!(read_persona_level(&mut m, &offsets(), C0), Some(17));
    assert_eq!(read_persona_level(&mut m, &offsets(), C1), None);
    assert_eq!(read_persona_level(&mut m, &offsets(), 0), None);
}

#[test]
fn strings_and_game_time() {
    let mut m = world();
    m.write_u64(B + 0xC300, NAME as u64);
    assert_eq!(read_string_ptr(&mut m, B + 0xC300), Some("15C_CSPlayerPawn".to_string()));
    assert_eq!(read_string_ptr(&mut m, B + 0xC308), None);
    assert_eq!(read_game_time_bits(&mut m, &offsets()), Some(123.25f32.to_bits()));
    assert_eq!(read_map_name(&mut m), None);
}

#[test]
fn snapshot_reads_local_and_other_players() {
    let mut m = world();
    let snapshot = read_snapshot(&mut m, &offsets());
    assert_eq!(snapshot.map_name, None);
    assert_eq!(snapshot.game_time_bits, Some(123.25f32.to_bits()));
    assert_eq!(snapshot.local_controller, C0);
    assert_eq!(snapshot.local_pawn, Some(P0));
    let local = snapshot.local_player.expect("local player");
    assert_eq!(local.score, Some(42));
    assert_eq!(local.persona_level, Some(17));
    assert_eq!(local.health, Some(100));
    assert_eq!(local.team_num, Some(3));
    assert_eq!(local.life_state, Some(0));
    assert!(local.m_h_player_pawn);
    assert_eq!(local.shots_fired, Some(3));
    assert_eq!(local.origin_bits, Some(bits([10.0, 20.0, 30.0])));
    assert_eq!(local.view_offset_bits, Some(bits([0.0, 0.0, 64.0])));
    assert_eq!(local.view_angles_bits, Some([12.5f32.to_bits(), (-90.0f32).to_bits()]));
    assert_eq!(local.aim_punch_angle_bits, Some([0, 0]));
    assert_eq!(snapshot.other_players.len(), 1);
    let other = snapshot.other_players[0];
    assert_eq!(other.pawn, P1);
    assert_eq!(other.candidate.health, Some(80));
    assert_eq!(other.candidate.team_num, Some(2));
    assert_eq!(other.candidate.gun_game_immunity, Some(false));
    assert_eq!(other.candidate.origin_bits, bits([-500.0, 1200.5, 64.0]));
}

#[test]
fn snapshot_without_local_pawn_reads_no_players() {
    let mut m = world();
    m.write_u32(C0 + 0x10, 0xFFFF_FFFF);
    let snapshot = read_snapshot(&mut m, &offsets());
    assert_eq!(snapshot.local_pawn, None);
    assert!(snapshot.local_player.is_none());
    assert!(snapshot.other_players.is_empty());
    m.write_u64(LOCAL_SLOT, 0);
    let snapshot = read_snapshot(&mut m, &offsets());
    assert_eq!(snapshot.local_controller, 0);
    assert_eq!(snapshot.local_pawn, None);
}

#[test]
fn players_at_the_origin_or_of_other_classes_are_skipped() {
    let mut m = world();
    m.write_f32(S1 + 0xD0, 0.0);
    m.write_f32(S1 + 0xD4, 0.0);
    m.write_f32(S1 + 0xD8, 0.0);
    assert!(read_snapshot(&mut m, &offsets()).other_players.is_empty());
    let mut m = world();
    m.write(NAME, b"11C_BaseEntity\0");
    assert!(read_snapshot(&mut m, &offsets()).other_players.is_empty());
}

#[test]
fn scan_finds_the_first_match_in_readable_mappings_by_base() {
    let mut m = Memory::new();
    m.region(0x1000, 0x3000);
    m.mapping(0x3000, 0x4000, "r-xp", "/game/libclient.so");
    m.mapping(0x1000, 0x2000, "---p", "/game/libclient.so");
    m.mapping(0x2000, 0x3000, "r--p", "/game/libclient.so");
    m.write(0x1100, &[0xAA, 0xBB, 0xCC]);
    m.write(0x2800, &[0xAA, 0x00, 0xCC]);
    m.write(0x3010, &[0xAA, 0x01, 0xCC]);
    assert_eq!(scan_module_memory_pattern(&mut m, "libclient.so", "AA ? CC"), Ok(Some(0x2800)));
    assert_eq!(scan_module_memory_pattern(&mut m, "libclient.so", "AA 01 CC"), Ok(Some(0x3010)));
    assert_eq!(scan_module_memory_pattern(&mut m, "libclient.so", "AA BB CC"), Ok(None));
    assert_eq!(scan_module_memory_pattern(&mut m, "libengine2.so", "AA ? CC"), Ok(None));
    assert_eq!(
        scan_module_memory_pattern(&mut m, "libclient.so", "AA ZZ"),
        Err(HeadlessError::InvalidPattern)
    );
}

#[test]
fn scan_finds_matches_across_chunk_ends() {
    let mut m = Memory::new();
    let base = 0x10_0000;
    let len = 0x80000 + 0x100;
    m.region(base, len);
    m.mapping(base, base + len, "r-xp", "/game/libclient.so");
    let at = base + 0x80000 - 2;
    m.write(at, &[0x48, 0x8D, 0x05, 0x10]);
    assert_eq!(scan_module_memory_pattern(&mut m, "libclient.so", "48 8D 05 10"), Ok(Some(at)));
}

#[test]
fn relative_addresses_add_the_displacement_after_the_instruction() {
    let mut m = Memory::new();
    m.region(0x1000, 0x100);
    m.write(0x1000, &[0x48, 0x8D, 0x05]);
    m.write(0x1003, &(-0x10i32).to_le_bytes());
    assert_eq!(read_relative_address(&mut m, 0x1000, 3, 7), Ok(0x1007 - 0x10));
    assert_eq!(relative_target_of(0x2000, 7, 0x100), Ok(0x2107));
    assert_eq!(relative_target_of(0, 7, -100), Ok((-93i64) as usize));
    assert!(matches!(
        relative_target_of(usize::MAX, 1, 0),
        Err(HeadlessError::AddressOverflow { .. })
    ));
    assert!(read_relative_address(&mut m, 0x5000, 3, 7).is_err());
}

#[test]
fn global_vars_follow_their_load() {
    let mut m = Memory::new();
    m.region(0x4000, 0x100);
    m.mapping(0x4000, 0x4100, "r-xp", "/game/libclient.so");
    let code = [0x48, 0x8D, 0x05, 0x20, 0x00, 0x00, 0x00, 0x48, 0x8B, 0x00, 0x8B, 0x48, 0x10, 0xE9];
    m.write(0x4040, &code);
    assert_eq!(find_global_vars_ptr(&mut m), Ok(0x4047 + 0x20));
    let mut empty = Memory::new();
    assert_eq!(
        find_global_vars_ptr(&mut empty),
        Err(HeadlessError::Missing { context: "missing global vars pattern" })
    );
}

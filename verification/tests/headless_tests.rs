use cs2_radar::interfaces::{read_instance_class_name, read_interface_entries};
use cs2_radar::module_scan::read_relative_address;
use cs2_radar::offsets::{offsets_from_schema, DeadlockedStyleOffsets};
use cs2_radar::players::{
    read_local_player_record, read_radar_player_records, resolve_entity_handle,
    resolve_entity_index, RadarPlayerRecord,
};
use cs2_radar::runtime::{checked_addr, checked_mul, HeadlessError, HeadlessRuntime, ModuleImage};
use cs2_radar::schema::{Class, ModuleScope, SchemaSystem};

/// Process memory made of regions; a read succeeds when it lies in one.
struct MockRuntime {
    regions: Vec<(usize, Vec<u8>)>,
}

impl MockRuntime {
    fn new() -> Self {
        MockRuntime { regions: Vec::new() }
    }

    fn region(&mut self, base: usize, len: usize) {
        self.regions.push((base, vec![0u8; len]));
    }

    fn write(&mut self, address: usize, bytes: &[u8]) {
        for (base, data) in self.regions.iter_mut() {
            if address >= *base && address + bytes.len() <= *base + data.len() {
                let at = address - *base;
                data[at..at + bytes.len()].copy_from_slice(bytes);
                return;
            }
        }
        panic!("write outside the mock's regions at {address:#x}");
    }

    fn write_u64(&mut self, address: usize, value: u64) {
        self.write(address, &value.to_le_bytes());
    }

    fn write_u32(&mut self, address: usize, value: u32) {
        self.write(address, &value.to_le_bytes());
    }
}

impl HeadlessRuntime for MockRuntime {
    fn pid(&self) -> u32 {
        1
    }

    fn module_image(&self, suffix: &str) -> Result<ModuleImage, HeadlessError> {
        Err(HeadlessError::Runtime { message: format!("no module {suffix}") })
    }

    fn read_module_file(&self, suffix: &str) -> Result<Vec<u8>, HeadlessError> {
        Err(HeadlessError::Runtime { message: format!("no file {suffix}") })
    }

    fn scan_module_memory_pattern(
        &mut self,
        _module_suffix: &str,
        _pattern: &str,
    ) -> Result<Option<usize>, HeadlessError> {
        Ok(None)
    }

    fn read_relative_address(
        &mut self,
        instruction: usize,
        displacement_offset: usize,
        instruction_size: usize,
    ) -> Result<usize, HeadlessError> {
        read_relative_address(self, instruction, displacement_offset, instruction_size)
    }

    fn read_exact_at(&mut self, address: usize, buf: &mut [u8]) -> Result<(), HeadlessError> {
        for (base, data) in &self.regions {
            if address >= *base && address.saturating_add(buf.len()) <= *base + data.len() {
                let at = address - *base;
                buf.copy_from_slice(&data[at..at + buf.len()]);
                return Ok(());
            }
        }
        Err(HeadlessError::Runtime { message: format!("unmapped read at {address:#x}") })
    }
}

const ENTITY_ROOT: usize = 0x10000;
const LOCAL_CONTROLLER_SLOT: usize = 0x20000;
const CONTROLLER: usize = 0x30000;
const PAWN: usize = 0x40000;
const BUCKET: usize = 0x50000;
const SCENE: usize = 0x60000;
const IDENTITY_SIZE: usize = 0x78;

fn offsets() -> DeadlockedStyleOffsets {
    DeadlockedStyleOffsets {
        entity_root: ENTITY_ROOT,
        local_player_controller: LOCAL_CONTROLLER_SLOT,
        controller_steam_id: 0x60,
        controller_name: 0x70,
        controller_sanitized_name: None,
        controller_pawn: 0x10,
        controller_score: 0x18,
        controller_inventory_services: 0x20,
        inventory_persona_public_level: 0x28,
        pawn_health: 0x30,
        pawn_team: 0x34,
        pawn_life_state: 0x38,
        pawn_game_scene_node: 0x20,
        pawn_eye_offset: 0x80,
        pawn_eye_angles: 0x40,
        pawn_view_angles: 0x90,
        pawn_shots_fired: 0xB8,
        pawn_aim_punch_angle: 0,
        pawn_aim_punch_services: 0xC0,
        pawn_crosshair_entity: 0xC8,
        pawn_velocity: 0xA0,
        pawn_flash_duration: 0xB0,
        pawn_is_scoped: 0xB4,
        pawn_deathmatch_immunity: 0x3C,
        game_scene_node_dormant: 0x40,
        game_scene_node_origin: 0x50,
        game_scene_node_model_state: 0,
        model_state_skeleton_instance: 0,
        aim_punch_cache: 0,
        entity_identity_size: IDENTITY_SIZE,
    }
}

fn name_bytes(text: &str) -> Vec<u8> {
    let mut bytes = text.as_bytes().to_vec();
    bytes.resize(128, 0);
    bytes
}

/// A process with one player controller (entity 1) whose pawn is entity 2,
/// which is also the local player.
fn world() -> MockRuntime {
    let mut rt = MockRuntime::new();
    rt.region(ENTITY_ROOT, 64 * 8);
    rt.region(LOCAL_CONTROLLER_SLOT, 8);
    rt.region(CONTROLLER, 0x100);
    rt.region(PAWN, 0x100);
    rt.region(BUCKET, 512 * IDENTITY_SIZE);
    rt.region(SCENE, 0x100);
    rt.region(0x70000, 0x20);
    rt.region(0x80000, 0x200);
    rt.region(0x90000, 0x400);

    rt.write_u64(ENTITY_ROOT, BUCKET as u64);
    rt.write_u64(LOCAL_CONTROLLER_SLOT, CONTROLLER as u64);
    rt.write_u64(BUCKET + IDENTITY_SIZE, CONTROLLER as u64);
    rt.write_u32(BUCKET + IDENTITY_SIZE + 0x10, 0x0001_0001);
    rt.write_u64(BUCKET + 2 * IDENTITY_SIZE, PAWN as u64);
    rt.write_u32(BUCKET + 2 * IDENTITY_SIZE + 0x10, 0x0002_0002);

    rt.write_u64(CONTROLLER, 0x70008);
    rt.write_u32(CONTROLLER + 0x10, 0x0004_0002);
    rt.write_u64(CONTROLLER + 0x60, 76561198000000001);
    rt.write_u64(CONTROLLER + 0x70, 0x90200);

    rt.write_u64(PAWN, 0x70018);
    rt.write_u64(PAWN + 0x20, SCENE as u64);
    rt.write_u32(PAWN + 0x30, 100);
    rt.write_u32(PAWN + 0x34, 3);
    rt.write(PAWN + 0x80, &[0, 0, 0, 0, 0, 0, 0, 0, 0, 0, 0x80, 0x42]);
    rt.write_u32(PAWN + 0x90, 1.5f32.to_bits());
    rt.write_u32(PAWN + 0x94, (-20.0f32).to_bits());
    rt.write_u32(PAWN + 0xB0, 0);
    rt.write(PAWN + 0xB4, &[1]);
    rt.write_u32(PAWN + 0xB8, 4);
    rt.write_u32(PAWN + 0xC8, 7);

    rt.write_u32(SCENE + 0x50, 1.0f32.to_bits());
    rt.write_u32(SCENE + 0x54, 2.0f32.to_bits());
    rt.write_u32(SCENE + 0x58, 3.0f32.to_bits());

    rt.write_u64(0x70000, 0x80000);
    rt.write_u64(0x70010, 0x80100);
    rt.write_u64(0x80008, 0x90000);
    rt.write_u64(0x80108, 0x90100);
    rt.write(0x90000, &name_bytes("19CCSPlayerController"));
    rt.write(0x90100, &name_bytes("14C_CSPlayerPawn"));
    rt.write(0x90200, &name_bytes("  Alice \t"));
    rt
}

#[test]
fn address_arithmetic_reports_overflow() {
    assert_eq!(checked_addr(0x1000, 0x10, "x"), Ok(0x1010));
    assert_eq!(
        checked_addr(usize::MAX, 1, "x"),
        Err(HeadlessError::AddressOverflow { context: "x", base: usize::MAX, offset: 1 })
    );
    assert_eq!(checked_mul(3, 8, "y"), Ok(24));
    assert!(matches!(checked_mul(usize::MAX, 2, "y"), Err(HeadlessError::MultiplicationOverflow { .. })));
}

#[test]
fn entities_resolve_through_their_bucket() {
    let mut rt = world();
    let offsets = offsets();
    assert_eq!(resolve_entity_index(&mut rt, &offsets, 1), Ok(Some(CONTROLLER)));
    assert_eq!(resolve_entity_handle(&mut rt, &offsets, 0x0004_0002), Ok(Some(PAWN)));
    assert_eq!(resolve_entity_index(&mut rt, &offsets, 3), Ok(None));
    assert_eq!(resolve_entity_index(&mut rt, &offsets, 600), Ok(None));
    assert_eq!(
        read_instance_class_name(&mut rt, CONTROLLER),
        Ok(Some("19CCSPlayerController".to_string()))
    );
}

#[test]
fn radar_players_are_read_from_the_entity_list() {
    let mut rt = world();
    let players = read_radar_player_records(&mut rt, &offsets()).expect("players");
    assert_eq!(
        players,
        vec![RadarPlayerRecord {
            controller: CONTROLLER,
            pawn: PAWN,
            name: "Alice".to_string(),
            steam_id: 76561198000000001,
            health: 100,
            team_num: 3,
            life_state: 0,
            origin_bits: [1.0f32.to_bits(), 2.0f32.to_bits(), 3.0f32.to_bits()],
            dormant: false,
            deathmatch_immunity: false,
            is_local: true,
        }]
    );
}

#[test]
fn identities_out_of_place_are_skipped() {
    let mut rt = world();
    rt.write_u32(BUCKET + IDENTITY_SIZE + 0x10, 0x0001_0005);
    let players = read_radar_player_records(&mut rt, &offsets()).expect("players");
    assert!(players.is_empty());
}

#[test]
fn local_player_is_read_with_its_pawn() {
    let mut rt = world();
    let local = read_local_player_record(&mut rt, &offsets()).expect("read").expect("local");
    assert_eq!(local.controller, CONTROLLER);
    assert_eq!(local.pawn, PAWN);
    assert_eq!(local.health, 100);
    assert_eq!(local.team_num, 3);
    assert_eq!(local.shots_fired, 4);
    assert!(local.is_scoped);
    assert_eq!(local.crosshair_entity_index, 7);
    assert_eq!(local.view_angles_bits, [1.5f32.to_bits(), (-20.0f32).to_bits()]);
    assert_eq!(local.eye_offset_bits[2], 64.0f32.to_bits());
    assert_eq!(local.aim_punch_angle_bits, [0, 0]);
    rt.write_u64(LOCAL_CONTROLLER_SLOT, 0);
    assert_eq!(read_local_player_record(&mut rt, &offsets()).expect("read"), None);
}

#[test]
fn interface_registry_entries_are_read_until_an_empty_name() {
    let mut rt = MockRuntime::new();
    rt.region(0xA000, 0x100);
    rt.region(0xB000, 0x200);
    rt.write_u64(0xA000, 0x1111);
    rt.write_u64(0xA008, 0xB000);
    rt.write_u64(0xA010, 0xA020);
    rt.write_u64(0xA020, 0x2222);
    rt.write_u64(0xA028, 0xB080);
    rt.write_u64(0xA030, 0xA040);
    rt.write_u64(0xA048, 0xB100);
    rt.write(0xB000, b"Source2Client002\0");
    rt.write(0xB080, b"NetworkClientService_001\0");
    let entries = read_interface_entries(&mut rt, 0xA000, 256).expect("entries");
    assert_eq!(entries.len(), 2);
    assert_eq!(entries[0].name, "Source2Client002");
    assert_eq!(entries[0].create_fn, 0x1111);
    assert_eq!(entries[1].name, "NetworkClientService_001");
    let limited = read_interface_entries(&mut rt, 0xA000, 1).expect("entries");
    assert_eq!(limited.len(), 1);
}

fn class(name: &str, size: i32, fields: &[(&str, u64)]) -> Class {
    let mut class = Class::new(name.to_string(), size);
    for (field, offset) in fields {
        class.insert_field(field.to_string(), *offset);
    }
    class
}

fn client_scope(skip: &str) -> ModuleScope {
    let mut scope = ModuleScope::new("libclient.so".to_string());
    let classes: Vec<Class> = vec![
        class("CEntityIdentity", 0x70, &[]),
        class("CBasePlayerController", 0x600, &[("m_steamID", 0x6C0), ("m_hPawn", 0x60C)]),
        class(
            "CCSPlayerController",
            0x800,
            &[
                ("m_iszPlayerName", 0x640),
                ("m_sSanitizedPlayerName", 0x770),
                ("m_iScore", 0x7F0),
                ("m_pInventoryServices", 0x700),
                ("m_steamID", 0x1),
                ("m_hPawn", 0x2),
            ],
        ),
        class("CCSPlayerController_InventoryServices", 0x100, &[("m_nPersonaDataPublicLevel", 0x5C)]),
        class(
            "C_BaseEntity",
            0x400,
            &[
                ("m_iHealth", 0x344),
                ("m_iTeamNum", 0x3E3),
                ("m_lifeState", 0x348),
                ("m_pGameSceneNode", 0x328),
                ("m_vecAbsVelocity", 0x3D0),
            ],
        ),
        class("C_BaseModelEntity", 0x900, &[("m_vecViewOffset", 0xCB0)]),
        class(
            "C_CSPlayerPawn",
            0x1800,
            &[
                ("m_angEyeAngles", 0x1438),
                ("m_iShotsFired", 0x23FC),
                ("m_aimPunchAngle", 0x1584),
                ("m_pAimPunchServices", 0x13F0),
                ("m_iIDEntIndex", 0x1458),
                ("m_bIsScoped", 0x23E8),
                ("m_bGunGameImmunity", 0x13A4),
            ],
        ),
        class("C_BasePlayerPawn", 0x1000, &[("v_angle", 0x1388)]),
        class("C_CSPlayerPawnBase", 0x1400, &[("m_flFlashDuration", 0x1364)]),
        class("CGameSceneNode", 0x150, &[("m_bDormant", 0xEF), ("m_vecAbsOrigin", 0xD0)]),
        class("CSkeletonInstance", 0x400, &[("m_modelState", 0x170)]),
        class("CBodyComponentSkeletonInstance", 0x500, &[("m_skeletonInstance", 0x80)]),
        class("CCSPlayer_AimPunchServices", 0x100, &[("m_unpredictableBaseTick", 0x10)]),
    ];
    for class in classes {
        let name = class.name().clone();
        if name != skip {
            scope.insert_class(name, class);
        }
    }
    scope
}

fn schema(skip: &str) -> SchemaSystem {
    let mut schema = SchemaSystem::new();
    schema.insert_scope("libclient.so".to_string(), client_scope(skip));
    schema
}

#[test]
fn schema_lookups_follow_the_last_insert() {
    let schema = schema("");
    let scope = schema.get_library("libclient.so").expect("scope");
    let pawn = scope.get_class("C_CSPlayerPawn").expect("class");
    assert_eq!(pawn.get("m_iShotsFired"), Some(0x23FC));
    assert_eq!(pawn.get("m_missing"), None);
    assert_eq!(pawn.size(), 0x1800);
    assert!(schema.get_library("libengine2.so").is_none());
    let mut class = class("X", 4, &[("a", 1)]);
    class.insert_field("a".to_string(), 2);
    assert_eq!(class.get("a"), Some(2));
}

#[test]
fn offsets_come_from_the_schema_with_fallbacks() {
    let offsets = offsets_from_schema(0x1000, 0x2000, &schema("")).expect("offsets");
    assert_eq!(offsets.entity_root, 0x1000);
    assert_eq!(offsets.local_player_controller, 0x2000);
    assert_eq!(offsets.controller_steam_id, 0x6C0);
    assert_eq!(offsets.controller_name, 0x640);
    assert_eq!(offsets.controller_sanitized_name, Some(0x770));
    assert_eq!(offsets.controller_pawn, 0x60C);
    assert_eq!(offsets.pawn_team, 0x3E3);
    assert_eq!(offsets.pawn_aim_punch_angle, 0x1584);
    assert_eq!(offsets.aim_punch_cache, 0);
    assert_eq!(offsets.entity_identity_size, 0x70);

    let without_base = offsets_from_schema(0, 0, &schema("CBasePlayerController")).expect("offsets");
    assert_eq!(without_base.controller_steam_id, 0x1);
    assert_eq!(without_base.controller_pawn, 0x2);
}

#[test]
fn offsets_report_the_first_missing_field() {
    assert_eq!(
        offsets_from_schema(0, 0, &schema("CCSPlayer_AimPunchServices")),
        Err(HeadlessError::Missing { context: "missing CCSPlayer_AimPunchServices::m_unpredictableBaseTick" })
    );
    assert_eq!(
        offsets_from_schema(0, 0, &schema("C_BaseEntity")),
        Err(HeadlessError::Missing { context: "missing C_BaseEntity::m_iHealth" })
    );
    assert_eq!(
        offsets_from_schema(0, 0, &schema("CEntityIdentity")),
        Err(HeadlessError::Missing { context: "missing CEntityIdentity schema class" })
    );
    assert_eq!(
        offsets_from_schema(0, 0, &SchemaSystem::new()),
        Err(HeadlessError::Missing { context: "missing libclient.so schema scope" })
    );
}

#[test]
fn local_player_is_none_without_controller_pawn_or_scene_node() {
    let mut rt = world();
    rt.write_u64(LOCAL_CONTROLLER_SLOT, 0);
    assert!(matches!(read_local_player_record(&mut rt, &offsets()), Ok(None)));

    let mut rt = world();
    rt.write_u32(CONTROLLER + 0x10, 0xFFFF_FFFF);
    assert!(matches!(read_local_player_record(&mut rt, &offsets()), Ok(None)));

    let mut rt = world();
    rt.write_u64(BUCKET + 2 * IDENTITY_SIZE, 0);
    assert!(matches!(read_local_player_record(&mut rt, &offsets()), Ok(None)));

    let mut rt = world();
    rt.write_u64(PAWN + 0x20, 0);
    assert!(matches!(read_local_player_record(&mut rt, &offsets()), Ok(None)));
}

#[test]
fn local_player_read_fails_where_its_controller_cannot_be_read() {
    let mut rt = world();
    let mut offsets = offsets();
    offsets.local_player_controller = 0x5555_0000;
    assert!(read_local_player_record(&mut rt, &offsets).is_err());
}

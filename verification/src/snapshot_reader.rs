//! Reading a snapshot of the game through the memory reader: the entity list
//! walk, the local player's fields, the other live players and the map name.
//!
//! Reads return whatever the process holds at the time, so the contracts
//! speak of what the reading itself decides: which addresses are followed,
//! which values are refused, and how the parts of a snapshot relate. Values
//! read as `f32` are carried as their bits; the view matrix and the screen
//! projections, which need floating-point arithmetic, are the program's.
use vstd::prelude::*;

use crate::class_instance::SnapshotMemory;
use crate::client::MemReaderModuleInfo;
use crate::interfaces::{class_name_at, ends_with, interface_found, read_instance_class_name, resolve_interface_instance};
use crate::module_scan::{read_relative_address, relative_target, scan_module_memory_pattern, scanned_segment};
use crate::offsets::DeadlockedStyleOffsets;
use crate::players::{handle_index, read_vec3_bits, INVALID_HANDLE};
use crate::runtime::{bits_at, c_string_at, checked_addr, checked_mul, mem_u32, mem_u64, HeadlessError, HeadlessRuntime, ModuleImage};
use crate::text::{c_string_text, has_suffix};

verus! {

/// Where the fields a snapshot reads are.
#[derive(Debug, Clone, Copy, PartialEq, Eq, Structural)]
pub struct SnapshotOffsets {
    pub global_vars_ptr: usize,
    pub entity_root: usize,
    pub local_player_controller_ptr: usize,
    pub controller_pawn: usize,
    pub controller_score: usize,
    pub controller_inventory_services: usize,
    pub inventory_persona_public_level: usize,
    pub pawn_health: usize,
    pub pawn_team: usize,
    pub pawn_life_state: usize,
    pub pawn_game_scene_node: usize,
    pub pawn_view_offset: usize,
    pub pawn_eye_angles: usize,
    pub pawn_view_angles: usize,
    pub pawn_shots_fired: usize,
    pub pawn_aim_punch_services: usize,
    pub aim_punch_cache: usize,
    pub pawn_deathmatch_immunity: usize,
    pub game_scene_node_origin: usize,
}

impl SnapshotOffsets {
    /// The snapshot's offsets taken from those found through the schema, with
    /// the global variables' pointer at `global_vars_ptr`.
    pub fn from_deadlocked(offsets: &DeadlockedStyleOffsets, global_vars_ptr: usize) -> (r: Self)
        ensures
            r.global_vars_ptr == global_vars_ptr,
            r.entity_root == offsets.entity_root,
            r.local_player_controller_ptr == offsets.local_player_controller,
            r.controller_pawn == offsets.controller_pawn as usize,
            r.controller_score == offsets.controller_score as usize,
            r.controller_inventory_services == offsets.controller_inventory_services as usize,
            r.inventory_persona_public_level == offsets.inventory_persona_public_level as usize,
            r.pawn_health == offsets.pawn_health as usize,
            r.pawn_team == offsets.pawn_team as usize,
            r.pawn_life_state == offsets.pawn_life_state as usize,
            r.pawn_game_scene_node == offsets.pawn_game_scene_node as usize,
            r.pawn_view_offset == offsets.pawn_eye_offset as usize,
            r.pawn_eye_angles == offsets.pawn_eye_angles as usize,
            r.pawn_view_angles == offsets.pawn_view_angles as usize,
            r.pawn_shots_fired == offsets.pawn_shots_fired as usize,
            r.pawn_aim_punch_services == offsets.pawn_aim_punch_services as usize,
            r.aim_punch_cache == offsets.aim_punch_cache as usize,
            r.pawn_deathmatch_immunity == offsets.pawn_deathmatch_immunity as usize,
            r.game_scene_node_origin == offsets.game_scene_node_origin as usize,
    {
        SnapshotOffsets {
            global_vars_ptr,
            entity_root: offsets.entity_root,
            local_player_controller_ptr: offsets.local_player_controller,
            controller_pawn: offsets.controller_pawn as usize,
            controller_score: offsets.controller_score as usize,
            controller_inventory_services: offsets.controller_inventory_services as usize,
            inventory_persona_public_level: offsets.inventory_persona_public_level as usize,
            pawn_health: offsets.pawn_health as usize,
            pawn_team: offsets.pawn_team as usize,
            pawn_life_state: offsets.pawn_life_state as usize,
            pawn_game_scene_node: offsets.pawn_game_scene_node as usize,
            pawn_view_offset: offsets.pawn_eye_offset as usize,
            pawn_eye_angles: offsets.pawn_eye_angles as usize,
            pawn_view_angles: offsets.pawn_view_angles as usize,
            pawn_shots_fired: offsets.pawn_shots_fired as usize,
            pawn_aim_punch_services: offsets.pawn_aim_punch_services as usize,
            aim_punch_cache: offsets.aim_punch_cache as usize,
            pawn_deathmatch_immunity: offsets.pawn_deathmatch_immunity as usize,
            game_scene_node_origin: offsets.game_scene_node_origin as usize,
        }
    }
}

/// The size of an entity's record in a chunk of the entity list.
pub const ENTITY_RECORD_STRIDE: usize = 0x70;
/// The size of a chunk pointer of the entity list.
pub const ENTITY_LIST_CHUNK_PTR_STRIDE: usize = 0x8;
/// The mask of an entity's place within its chunk.
pub const ENTITY_LIST_CHUNK_MASK: usize = 0x1FF;
/// The mask of the entity index within a handle.
pub const ENTITY_HANDLE_INDEX_MASK: u32 = 0x7FFF;
/// How many player slots the entity list begins with.
pub const PLAYER_SLOT_COUNT: usize = 64;
/// The most aim punch samples that are looked at.
pub const AIM_PUNCH_CACHE_MAX_SAMPLES: usize = 256;
/// Where the game time lies in the global variables.
pub const GLOBAL_VARS_GAME_TIME_OFFSET: usize = 0x30;
/// The interface through which the map name is found.
pub const NETWORK_CLIENT_SERVICE_INTERFACE: &'static str = "NetworkClientService_001";
/// Where the network client service holds its game client.
pub const NETWORK_SERVICE_GAME_CLIENT_OFFSET: usize = 0xA0;
/// Where the game client holds the map's path.
pub const NETWORK_GAME_CLIENT_MAP_PATH_OFFSET: usize = 0x220;
/// Where the game client holds the map's name.
pub const NETWORK_GAME_CLIENT_MAP_NAME_OFFSET: usize = 0x228;
/// The pattern of the instruction that loads the global variables.
pub const GLOBAL_VARS_PATTERN: &'static str = "48 8D 05 ? ? ? ? 48 8B 00 8B 48 ? E9";

// ---------------------------------------------------------------------------
// Addresses and names
// ---------------------------------------------------------------------------

/// The entity index a handle refers to.
pub fn entity_handle_index(handle: u32) -> (r: u32)
    ensures
        r == handle_index(handle),
        r < 0x8000,
{
    assert(handle & 0x7FFF < 0x8000) by (bit_vector);
    handle & ENTITY_HANDLE_INDEX_MASK
}

/// An address in the part of a process's address space where its heap and
/// mappings lie: from 4 GiB up to the top of the lower half.
pub open spec fn plausible_process_addr(address: int) -> bool {
    0x1_0000_0000 <= address < 0x8000_0000_0000
}

/// Whether `address` can be an object of the process.
pub fn process_addr_plausible(address: usize) -> (r: bool)
    ensures
        r == plausible_process_addr(address as int),
{
    let wide = address as u64;
    0x1_0000_0000u64 <= wide && wide < 0x8000_0000_0000u64
}

/// Whether a class is the pawn of a player in the game.
pub fn is_gameplay_player_pawn_class(class_name: &str) -> (r: bool)
    ensures
        r == has_suffix(class_name@, "C_CSPlayerPawn"@),
{
    ends_with(class_name, "C_CSPlayerPawn")
}

// ---------------------------------------------------------------------------
// What the reads give, in terms of the process's memory
// ---------------------------------------------------------------------------

/// The entity at `index` of the entity list at `list` in `memory`: the record
/// in the chunk its high bits select, at the place its low nine bits give;
/// none where the chunk or the record is null or an address leaves the
/// address space.
pub open spec fn entity_at_index(memory: spec_fn(int) -> u8, list: usize, index: usize) -> Option<usize> {
    let chunk_ptr = list + (index >> 9) * 8;
    let chunk = mem_u64(memory, chunk_ptr) as usize;
    let record = chunk + (index & 0x1FF) * 0x70;
    let entity = mem_u64(memory, record) as usize;
    if chunk_ptr > usize::MAX || chunk == 0 || record > usize::MAX || entity == 0 {
        None
    } else {
        Some(entity)
    }
}

/// The text a pointer slot at `slot` points to: the NUL-terminated text in
/// the 128 bytes there; none where the slot is null.
pub open spec fn string_at_slot(memory: spec_fn(int) -> u8, slot: int) -> Option<Seq<char>> {
    let ptr = mem_u64(memory, slot) as usize;
    if ptr == 0 {
        None
    } else {
        Some(c_string_at(memory, ptr as int, 128))
    }
}

/// `text` is the map name held by the game client of the network client
/// service at `service`: its map name, or its map path.
pub open spec fn map_name_of_service(memory: spec_fn(int) -> u8, service: usize, text: Seq<char>) -> bool {
    let client = mem_u64(memory, service + NETWORK_SERVICE_GAME_CLIENT_OFFSET) as usize;
    &&& client != 0
    &&& (string_at_slot(memory, client + NETWORK_GAME_CLIENT_MAP_NAME_OFFSET) == Some(text)
        || string_at_slot(memory, client + NETWORK_GAME_CLIENT_MAP_PATH_OFFSET) == Some(text))
}

/// The bits of an entity's position in `memory`: the origin of its scene
/// node; none where the node is null or an address leaves the address space.
pub open spec fn scene_origin_at(memory: spec_fn(int) -> u8, offsets: SnapshotOffsets, entity: usize) -> Option<
    Seq<u32>,
> {
    let node = mem_u64(memory, entity + offsets.pawn_game_scene_node) as usize;
    if entity + offsets.pawn_game_scene_node > usize::MAX || node == 0 || node
        + offsets.game_scene_node_origin + 8 > usize::MAX {
        None
    } else {
        Some(bits_at(memory, node + offsets.game_scene_node_origin, 3))
    }
}

/// `c` agrees with what `memory` holds for the pawn at `pawn`: each field
/// that was read is the field's value, and the position is the plausible
/// origin of the pawn's scene node.
pub open spec fn candidate_agrees(
    memory: spec_fn(int) -> u8,
    offsets: SnapshotOffsets,
    pawn: usize,
    c: LivePlayerCandidate,
) -> bool {
    &&& (c.health matches Some(h) ==> h == mem_u32(memory, pawn + offsets.pawn_health) as i32)
    &&& (c.team_num matches Some(t) ==> t == memory(pawn + offsets.pawn_team) as i32)
    &&& (c.life_state matches Some(l) ==> l == mem_u32(memory, pawn + offsets.pawn_life_state) as i32)
    &&& (c.gun_game_immunity matches Some(g) ==> g == (memory(pawn + offsets.pawn_deathmatch_immunity)
        != 0))
    &&& scene_origin_at(memory, offsets, pawn) == Some(c.origin_bits@)
    &&& player_origin_bits_plausible(c.origin_bits)
}

/// The pawn of the controller at `controller` in `memory`: through its pawn
/// handle, which must be set, in the entity list.
pub open spec fn controller_pawn_at(memory: spec_fn(int) -> u8, offsets: SnapshotOffsets, controller: usize) -> Option<
    usize,
> {
    let handle = mem_u32(memory, controller + offsets.controller_pawn);
    if controller + offsets.controller_pawn > usize::MAX || handle == 0 || handle == 0xFFFF_FFFF {
        None
    } else {
        entity_at_index(memory, offsets.entity_root, handle_index(handle) as usize)
    }
}

/// The bits of the latest aim punch sample of the pawn at `pawn` in
/// `memory`, as `read_aim_punch_bits` takes it.
pub open spec fn aim_punch_at(memory: spec_fn(int) -> u8, offsets: SnapshotOffsets, pawn: usize) -> Seq<u32> {
    let services = mem_u64(memory, pawn + offsets.pawn_aim_punch_services) as usize;
    let cache = services + offsets.aim_punch_cache;
    let length = mem_u64(memory, cache) as usize;
    let count = if length < AIM_PUNCH_CACHE_MAX_SAMPLES {
        length
    } else {
        AIM_PUNCH_CACHE_MAX_SAMPLES
    };
    let data = mem_u64(memory, cache + 8) as usize;
    let sample = data + (count - 1) * 12;
    if services == 0 || length == 0 || !plausible_process_addr(data as int) || sample > usize::MAX
        || !plausible_process_addr(sample) {
        seq![0u32, 0u32]
    } else {
        bits_at(memory, sample, 2)
    }
}

/// `r` agrees with what `memory` holds for the local player whose pawn is at
/// `pawn` and controller at `controller`: each field that was read is the
/// field's value.
pub open spec fn local_reading_agrees(
    memory: spec_fn(int) -> u8,
    offsets: SnapshotOffsets,
    pawn: usize,
    controller: usize,
    r: LocalPlayerReading,
) -> bool {
    &&& r.m_h_player_pawn == (controller != 0)
    &&& (r.score matches Some(v) ==> controller != 0 && v == mem_u32(memory, controller + offsets.controller_score) as i32)
    &&& (r.persona_level matches Some(v) ==> controller != 0 && v == mem_u32(
        memory,
        (mem_u64(memory, controller + offsets.controller_inventory_services) as usize)
            + offsets.inventory_persona_public_level,
    ) as i32)
    &&& (r.health matches Some(v) ==> v == mem_u32(memory, pawn + offsets.pawn_health) as i32)
    &&& (r.team_num matches Some(v) ==> v == memory(pawn + offsets.pawn_team) as i32)
    &&& (r.life_state matches Some(v) ==> v == mem_u32(memory, pawn + offsets.pawn_life_state) as i32)
    &&& (r.shots_fired matches Some(v) ==> v == mem_u32(memory, pawn + offsets.pawn_shots_fired) as i32)
    &&& (r.eye_angles_bits matches Some(v) ==> v@ == bits_at(memory, pawn + offsets.pawn_eye_angles, 2))
    &&& (r.view_angles_bits matches Some(v) ==> v@ == bits_at(memory, pawn + offsets.pawn_view_angles, 2))
    &&& (r.origin_bits matches Some(v) ==> scene_origin_at(memory, offsets, pawn) == Some(v@))
    &&& (r.view_offset_bits matches Some(v) ==> v@ == bits_at(memory, pawn + offsets.pawn_view_offset, 3))
    &&& (r.aim_punch_angle_bits matches Some(v) ==> v@ == aim_punch_at(memory, offsets, pawn))
}

/// The bits of the position of bone `bone` of the pawn at `pawn` in `memory`:
/// the three `f32` at the bone's 32-byte slot in the skeleton's bone data;
/// none where the scene node or the bone data is null.
pub open spec fn bone_at(memory: spec_fn(int) -> u8, offsets: DeadlockedStyleOffsets, pawn: usize, bone: u64) -> Option<
    Seq<u32>,
> {
    let node = mem_u64(memory, pawn + offsets.pawn_game_scene_node as usize) as usize;
    let data = mem_u64(
        memory,
        node + offsets.game_scene_node_model_state as usize + offsets.model_state_skeleton_instance as usize,
    ) as usize;
    if node == 0 || data == 0 {
        None
    } else {
        Some(bits_at(memory, data + (bone as usize) * 32, 3))
    }
}

/// The entity at `index` of the entity list at `entity_list_addr`: the
/// record in the chunk its high bits select, at the place its low nine bits
/// give. None where the chunk or the record is empty, where a read fails, or
/// where an address would leave the address space.
pub fn entity_addr_for_index<R: HeadlessRuntime>(
    runtime: &mut R,
    entity_list_addr: usize,
    index: usize,
) -> (r: Option<usize>)
    ensures
        final(runtime).memory() == old(runtime).memory(),
        final(runtime).readable() == old(runtime).readable(),
        final(runtime).mappings() == old(runtime).mappings(),
        final(runtime).module_file() == old(runtime).module_file(),
        r matches Some(entity) ==> entity != 0,
        r matches Some(entity) ==> entity_at_index(old(runtime).memory(), entity_list_addr, index) == Some(entity),
{
    let chunk_offset = match (index >> 9).checked_mul(ENTITY_LIST_CHUNK_PTR_STRIDE) {
        Some(offset) => offset,
        None => return None,
    };
    let chunk_ptr_addr = match entity_list_addr.checked_add(chunk_offset) {
        Some(address) => address,
        None => return None,
    };
    let chunk_addr = match runtime.read_u64(chunk_ptr_addr) {
        Ok(value) => value as usize,
        Err(_) => return None,
    };
    if chunk_addr == 0 {
        return None;
    }
    let place = index & ENTITY_LIST_CHUNK_MASK;
    assert(index & 0x1FF <= 0x1FF) by (bit_vector);
    let record_addr = match chunk_addr.checked_add(place * ENTITY_RECORD_STRIDE) {
        Some(address) => address,
        None => return None,
    };
    let entity = match runtime.read_u64(record_addr) {
        Ok(value) => value as usize,
        Err(_) => return None,
    };
    if entity == 0 {
        None
    } else {
        Some(entity)
    }
}

/// The entity a handle refers to.
pub fn entity_addr_for_handle<R: HeadlessRuntime>(
    runtime: &mut R,
    entity_list_addr: usize,
    handle: u32,
) -> (r: Option<usize>)
    ensures
        final(runtime).memory() == old(runtime).memory(),
        final(runtime).readable() == old(runtime).readable(),
        final(runtime).mappings() == old(runtime).mappings(),
        final(runtime).module_file() == old(runtime).module_file(),
        r matches Some(entity) ==> entity != 0,
        r matches Some(entity) ==> entity_at_index(old(runtime).memory(), entity_list_addr, handle_index(handle) as usize)
            == Some(entity),
{
    let index = entity_handle_index(handle) as usize;
    entity_addr_for_index(runtime, entity_list_addr, index)
}

/// The text a pointer slot points to: the NUL-terminated text in the 128
/// bytes there. None where the slot is null or a read fails.
pub fn read_string_ptr<R: HeadlessRuntime>(runtime: &mut R, ptr_slot_addr: usize) -> (r: Option<
    String,
>)
    ensures
        final(runtime).memory() == old(runtime).memory(),
        final(runtime).readable() == old(runtime).readable(),
        final(runtime).mappings() == old(runtime).mappings(),
        final(runtime).module_file() == old(runtime).module_file(),
        r matches Some(text) ==> string_at_slot(old(runtime).memory(), ptr_slot_addr as int) == Some(text@),
{
    let value = match runtime.read_u64(ptr_slot_addr) {
        Ok(value) => value as usize,
        Err(_) => return None,
    };
    if value == 0 {
        return None;
    }
    match runtime.read_c_string(value, 128) {
        Ok(text) => Some(text),
        Err(_) => None,
    }
}

/// The engine's network client service, found among its interfaces; none
/// where the lookup finds none or fails.
pub fn resolve_network_client_service_addr<R: HeadlessRuntime>(runtime: &mut R) -> (r: Option<
    usize,
>)
    ensures
        final(runtime).memory() == old(runtime).memory(),
        final(runtime).readable() == old(runtime).readable(),
        final(runtime).mappings() == old(runtime).mappings(),
        final(runtime).module_file() == old(runtime).module_file(),
        r matches Some(address) ==> exists|module: ModuleImage, file: Seq<u8>| #[trigger] interface_found(
            old(runtime).memory(),
            module,
            file,
            NETWORK_CLIENT_SERVICE_INTERFACE@,
            Ok::<Option<usize>, HeadlessError>(Some(address)),
        ),
{
    let result = resolve_interface_instance(runtime, "libengine2.so", NETWORK_CLIENT_SERVICE_INTERFACE);
    match result {
        Ok(found) => {
            proof {
                if found is Some {
                    let (module, file) = choose|module: ModuleImage, file: Seq<u8>| #[trigger] interface_found(
                        old(runtime).memory(),
                        module,
                        file,
                        NETWORK_CLIENT_SERVICE_INTERFACE@,
                        result,
                    );
                    assert(result == Ok::<Option<usize>, HeadlessError>(Some(found->Some_0)));
                    assert(interface_found(
                        old(runtime).memory(),
                        module,
                        file,
                        NETWORK_CLIENT_SERVICE_INTERFACE@,
                        Ok::<Option<usize>, HeadlessError>(Some(found->Some_0)),
                    ));
                }
            }
            found
        },
        Err(_) => None,
    }
}

/// The name of the map being played: that held by the game client of the
/// network client service, else its map path.
pub fn read_map_name<R: HeadlessRuntime>(runtime: &mut R) -> (r: Option<String>)
    ensures
        final(runtime).memory() == old(runtime).memory(),
        final(runtime).readable() == old(runtime).readable(),
        final(runtime).mappings() == old(runtime).mappings(),
        final(runtime).module_file() == old(runtime).module_file(),
        r matches Some(text) ==> exists|service: usize| #[trigger] map_name_of_service(old(runtime).memory(), service, text@),
{
    let service_addr = match resolve_network_client_service_addr(runtime) {
        Some(address) => address,
        None => return None,
    };
    let client_slot = match service_addr.checked_add(NETWORK_SERVICE_GAME_CLIENT_OFFSET) {
        Some(address) => address,
        None => return None,
    };
    let game_client_addr = match runtime.read_u64(client_slot) {
        Ok(value) => value as usize,
        Err(_) => return None,
    };
    if game_client_addr == 0 {
        return None;
    }
    let name_slot = match game_client_addr.checked_add(NETWORK_GAME_CLIENT_MAP_NAME_OFFSET) {
        Some(address) => address,
        None => return None,
    };
    if let Some(name) = read_string_ptr(runtime, name_slot) {
        assert(map_name_of_service(old(runtime).memory(), service_addr, name@));
        return Some(name);
    }
    let path_slot = match game_client_addr.checked_add(NETWORK_GAME_CLIENT_MAP_PATH_OFFSET) {
        Some(address) => address,
        None => return None,
    };
    let found = read_string_ptr(runtime, path_slot);
    if let Some(path) = &found {
        assert(map_name_of_service(old(runtime).memory(), service_addr, path@));
    }
    found
}

// ---------------------------------------------------------------------------
// Players
// ---------------------------------------------------------------------------

/// The bits of an `f32` coordinate that is finite and smaller than 100000 in
/// magnitude: its magnitude's bits are below those of `100000.0`.
pub open spec fn coordinate_bits_plausible(bits: u32) -> bool {
    bits & 0x7FFF_FFFF < 0x47C3_5000
}

/// The bits of an `f32` coordinate larger in magnitude than `f32::EPSILON`,
/// whose bits are `0x3400_0000`.
pub open spec fn coordinate_bits_off_zero(bits: u32) -> bool {
    bits & 0x7FFF_FFFF > 0x3400_0000
}

/// A position whose coordinates are all plausible.
pub open spec fn vec3_bits_plausible(v: [u32; 3]) -> bool {
    coordinate_bits_plausible(v@[0]) && coordinate_bits_plausible(v@[1])
        && coordinate_bits_plausible(v@[2])
}

/// A player's position: plausible, and not at the origin.
pub open spec fn player_origin_bits_plausible(v: [u32; 3]) -> bool {
    vec3_bits_plausible(v) && (coordinate_bits_off_zero(v@[0]) || coordinate_bits_off_zero(v@[1])
        || coordinate_bits_off_zero(v@[2]))
}

/// Whether the coordinates of a position, as `f32` bits, are plausible.
pub fn vec3_plausible(v: [u32; 3]) -> (r: bool)
    ensures
        r == vec3_bits_plausible(v),
{
    v[0] & 0x7FFF_FFFF < 0x47C3_5000 && v[1] & 0x7FFF_FFFF < 0x47C3_5000 && v[2] & 0x7FFF_FFFF
        < 0x47C3_5000
}

/// Whether a player's position, as `f32` bits, is plausible.
pub fn player_origin_plausible(v: [u32; 3]) -> (r: bool)
    ensures
        r == player_origin_bits_plausible(v),
{
    vec3_plausible(v) && (v[0] & 0x7FFF_FFFF > 0x3400_0000 || v[1] & 0x7FFF_FFFF > 0x3400_0000
        || v[2] & 0x7FFF_FFFF > 0x3400_0000)
}

/// The bits of an entity's position: the origin of its scene node. None
/// where the node is null or a read fails.
pub fn read_entity_abs_origin<R: HeadlessRuntime>(
    runtime: &mut R,
    offsets: &SnapshotOffsets,
    entity_addr: usize,
) -> (r: Option<[u32; 3]>)
    ensures
        final(runtime).memory() == old(runtime).memory(),
        final(runtime).readable() == old(runtime).readable(),
        final(runtime).mappings() == old(runtime).mappings(),
        final(runtime).module_file() == old(runtime).module_file(),
        r matches Some(v) ==> scene_origin_at(old(runtime).memory(), *offsets, entity_addr) == Some(v@),
{
    let node_slot = match entity_addr.checked_add(offsets.pawn_game_scene_node) {
        Some(address) => address,
        None => return None,
    };
    let scene_node_addr = match runtime.read_u64(node_slot) {
        Ok(value) => value as usize,
        Err(_) => return None,
    };
    if scene_node_addr == 0 {
        return None;
    }
    let origin_addr = match scene_node_addr.checked_add(offsets.game_scene_node_origin) {
        Some(address) => address,
        None => return None,
    };
    match read_vec3_bits(runtime, origin_addr) {
        Ok(v) => Some(v),
        Err(_) => None,
    }
}

/// What is read of a player that may be alive: each field where its read
/// succeeds, and its position, which is plausible.
#[derive(Debug, Clone, Copy, PartialEq, Eq)]
pub struct LivePlayerCandidate {
    pub health: Option<i32>,
    pub team_num: Option<i32>,
    pub life_state: Option<i32>,
    pub gun_game_immunity: Option<bool>,
    pub origin_bits: [u32; 3],
}

impl LivePlayerCandidate {
    /// Whether the player is immune: its immunity flag was read and is set.
    pub fn is_gungame_immune(&self) -> (r: bool)
        ensures
            r == (self.gun_game_immunity == Some(true)),
    {
        match self.gun_game_immunity {
            Some(flag) => flag,
            None => false,
        }
    }
}

/// `base + offset` where it fits.
fn offset_addr(base: usize, offset: usize) -> (r: Option<usize>)
    ensures
        r == (if base + offset <= usize::MAX {
            Some((base + offset) as usize)
        } else {
            None::<usize>
        }),
{
    base.checked_add(offset)
}

/// The `i32` at `base + offset`, where it can be read.
fn read_i32_at<R: HeadlessRuntime>(runtime: &mut R, base: usize, offset: usize) -> (r: Option<i32>)
    ensures
        final(runtime).memory() == old(runtime).memory(),
        final(runtime).readable() == old(runtime).readable(),
        final(runtime).mappings() == old(runtime).mappings(),
        final(runtime).module_file() == old(runtime).module_file(),
        r is Some ==> base + offset <= usize::MAX,
        r matches Some(v) ==> v == mem_u32(old(runtime).memory(), base + offset) as i32,
{
    match offset_addr(base, offset) {
        Some(address) => match runtime.read_i32(address) {
            Ok(value) => Some(value),
            Err(_) => None,
        },
        None => None,
    }
}

/// The byte at `base + offset`, where it can be read.
fn read_u8_at<R: HeadlessRuntime>(runtime: &mut R, base: usize, offset: usize) -> (r: Option<u8>)
    ensures
        final(runtime).memory() == old(runtime).memory(),
        final(runtime).readable() == old(runtime).readable(),
        final(runtime).mappings() == old(runtime).mappings(),
        final(runtime).module_file() == old(runtime).module_file(),
        r is Some ==> base + offset <= usize::MAX,
        r matches Some(v) ==> v == old(runtime).memory()(base + offset),
{
    match offset_addr(base, offset) {
        Some(address) => match runtime.read_u8(address) {
            Ok(value) => Some(value),
            Err(_) => None,
        },
        None => None,
    }
}

/// The `u32` at `base + offset`, where it can be read.
fn read_u32_at<R: HeadlessRuntime>(runtime: &mut R, base: usize, offset: usize) -> (r: Option<u32>)
    ensures
        final(runtime).memory() == old(runtime).memory(),
        final(runtime).readable() == old(runtime).readable(),
        final(runtime).mappings() == old(runtime).mappings(),
        final(runtime).module_file() == old(runtime).module_file(),
        r is Some ==> base + offset <= usize::MAX,
        r matches Some(v) ==> v == mem_u32(old(runtime).memory(), base + offset),
{
    match offset_addr(base, offset) {
        Some(address) => match runtime.read_u32(address) {
            Ok(value) => Some(value),
            Err(_) => None,
        },
        None => None,
    }
}

/// The bits of the two `f32` at `base + offset`, where they can be read.
fn read_vec2_bits_at<R: HeadlessRuntime>(runtime: &mut R, base: usize, offset: usize) -> (r: Option<
    [u32; 2],
>)
    ensures
        final(runtime).memory() == old(runtime).memory(),
        final(runtime).readable() == old(runtime).readable(),
        final(runtime).mappings() == old(runtime).mappings(),
        final(runtime).module_file() == old(runtime).module_file(),
        r matches Some(v) ==> v@ == bits_at(old(runtime).memory(), base + offset, 2),
{
    let address = match offset_addr(base, offset) {
        Some(address) => address,
        None => return None,
    };
    let x = match runtime.read_f32_bits(address) {
        Ok(x) => x,
        Err(_) => return None,
    };
    let y_addr = match offset_addr(address, 4) {
        Some(address) => address,
        None => return None,
    };
    match runtime.read_f32_bits(y_addr) {
        Ok(y) => {
            let v = [x, y];
            assert(v@ =~= bits_at(old(runtime).memory(), base + offset, 2));
            Some(v)
        },
        Err(_) => None,
    }
}

/// The bits of the three `f32` at `base + offset`, where they can be read.
fn read_vec3_bits_at<R: HeadlessRuntime>(runtime: &mut R, base: usize, offset: usize) -> (r: Option<
    [u32; 3],
>)
    ensures
        final(runtime).memory() == old(runtime).memory(),
        final(runtime).readable() == old(runtime).readable(),
        final(runtime).mappings() == old(runtime).mappings(),
        final(runtime).module_file() == old(runtime).module_file(),
        r matches Some(v) ==> v@ == bits_at(old(runtime).memory(), base + offset, 3),
{
    match offset_addr(base, offset) {
        Some(address) => match read_vec3_bits(runtime, address) {
            Ok(v) => Some(v),
            Err(_) => None,
        },
        None => None,
    }
}

/// What is read of the pawn at `pawn_addr`; None where its position cannot
/// be read or is not plausible.
pub fn read_live_player_candidate<R: HeadlessRuntime>(
    runtime: &mut R,
    offsets: &SnapshotOffsets,
    pawn_addr: usize,
) -> (r: Option<LivePlayerCandidate>)
    ensures
        final(runtime).memory() == old(runtime).memory(),
        final(runtime).readable() == old(runtime).readable(),
        final(runtime).mappings() == old(runtime).mappings(),
        final(runtime).module_file() == old(runtime).module_file(),
        r matches Some(candidate) ==> candidate_agrees(old(runtime).memory(), *offsets, pawn_addr, candidate),
        r matches Some(candidate) ==> player_origin_bits_plausible(candidate.origin_bits),
        r matches Some(candidate) ==> (candidate.team_num matches Some(team) ==> 0 <= team < 256),
{
    let health = read_i32_at(runtime, pawn_addr, offsets.pawn_health);
    let team_num = match read_u8_at(runtime, pawn_addr, offsets.pawn_team) {
        Some(team) => Some(team as i32),
        None => None,
    };
    let life_state = match read_u32_at(runtime, pawn_addr, offsets.pawn_life_state) {
        Some(state) => Some(state as i32),
        None => None,
    };
    let gun_game_immunity = match read_u8_at(runtime, pawn_addr, offsets.pawn_deathmatch_immunity) {
        Some(flag) => Some(flag != 0),
        None => None,
    };
    let origin_bits = match read_entity_abs_origin(runtime, offsets, pawn_addr) {
        Some(origin) => origin,
        None => return None,
    };
    if !player_origin_plausible(origin_bits) {
        return None;
    }
    Some(LivePlayerCandidate { health, team_num, life_state, gun_game_immunity, origin_bits })
}

/// The pawn of the controller at `controller_addr` where it is a live player
/// other than the local one: its handle is set, it resolves to a plausible
/// address, its class is a player pawn, and its position is plausible.
pub fn resolve_live_player_pawn_addr<R: HeadlessRuntime>(
    runtime: &mut R,
    offsets: &SnapshotOffsets,
    controller_addr: usize,
    local_pawn_addr: usize,
) -> (r: Option<usize>)
    ensures
        final(runtime).memory() == old(runtime).memory(),
        final(runtime).readable() == old(runtime).readable(),
        final(runtime).mappings() == old(runtime).mappings(),
        final(runtime).module_file() == old(runtime).module_file(),
        r matches Some(pawn) ==> pawn != 0 && pawn != local_pawn_addr && plausible_process_addr(
            pawn as int,
        ),
        r matches Some(pawn) ==> controller_pawn_at(old(runtime).memory(), *offsets, controller_addr) == Some(pawn),
        r matches Some(pawn) ==> (class_name_at(old(runtime).memory(), pawn) matches Some(name) && has_suffix(
            name,
            "C_CSPlayerPawn"@,
        )),
{
    let handle = match read_u32_at(runtime, controller_addr, offsets.controller_pawn) {
        Some(handle) => handle,
        None => return None,
    };
    if handle == 0 || handle == INVALID_HANDLE {
        return None;
    }
    let pawn_addr = match entity_addr_for_handle(runtime, offsets.entity_root, handle) {
        Some(address) => address,
        None => return None,
    };
    if !process_addr_plausible(pawn_addr) || pawn_addr == local_pawn_addr {
        return None;
    }
    let class_name = match read_instance_class_name(runtime, pawn_addr) {
        Ok(Some(name)) => name,
        _ => return None,
    };
    if !is_gameplay_player_pawn_class(class_name.as_str()) {
        return None;
    }
    match read_live_player_candidate(runtime, offsets, pawn_addr) {
        Some(_) => Some(pawn_addr),
        None => None,
    }
}

/// Another live player of a snapshot: its pawn and what was read of it.
#[derive(Debug, Clone, Copy, PartialEq, Eq)]
pub struct OtherPlayerReading {
    pub pawn: usize,
    pub candidate: LivePlayerCandidate,
}

/// An entry of the other players: a live player's pawn other than the local
/// one, at a plausible address, at a plausible position.
pub open spec fn other_player_ok(reading: OtherPlayerReading, local_pawn_addr: usize) -> bool {
    &&& reading.pawn != 0
    &&& reading.pawn != local_pawn_addr
    &&& plausible_process_addr(reading.pawn as int)
    &&& player_origin_bits_plausible(reading.candidate.origin_bits)
}

/// The live players of the player slots other than the local one, in slot
/// order, at most one per slot.
pub fn read_other_players<R: HeadlessRuntime>(
    runtime: &mut R,
    offsets: &SnapshotOffsets,
    local_pawn_addr: usize,
) -> (out: Vec<OtherPlayerReading>)
    ensures
        final(runtime).memory() == old(runtime).memory(),
        final(runtime).readable() == old(runtime).readable(),
        final(runtime).mappings() == old(runtime).mappings(),
        final(runtime).module_file() == old(runtime).module_file(),
        out@.len() <= PLAYER_SLOT_COUNT,
        forall|i: int| 0 <= i < out@.len() ==> other_player_ok(#[trigger] out@[i], local_pawn_addr),
        forall|i: int|
            0 <= i < out@.len() ==> candidate_agrees(
                old(runtime).memory(),
                *offsets,
                (#[trigger] out@[i]).pawn,
                out@[i].candidate,
            ),
{
    let mut out: Vec<OtherPlayerReading> = Vec::new();
    let mut slot: usize = 0;
    while slot < PLAYER_SLOT_COUNT
        invariant
            runtime.memory() == old(runtime).memory(),
            runtime.readable() == old(runtime).readable(),
            runtime.mappings() == old(runtime).mappings(),
            runtime.module_file() == old(runtime).module_file(),
            forall|i: int|
                0 <= i < out@.len() ==> candidate_agrees(
                    old(runtime).memory(),
                    *offsets,
                    (#[trigger] out@[i]).pawn,
                    out@[i].candidate,
                ),
            slot <= PLAYER_SLOT_COUNT,
            out@.len() <= slot,
            forall|i: int| 0 <= i < out@.len() ==> other_player_ok(#[trigger] out@[i], local_pawn_addr),
        decreases PLAYER_SLOT_COUNT - slot,
    {
        if let Some(controller_addr) = entity_addr_for_index(runtime, offsets.entity_root, slot) {
            if let Some(pawn) = resolve_live_player_pawn_addr(
                runtime,
                offsets,
                controller_addr,
                local_pawn_addr,
            ) {
                if let Some(candidate) = read_live_player_candidate(runtime, offsets, pawn) {
                    out.push(OtherPlayerReading { pawn, candidate });
                }
            }
        }
        slot = slot + 1;
    }
    out
}

// ---------------------------------------------------------------------------
// The local player
// ---------------------------------------------------------------------------

/// The score of the local controller; none without a controller.
pub fn read_controller_score<R: HeadlessRuntime>(
    runtime: &mut R,
    offsets: &SnapshotOffsets,
    local_controller_addr: usize,
) -> (r: Option<i32>)
    ensures
        final(runtime).memory() == old(runtime).memory(),
        final(runtime).readable() == old(runtime).readable(),
        final(runtime).mappings() == old(runtime).mappings(),
        final(runtime).module_file() == old(runtime).module_file(),
        local_controller_addr == 0 ==> r is None,
        r matches Some(v) ==> v == mem_u32(old(runtime).memory(), local_controller_addr + offsets.controller_score) as i32,
{
    if local_controller_addr == 0 {
        return None;
    }
    read_i32_at(runtime, local_controller_addr, offsets.controller_score)
}

/// The public persona level of the local controller, read through its
/// inventory services; none without a controller or services.
pub fn read_persona_level<R: HeadlessRuntime>(
    runtime: &mut R,
    offsets: &SnapshotOffsets,
    local_controller_addr: usize,
) -> (r: Option<i32>)
    ensures
        final(runtime).memory() == old(runtime).memory(),
        final(runtime).readable() == old(runtime).readable(),
        final(runtime).mappings() == old(runtime).mappings(),
        final(runtime).module_file() == old(runtime).module_file(),
        local_controller_addr == 0 ==> r is None,
        r matches Some(v) ==> v == mem_u32(
            old(runtime).memory(),
            (mem_u64(old(runtime).memory(), local_controller_addr + offsets.controller_inventory_services) as usize)
                + offsets.inventory_persona_public_level,
        ) as i32,
{
    if local_controller_addr == 0 {
        return None;
    }
    let services_slot = match offset_addr(local_controller_addr, offsets.controller_inventory_services) {
        Some(address) => address,
        None => return None,
    };
    let inventory_services = match runtime.read_u64(services_slot) {
        Ok(value) => value as usize,
        Err(_) => return None,
    };
    if inventory_services == 0 {
        return None;
    }
    read_i32_at(runtime, inventory_services, offsets.inventory_persona_public_level)
}

/// The bits of the latest aim punch sample of a pawn: the last of at most
/// [`AIM_PUNCH_CACHE_MAX_SAMPLES`] samples of twelve bytes in the cache of
/// its aim punch services. Zero bits, which are `0.0`, where the services or
/// the cache are empty or the samples lie outside the process's plausible
/// addresses; none where a read fails.
fn read_aim_punch_bits<R: HeadlessRuntime>(
    runtime: &mut R,
    pawn_addr: usize,
    offsets: &SnapshotOffsets,
) -> (r: Option<[u32; 2]>)
    ensures
        final(runtime).memory() == old(runtime).memory(),
        final(runtime).readable() == old(runtime).readable(),
        final(runtime).mappings() == old(runtime).mappings(),
        final(runtime).module_file() == old(runtime).module_file(),
        r matches Some(v) ==> v@ == aim_punch_at(old(runtime).memory(), *offsets, pawn_addr),
{
    let services_slot = match offset_addr(pawn_addr, offsets.pawn_aim_punch_services) {
        Some(address) => address,
        None => return None,
    };
    let services = match runtime.read_u64(services_slot) {
        Ok(value) => value as usize,
        Err(_) => return None,
    };
    if services == 0 {
        return Some([0, 0]);
    }
    let cache_addr = match offset_addr(services, offsets.aim_punch_cache) {
        Some(address) => address,
        None => return None,
    };
    let length = match runtime.read_u64(cache_addr) {
        Ok(value) => value as usize,
        Err(_) => return None,
    };
    if length == 0 {
        return Some([0, 0]);
    }
    let length = if length < AIM_PUNCH_CACHE_MAX_SAMPLES {
        length
    } else {
        AIM_PUNCH_CACHE_MAX_SAMPLES
    };
    let data_slot = match offset_addr(cache_addr, 0x08) {
        Some(address) => address,
        None => return None,
    };
    let data_addr = match runtime.read_u64(data_slot) {
        Ok(value) => value as usize,
        Err(_) => return None,
    };
    if !process_addr_plausible(data_addr) {
        return Some([0, 0]);
    }
    let sample_offset = (length - 1) * 12;
    let sample_addr = match data_addr.checked_add(sample_offset) {
        Some(address) => address,
        None => return Some([0, 0]),
    };
    if !process_addr_plausible(sample_addr) {
        return Some([0, 0]);
    }
    read_vec2_bits_at(runtime, sample_addr, 0)
}

/// What is read of the local player, each field where its read succeeds;
/// the `f32` fields as bits. The eye position is the sum of the origin and
/// the view offset.
#[derive(Debug, Clone, Copy, PartialEq, Eq)]
pub struct LocalPlayerReading {
    pub score: Option<i32>,
    pub health: Option<i32>,
    pub team_num: Option<i32>,
    pub life_state: Option<i32>,
    /// Whether there is a local controller.
    pub m_h_player_pawn: bool,
    pub shots_fired: Option<i32>,
    pub eye_angles_bits: Option<[u32; 2]>,
    pub view_angles_bits: Option<[u32; 2]>,
    pub origin_bits: Option<[u32; 3]>,
    pub view_offset_bits: Option<[u32; 3]>,
    pub aim_punch_angle_bits: Option<[u32; 2]>,
    pub persona_level: Option<i32>,
}

/// What is read of the local player, whose pawn is at `local_pawn_addr` and
/// controller at `local_controller_addr`.
pub fn read_local_player_state<R: HeadlessRuntime>(
    runtime: &mut R,
    offsets: &SnapshotOffsets,
    local_pawn_addr: usize,
    local_controller_addr: usize,
) -> (r: LocalPlayerReading)
    ensures
        final(runtime).memory() == old(runtime).memory(),
        final(runtime).readable() == old(runtime).readable(),
        final(runtime).mappings() == old(runtime).mappings(),
        final(runtime).module_file() == old(runtime).module_file(),
        local_reading_agrees(old(runtime).memory(), *offsets, local_pawn_addr, local_controller_addr, r),
        r.m_h_player_pawn == (local_controller_addr != 0),
        local_controller_addr == 0 ==> r.score is None && r.persona_level is None,
        r.team_num matches Some(team) ==> 0 <= team < 256,
{
    let origin_bits = read_entity_abs_origin(runtime, offsets, local_pawn_addr);
    let view_offset_bits = read_vec3_bits_at(runtime, local_pawn_addr, offsets.pawn_view_offset);
    let persona_level = read_persona_level(runtime, offsets, local_controller_addr);
    let score = read_controller_score(runtime, offsets, local_controller_addr);
    let health = read_i32_at(runtime, local_pawn_addr, offsets.pawn_health);
    let team_num = match read_u8_at(runtime, local_pawn_addr, offsets.pawn_team) {
        Some(team) => Some(team as i32),
        None => None,
    };
    let life_state = match read_u32_at(runtime, local_pawn_addr, offsets.pawn_life_state) {
        Some(state) => Some(state as i32),
        None => None,
    };
    let shots_fired = read_i32_at(runtime, local_pawn_addr, offsets.pawn_shots_fired);
    let eye_angles_bits = read_vec2_bits_at(runtime, local_pawn_addr, offsets.pawn_eye_angles);
    let view_angles_bits = read_vec2_bits_at(runtime, local_pawn_addr, offsets.pawn_view_angles);
    let aim_punch_angle_bits = read_aim_punch_bits(runtime, local_pawn_addr, offsets);
    LocalPlayerReading {
        score,
        health,
        team_num,
        life_state,
        m_h_player_pawn: local_controller_addr != 0,
        shots_fired,
        eye_angles_bits,
        view_angles_bits,
        origin_bits,
        view_offset_bits,
        aim_punch_angle_bits,
        persona_level,
    }
}

// ---------------------------------------------------------------------------
// The snapshot
// ---------------------------------------------------------------------------

/// The bits of the game time, held by the global variables.
pub fn read_game_time_bits<R: HeadlessRuntime>(runtime: &mut R, offsets: &SnapshotOffsets) -> (r:
    Option<u32>)
    ensures
        final(runtime).memory() == old(runtime).memory(),
        final(runtime).readable() == old(runtime).readable(),
        final(runtime).mappings() == old(runtime).mappings(),
        final(runtime).module_file() == old(runtime).module_file(),
        r matches Some(bits) ==> {
            let globals = mem_u64(old(runtime).memory(), offsets.global_vars_ptr as int) as usize;
            globals != 0 && bits == mem_u32(old(runtime).memory(), globals + GLOBAL_VARS_GAME_TIME_OFFSET)
        },
{
    let global_vars = match runtime.read_u64(offsets.global_vars_ptr) {
        Ok(value) => value as usize,
        Err(_) => return None,
    };
    if global_vars == 0 {
        return None;
    }
    let address = match offset_addr(global_vars, GLOBAL_VARS_GAME_TIME_OFFSET) {
        Some(address) => address,
        None => return None,
    };
    match runtime.read_f32_bits(address) {
        Ok(bits) => Some(bits),
        Err(_) => None,
    }
}

/// What a snapshot reads: the map name, the game time, and where there is a
/// local pawn, the local player and the other live players.
#[derive(Debug, Clone, PartialEq, Eq)]
pub struct SnapshotReading {
    pub map_name: Option<String>,
    pub game_time_bits: Option<u32>,
    pub local_controller: usize,
    pub local_pawn: Option<usize>,
    pub local_player: Option<LocalPlayerReading>,
    pub other_players: Vec<OtherPlayerReading>,
}

/// The local pawn of the local controller: through its pawn handle, which
/// must be set, in the entity list.
fn local_pawn_of<R: HeadlessRuntime>(
    runtime: &mut R,
    offsets: &SnapshotOffsets,
    local_controller_addr: usize,
) -> (r: Option<usize>)
    ensures
        final(runtime).memory() == old(runtime).memory(),
        final(runtime).readable() == old(runtime).readable(),
        final(runtime).mappings() == old(runtime).mappings(),
        final(runtime).module_file() == old(runtime).module_file(),
        local_controller_addr == 0 ==> r is None,
        r matches Some(pawn) ==> pawn != 0,
        r matches Some(pawn) ==> controller_pawn_at(old(runtime).memory(), *offsets, local_controller_addr) == Some(pawn),
{
    if local_controller_addr == 0 {
        return None;
    }
    let handle = match read_u32_at(runtime, local_controller_addr, offsets.controller_pawn) {
        Some(handle) => handle,
        None => return None,
    };
    if handle == 0 || handle == INVALID_HANDLE {
        return None;
    }
    entity_addr_for_handle(runtime, offsets.entity_root, handle)
}

/// Reads a snapshot. Without a local pawn only the map name and the game
/// time are read; with one, the local player and the other live players too.
pub fn read_snapshot<R: HeadlessRuntime>(runtime: &mut R, offsets: &SnapshotOffsets) -> (r:
    SnapshotReading)
    ensures
        final(runtime).memory() == old(runtime).memory(),
        final(runtime).readable() == old(runtime).readable(),
        final(runtime).mappings() == old(runtime).mappings(),
        final(runtime).module_file() == old(runtime).module_file(),
        r.map_name matches Some(text) ==> exists|service: usize| #[trigger] map_name_of_service(
            old(runtime).memory(),
            service,
            text@,
        ),
        r.game_time_bits matches Some(bits) ==> {
            let globals = mem_u64(old(runtime).memory(), offsets.global_vars_ptr as int) as usize;
            globals != 0 && bits == mem_u32(old(runtime).memory(), globals + GLOBAL_VARS_GAME_TIME_OFFSET)
        },
        r.local_controller != 0 ==> r.local_controller == mem_u64(
            old(runtime).memory(),
            offsets.local_player_controller_ptr as int,
        ) as usize,
        r.local_pawn matches Some(pawn) ==> controller_pawn_at(old(runtime).memory(), *offsets, r.local_controller)
            == Some(pawn),
        r.local_pawn matches Some(pawn) ==> (r.local_player matches Some(local) && local_reading_agrees(
            old(runtime).memory(),
            *offsets,
            pawn,
            r.local_controller,
            local,
        )),
        forall|i: int|
            0 <= i < r.other_players@.len() ==> candidate_agrees(
                old(runtime).memory(),
                *offsets,
                (#[trigger] r.other_players@[i]).pawn,
                r.other_players@[i].candidate,
            ),
        r.local_controller == 0 ==> r.local_pawn is None,
        r.local_pawn is None ==> r.local_player is None && r.other_players@.len() == 0,
        r.local_pawn matches Some(pawn) ==> {
            &&& pawn != 0
            &&& r.local_player matches Some(local) && local.m_h_player_pawn == (r.local_controller != 0)
            &&& r.other_players@.len() <= PLAYER_SLOT_COUNT
            &&& forall|i: int|
                0 <= i < r.other_players@.len() ==> other_player_ok(#[trigger] r.other_players@[i], pawn)
        },
{
    let map_name = read_map_name(runtime);
    let game_time_bits = read_game_time_bits(runtime, offsets);
    let local_controller = match runtime.read_u64(offsets.local_player_controller_ptr) {
        Ok(value) => value as usize,
        Err(_) => 0,
    };
    let local_pawn = local_pawn_of(runtime, offsets, local_controller);
    match local_pawn {
        None => SnapshotReading {
            map_name,
            game_time_bits,
            local_controller,
            local_pawn: None,
            local_player: None,
            other_players: Vec::new(),
        },
        Some(pawn) => {
            let local_player = read_local_player_state(runtime, offsets, pawn, local_controller);
            let other_players = read_other_players(runtime, offsets, pawn);
            SnapshotReading {
                map_name,
                game_time_bits,
                local_controller,
                local_pawn: Some(pawn),
                local_player: Some(local_player),
                other_players,
            }
        },
    }
}

// ---------------------------------------------------------------------------
// The global variables and the bones
// ---------------------------------------------------------------------------

/// The address of the global variables: the target of the instruction that
/// loads them, found by its pattern in the client module's readable memory.
pub fn find_global_vars_ptr<R: SnapshotMemory>(runtime: &mut R) -> (r: Result<usize, HeadlessError>)
    ensures
        final(runtime).memory() == old(runtime).memory(),
        final(runtime).readable() == old(runtime).readable(),
        final(runtime).mappings() == old(runtime).mappings(),
        final(runtime).module_file() == old(runtime).module_file(),
        r is Ok ==> exists|m: MemReaderModuleInfo, instruction: usize|
            #![trigger scanned_segment(m, "libclient.so"@), relative_target(instruction, 7, mem_u32(old(runtime).memory(), instruction + 3) as i32)]
            scanned_segment(m, "libclient.so"@) && m.base <= instruction < m.end && r
                == relative_target(instruction, 7, mem_u32(old(runtime).memory(), instruction + 3) as i32),
{
    let instruction = match scan_module_memory_pattern(runtime, "libclient.so", GLOBAL_VARS_PATTERN)? {
        Some(instruction) => instruction,
        None => return Err(HeadlessError::Missing { context: "missing global vars pattern" }),
    };
    let ghost mem = runtime.memory();
    let r = read_relative_address(runtime, instruction, 0x03, 0x07);
    proof {
        reveal_strlit("libclient.so");
    }
    r
}

/// The bits of the position of bone `bone_index` of a pawn, from the bone
/// data of its skeleton; none where the scene node or the bone data is null.
pub fn read_bone_position_bits<R: HeadlessRuntime>(
    runtime: &mut R,
    offsets: &DeadlockedStyleOffsets,
    pawn: usize,
    bone_index: u64,
) -> (r: Result<Option<[u32; 3]>, HeadlessError>)
    ensures
        final(runtime).memory() == old(runtime).memory(),
        final(runtime).readable() == old(runtime).readable(),
        final(runtime).mappings() == old(runtime).mappings(),
        final(runtime).module_file() == old(runtime).module_file(),
        r matches Ok(Some(v)) ==> bone_at(old(runtime).memory(), *offsets, pawn, bone_index) == Some(v@),
        r matches Ok(None) ==> bone_at(old(runtime).memory(), *offsets, pawn, bone_index) is None,
{
    let node_slot = checked_addr(pawn, offsets.pawn_game_scene_node as usize, "pawn game scene node overflow")?;
    let game_scene_node = runtime.read_u64(node_slot)? as usize;
    if game_scene_node == 0 {
        return Ok(None);
    }
    let model_state = checked_addr(
        game_scene_node,
        offsets.game_scene_node_model_state as usize,
        "bone data pointer overflow",
    )?;
    let bone_slot = checked_addr(
        model_state,
        offsets.model_state_skeleton_instance as usize,
        "bone data pointer overflow",
    )?;
    let bone_data = runtime.read_u64(bone_slot)? as usize;
    if bone_data == 0 {
        return Ok(None);
    }
    let bone_offset = checked_mul(bone_index as usize, 32, "bone index overflow")?;
    let bone_addr = checked_addr(bone_data, bone_offset, "bone address overflow")?;
    Ok(Some(read_vec3_bits(runtime, bone_addr)?))
}

} // verus!

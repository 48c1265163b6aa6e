//! Reading players out of the attached process with the discovered offsets:
//! the local player, and every player controller in the entity list.
//!
//! Floating-point values are carried as the bits of their `f32`, as read from
//! memory; turning them into numbers is left to the caller.
use vstd::prelude::*;

use crate::interfaces::{class_name_at, class_name_readable, read_instance_class_name};
use crate::offsets::DeadlockedStyleOffsets;
use crate::text::{trim_text, trimmed};
use crate::runtime::{bits_at, c_string_at, checked_addr, checked_mul, mem_bytes, mem_u32, mem_u64, HeadlessError, HeadlessRuntime};
use crate::wire::{le_u32_at, le_u64_at, read_u32_le, read_u64_le};

verus! {

/// How many buckets the entity list has.
pub const ENTITY_BUCKETS: usize = 64;
/// How many entity identities one bucket holds.
pub const IDENTITIES_PER_BUCKET: usize = 512;
/// The mangled name of the player controller class.
pub const PLAYER_CONTROLLER_CLASS: &'static str = "19CCSPlayerController";
/// The handle of no entity.
pub const INVALID_HANDLE: u32 = 0xFFFF_FFFF;

/// The local player, with floating-point values as `f32` bits.
#[derive(Debug, Clone, Copy, PartialEq, Eq)]
pub struct LocalPlayerRecord {
    pub controller: usize,
    pub pawn: usize,
    pub health: i32,
    pub team_num: i32,
    pub life_state: i32,
    pub shots_fired: i32,
    pub deathmatch_immunity: bool,
    pub origin_bits: [u32; 3],
    /// The eye's offset from the origin; the eye position is their sum.
    pub eye_offset_bits: [u32; 3],
    pub view_angles_bits: [u32; 2],
    pub aim_punch_angle_bits: [u32; 2],
    pub velocity_bits: [u32; 3],
    pub flash_duration_bits: u32,
    pub is_scoped: bool,
    pub crosshair_entity_index: i32,
}

/// A player for the radar, with its origin as `f32` bits.
#[derive(Debug, Clone, PartialEq, Eq)]
pub struct RadarPlayerRecord {
    pub controller: usize,
    pub pawn: usize,
    pub name: String,
    pub steam_id: u64,
    pub health: i32,
    pub team_num: i32,
    pub life_state: i32,
    pub origin_bits: [u32; 3],
    pub dormant: bool,
    pub deathmatch_immunity: bool,
    pub is_local: bool,
}

// ---------------------------------------------------------------------------
// Entity handles
// ---------------------------------------------------------------------------

/// The entity index a handle refers to: its low 15 bits.
pub open spec fn handle_index(handle: u32) -> u32 {
    handle & 0x7FFF
}

/// The bucket of the entity list that holds the entity at `index`.
pub open spec fn bucket_of(index: u32) -> u32 {
    index >> 9
}

/// The entity's place within its bucket.
pub open spec fn slot_of(index: u32) -> u32 {
    index & 0x1FF
}

/// An entity index is its bucket's start plus its place in the bucket: the
/// list walk of the radar and the handle lookup agree on where an entity is.
pub proof fn lemma_entity_index_split(index: u32)
    requires
        index < 0x8000,
    ensures
        bucket_of(index) < ENTITY_BUCKETS,
        slot_of(index) < IDENTITIES_PER_BUCKET,
        bucket_of(index) * IDENTITIES_PER_BUCKET + slot_of(index) == index,
{
    assert(index >> 9 < 64 && index & 0x1FF < 512 && (index >> 9) * 512 + (index & 0x1FF) == index)
        by (bit_vector)
        requires
            index < 0x8000,
    ;
}

/// The entity at `index` of the entity list in `memory`: the bucket pointer
/// its high bits select, then the identity its low nine bits select, each
/// identity `entity_identity_size` bytes; none where either is null.
pub open spec fn entity_at(memory: spec_fn(int) -> u8, offsets: DeadlockedStyleOffsets, index: u32) -> Option<usize> {
    let bucket_ptr = mem_u64(memory, offsets.entity_root + ((index >> 9) as usize) * 8) as usize;
    if bucket_ptr == 0 {
        None
    } else {
        let entity = mem_u64(
            memory,
            bucket_ptr + ((index & 0x1FF) as usize) * offsets.entity_identity_size,
        ) as usize;
        if entity == 0 {
            None
        } else {
            Some(entity)
        }
    }
}

/// A read of `len` bytes at `base + offset`: the address fits, and the read
/// succeeds.
pub open spec fn fits_read(readable: spec_fn(int, nat) -> bool, base: int, offset: int, len: nat) -> bool {
    base + offset <= usize::MAX && readable(base + offset, len)
}

/// Every read of the lookup of entity `index` succeeds and no address on the
/// way overflows.
pub open spec fn entity_reads_ok(
    readable: spec_fn(int, nat) -> bool,
    memory: spec_fn(int) -> u8,
    offsets: DeadlockedStyleOffsets,
    index: u32,
) -> bool {
    let bucket_ptr = mem_u64(memory, offsets.entity_root + ((index >> 9) as usize) * 8) as usize;
    &&& fits_read(readable, offsets.entity_root as int, ((index >> 9) as usize) * 8, 8)
    &&& bucket_ptr != 0 ==> {
        &&& ((index & 0x1FF) as usize) * offsets.entity_identity_size <= usize::MAX
        &&& fits_read(readable, bucket_ptr as int, ((index & 0x1FF) as usize) * offsets.entity_identity_size, 8)
    }
}

/// The entity at `index` of the entity list; `Ok(None)` where its bucket or
/// its slot is empty.
pub fn resolve_entity_index<R: HeadlessRuntime>(
    runtime: &mut R,
    offsets: &DeadlockedStyleOffsets,
    index: u32,
) -> (r: Result<Option<usize>, HeadlessError>)
    ensures
        final(runtime).memory() == old(runtime).memory(),
        final(runtime).readable() == old(runtime).readable(),
        final(runtime).mappings() == old(runtime).mappings(),
        final(runtime).module_file() == old(runtime).module_file(),
        r matches Ok(Some(entity)) ==> entity != 0,
        r matches Ok(found) ==> found == entity_at(old(runtime).memory(), *offsets, index),
        entity_reads_ok(old(runtime).readable(), old(runtime).memory(), *offsets, index) ==> r is Ok,
{
    let bucket_index = (index >> 9) as usize;
    let index_in_bucket = (index & 0x1FF) as usize;
    let bucket_ptr = runtime.read_u64(
        checked_addr(
            offsets.entity_root,
            checked_mul(bucket_index, 8, "entity root bucket index")?,
            "read entity root bucket pointer",
        )?,
    )? as usize;
    if bucket_ptr == 0 {
        return Ok(None);
    }
    let entity = runtime.read_u64(
        checked_addr(
            bucket_ptr,
            checked_mul(index_in_bucket, offsets.entity_identity_size, "entity identity stride")?,
            "read entity by index",
        )?,
    )? as usize;
    if entity == 0 {
        return Ok(None);
    }
    Ok(Some(entity))
}

/// The entity a handle refers to.
pub fn resolve_entity_handle<R: HeadlessRuntime>(
    runtime: &mut R,
    offsets: &DeadlockedStyleOffsets,
    handle: i32,
) -> (r: Result<Option<usize>, HeadlessError>)
    ensures
        final(runtime).memory() == old(runtime).memory(),
        final(runtime).readable() == old(runtime).readable(),
        final(runtime).mappings() == old(runtime).mappings(),
        final(runtime).module_file() == old(runtime).module_file(),
        r matches Ok(Some(entity)) ==> entity != 0,
        r matches Ok(found) ==> found == entity_at(old(runtime).memory(), *offsets, (handle as u32) & 0x7FFF),
        entity_reads_ok(old(runtime).readable(), old(runtime).memory(), *offsets, (handle as u32) & 0x7FFF) ==> r is Ok,
{
    let index = (handle as u32) & 0x7FFF;
    resolve_entity_index(runtime, offsets, index)
}

// ---------------------------------------------------------------------------
// Names
// ---------------------------------------------------------------------------

/// The sanitized name of the controller at `controller` in `memory`, trimmed,
/// where the offsets know the field, its pointer is set and the name is not
/// blank.
pub open spec fn sanitized_name_at(
    memory: spec_fn(int) -> u8,
    controller: usize,
    offsets: DeadlockedStyleOffsets,
) -> Option<Seq<char>> {
    match offsets.controller_sanitized_name {
        None => None,
        Some(offset) => {
            let name_ptr = mem_u64(memory, controller + offset as usize) as usize;
            if name_ptr == 0 {
                None
            } else {
                let name = trimmed(c_string_at(memory, name_ptr as int, 128));
                if name.len() == 0 {
                    None
                } else {
                    Some(name)
                }
            }
        },
    }
}

/// The player name of the controller at `controller` in `memory`, trimmed;
/// empty where its pointer is null.
pub open spec fn player_name_at(
    memory: spec_fn(int) -> u8,
    controller: usize,
    offsets: DeadlockedStyleOffsets,
) -> Seq<char> {
    let name_ptr = mem_u64(memory, controller + offsets.controller_name as usize) as usize;
    if name_ptr == 0 {
        Seq::empty()
    } else {
        trimmed(c_string_at(memory, name_ptr as int, 128))
    }
}

/// Every read of the sanitized name of the controller at `controller`
/// succeeds and its address fits.
pub open spec fn sanitized_readable(
    readable: spec_fn(int, nat) -> bool,
    memory: spec_fn(int) -> u8,
    controller: usize,
    offsets: DeadlockedStyleOffsets,
) -> bool {
    match offsets.controller_sanitized_name {
        None => true,
        Some(offset) => {
            let name_ptr = mem_u64(memory, controller + offset as usize) as usize;
            &&& fits_read(readable, controller as int, offset as usize as int, 8)
            &&& name_ptr != 0 ==> readable(name_ptr as int, 128)
        },
    }
}

/// The name a controller shows: its sanitized name where it has one, else its
/// trimmed player name.
pub open spec fn display_name_at(memory: spec_fn(int) -> u8, controller: usize, offsets: DeadlockedStyleOffsets) -> Seq<
    char,
> {
    match sanitized_name_at(memory, controller, offsets) {
        Some(name) => name,
        None => player_name_at(memory, controller, offsets),
    }
}

/// The name reads of the controller at `controller` succeed.
pub open spec fn name_reads_ok(
    readable: spec_fn(int, nat) -> bool,
    memory: spec_fn(int) -> u8,
    controller: usize,
    offsets: DeadlockedStyleOffsets,
) -> bool {
    sanitized_readable(readable, memory, controller, offsets) && player_name_readable(readable, memory, controller, offsets)
}

/// Every read of the player name of the controller at `controller` succeeds
/// and its address fits.
pub open spec fn player_name_readable(
    readable: spec_fn(int, nat) -> bool,
    memory: spec_fn(int) -> u8,
    controller: usize,
    offsets: DeadlockedStyleOffsets,
) -> bool {
    let name_ptr = mem_u64(memory, controller + offsets.controller_name as usize) as usize;
    &&& fits_read(readable, controller as int, offsets.controller_name as usize as int, 8)
    &&& name_ptr != 0 ==> readable(name_ptr as int, 128)
}

/// The sanitized name of a controller, where the offsets know the field and
/// a name that is not blank can be read through it.
fn read_sanitized_controller_name<R: HeadlessRuntime>(
    runtime: &mut R,
    controller: usize,
    offsets: &DeadlockedStyleOffsets,
) -> (r: Option<String>)
    ensures
        final(runtime).memory() == old(runtime).memory(),
        final(runtime).readable() == old(runtime).readable(),
        final(runtime).mappings() == old(runtime).mappings(),
        final(runtime).module_file() == old(runtime).module_file(),
        offsets.controller_sanitized_name is None ==> r is None,
        r matches Some(name) ==> name@.len() > 0,
        r matches Some(name) ==> sanitized_name_at(old(runtime).memory(), controller, *offsets) == Some(name@),
        sanitized_readable(old(runtime).readable(), old(runtime).memory(), controller, *offsets) ==> (r is Some
            <==> sanitized_name_at(old(runtime).memory(), controller, *offsets) is Some),
{
    let sanitized_offset = match offsets.controller_sanitized_name {
        Some(offset) => offset,
        None => return None,
    };
    let name_addr = match checked_addr(
        controller,
        sanitized_offset as usize,
        "read sanitized controller name pointer",
    ) {
        Ok(address) => address,
        Err(_) => return None,
    };
    let name_ptr = match runtime.read_u64(name_addr) {
        Ok(ptr) => ptr as usize,
        Err(_) => return None,
    };
    if name_ptr == 0 {
        return None;
    }
    let name = match runtime.read_c_string(name_ptr, 128) {
        Ok(name) => name,
        Err(_) => return None,
    };
    let name = trim_text(name.as_str());
    if name.as_str().is_empty() {
        return None;
    }
    Some(name)
}

/// The display name of a controller: its sanitized name where there is one,
/// else its player name with surrounding white space removed, else empty.
pub fn read_controller_name<R: HeadlessRuntime>(
    runtime: &mut R,
    controller: usize,
    offsets: &DeadlockedStyleOffsets,
) -> (r: Result<String, HeadlessError>)
    ensures
        final(runtime).memory() == old(runtime).memory(),
        final(runtime).readable() == old(runtime).readable(),
        final(runtime).mappings() == old(runtime).mappings(),
        final(runtime).module_file() == old(runtime).module_file(),
        r matches Ok(name) ==> sanitized_name_at(old(runtime).memory(), controller, *offsets) == Some(name@)
            || name@ == player_name_at(old(runtime).memory(), controller, *offsets) || name@.len() == 0,
        controller + offsets.controller_name as usize <= usize::MAX ==> r is Ok,
        sanitized_readable(old(runtime).readable(), old(runtime).memory(), controller, *offsets) ==> (
        sanitized_name_at(old(runtime).memory(), controller, *offsets) matches Some(name) ==> (r matches Ok(s)
            && s@ == name)),
        sanitized_readable(old(runtime).readable(), old(runtime).memory(), controller, *offsets)
            && sanitized_name_at(old(runtime).memory(), controller, *offsets) is None && player_name_readable(
            old(runtime).readable(),
            old(runtime).memory(),
            controller,
            *offsets,
        ) ==> (r matches Ok(s) && s@ == player_name_at(old(runtime).memory(), controller, *offsets)),
        name_reads_ok(old(runtime).readable(), old(runtime).memory(), controller, *offsets) ==> (r matches Ok(s)
            && s@ == display_name_at(old(runtime).memory(), controller, *offsets)),
{
    if let Some(name) = read_sanitized_controller_name(runtime, controller, offsets) {
        return Ok(name);
    }
    let name_ptr = match runtime.read_u64(
        checked_addr(controller, offsets.controller_name as usize, "read controller name pointer")?,
    ) {
        Ok(ptr) => ptr as usize,
        Err(_) => return Ok(String::new()),
    };
    if name_ptr == 0 {
        return Ok(String::new());
    }
    match runtime.read_c_string(name_ptr, 128) {
        Ok(name) => Ok(trim_text(name.as_str())),
        Err(_) => Ok(String::new()),
    }
}

// ---------------------------------------------------------------------------
// Vectors
// ---------------------------------------------------------------------------

/// The three four-byte reads of a vector at `address` succeed and their
/// addresses fit.
pub open spec fn vec3_readable(readable: spec_fn(int, nat) -> bool, address: int) -> bool {
    &&& readable(address, 4)
    &&& fits_read(readable, address, 4, 4)
    &&& fits_read(readable, address, 8, 4)
}

/// The bits of the three `f32` at `address`.
pub(crate) fn read_vec3_bits<R: HeadlessRuntime>(runtime: &mut R, address: usize) -> (r: Result<
    [u32; 3],
    HeadlessError,
>)
    ensures
        final(runtime).memory() == old(runtime).memory(),
        final(runtime).readable() == old(runtime).readable(),
        final(runtime).mappings() == old(runtime).mappings(),
        final(runtime).module_file() == old(runtime).module_file(),
        r matches Ok(v) ==> v@ == bits_at(old(runtime).memory(), address as int, 3),
        r is Ok ==> address + 8 <= usize::MAX,
        vec3_readable(old(runtime).readable(), address as int) ==> r is Ok,
{
    let x = runtime.read_f32_bits(address)?;
    let y = runtime.read_f32_bits(checked_addr(address, 4, "read vec3 y")?)?;
    let z = runtime.read_f32_bits(checked_addr(address, 8, "read vec3 z")?)?;
    let v = [x, y, z];
    assert(v@ =~= bits_at(old(runtime).memory(), address as int, 3));
    Ok(v)
}

/// The bits of the latest aim punch sample of the pawn at `pawn` in `memory`:
/// the last of the twelve-byte samples of the cache of its aim punch
/// services; zeros where the services, the cache length or its data pointer
/// are zero.
pub open spec fn aim_punch_of(memory: spec_fn(int) -> u8, pawn: usize, offsets: DeadlockedStyleOffsets) -> Seq<u32> {
    let services = mem_u64(memory, pawn + offsets.pawn_aim_punch_services as usize) as usize;
    let length = mem_u64(memory, services + offsets.aim_punch_cache as usize) as usize;
    let data_ptr = mem_u64(memory, services + (offsets.aim_punch_cache + 8) as usize) as usize;
    if services == 0 || length == 0 || data_ptr == 0 {
        seq![0u32, 0u32]
    } else {
        bits_at(memory, data_ptr + (length - 1) * 12, 2)
    }
}

/// Whether every read of the latest aim punch sample of the pawn at `pawn`
/// succeeds, `readable` telling which reads do, and no address computed on
/// the way overflows.
pub open spec fn aim_punch_readable(
    memory: spec_fn(int) -> u8,
    readable: spec_fn(int, nat) -> bool,
    pawn: usize,
    offsets: DeadlockedStyleOffsets,
) -> bool {
    let services_at = pawn + offsets.pawn_aim_punch_services as usize;
    let services = mem_u64(memory, services_at) as usize;
    let length_at = services + offsets.aim_punch_cache as usize;
    let length = mem_u64(memory, length_at) as usize;
    let data_at = services + (offsets.aim_punch_cache + 8) as usize;
    let data_ptr = mem_u64(memory, data_at) as usize;
    let sample_at = data_ptr + (length - 1) * 12;
    &&& services_at <= usize::MAX
    &&& readable(services_at, 8)
    &&& services != 0 ==> {
        &&& length_at <= usize::MAX
        &&& readable(length_at, 8)
        &&& length != 0 ==> {
            &&& offsets.aim_punch_cache + 8 <= u64::MAX
            &&& data_at <= usize::MAX
            &&& readable(data_at, 8)
            &&& data_ptr != 0 ==> {
                &&& (length - 1) * 12 <= usize::MAX
                &&& sample_at + 4 <= usize::MAX
                &&& readable(sample_at, 4)
                &&& readable(sample_at + 4, 4)
            }
        }
    }
}

/// The bits of the latest aim punch sample of a pawn: the last entry of the
/// sample cache of its aim punch services. Zero bits, which are `0.0`, where
/// the services, the cache or its data are absent.
fn read_aim_punch_bits<R: HeadlessRuntime>(
    runtime: &mut R,
    pawn: usize,
    offsets: &DeadlockedStyleOffsets,
) -> (r: Result<[u32; 2], HeadlessError>)
    ensures
        final(runtime).memory() == old(runtime).memory(),
        final(runtime).readable() == old(runtime).readable(),
        final(runtime).mappings() == old(runtime).mappings(),
        final(runtime).module_file() == old(runtime).module_file(),
        r matches Ok(v) ==> v@ == aim_punch_of(old(runtime).memory(), pawn, *offsets),
        r is Ok <==> aim_punch_readable(old(runtime).memory(), old(runtime).readable(), pawn, *offsets),
{
    let services = runtime.read_u64(
        checked_addr(
            pawn,
            offsets.pawn_aim_punch_services as usize,
            "read pawn aim punch services",
        )?,
    )? as usize;
    if services == 0 {
        return Ok([0, 0]);
    }
    let length = runtime.read_u64(
        checked_addr(services, offsets.aim_punch_cache as usize, "read aim punch cache length")?,
    )? as usize;
    if length == 0 {
        return Ok([0, 0]);
    }
    let data_field = match offsets.aim_punch_cache.checked_add(0x08) {
        Some(offset) => offset,
        None => {
            return Err(
                HeadlessError::AddressOverflow {
                    context: "aim punch cache data pointer overflow",
                    base: offsets.aim_punch_cache as usize,
                    offset: 8,
                },
            );
        },
    };
    let data_ptr_addr = checked_addr(
        services,
        data_field as usize,
        "read aim punch cache data pointer",
    )?;
    let data_ptr = runtime.read_u64(data_ptr_addr)? as usize;
    if data_ptr == 0 {
        return Ok([0, 0]);
    }
    let sample_index = length - 1;
    let sample_offset = checked_mul(sample_index, 12, "aim punch sample stride")?;
    let sample_addr = checked_addr(data_ptr, sample_offset, "read aim punch sample")?;
    let pitch = runtime.read_f32_bits(sample_addr)?;
    let yaw = runtime.read_f32_bits(checked_addr(sample_addr, 4, "read aim punch sample yaw")?)?;
    Ok([pitch, yaw])
}

// ---------------------------------------------------------------------------
// The local player
// ---------------------------------------------------------------------------

/// The local player's controller, pawn and scene node in `memory`: the
/// controller the local controller pointer holds, the pawn its pawn handle
/// refers to, and the pawn's scene node; none where the controller is null,
/// the handle is invalid, the pawn is missing or the scene node is null.
pub open spec fn local_player_path(memory: spec_fn(int) -> u8, offsets: DeadlockedStyleOffsets) -> Option<
    (usize, usize, usize),
> {
    let controller = mem_u64(memory, offsets.local_player_controller as int) as usize;
    let handle = mem_u32(memory, controller + offsets.controller_pawn as usize);
    if controller == 0 || handle == INVALID_HANDLE {
        None
    } else {
        match entity_at(memory, offsets, ((handle as i32) as u32) & 0x7FFF) {
            None => None,
            Some(pawn) => {
                let node = mem_u64(memory, pawn + offsets.pawn_game_scene_node as usize) as usize;
                if node == 0 {
                    None
                } else {
                    Some((controller, pawn, node))
                }
            },
        }
    }
}

/// The fields of `record`, of the local pawn at `pawn` whose scene node is at
/// `node`, are those `memory` holds.
pub open spec fn local_record_fields(
    memory: spec_fn(int) -> u8,
    offsets: DeadlockedStyleOffsets,
    pawn: usize,
    node: usize,
    record: LocalPlayerRecord,
) -> bool {
    &&& record.origin_bits@ == bits_at(memory, node + offsets.game_scene_node_origin as usize, 3)
    &&& record.eye_offset_bits@ == bits_at(memory, pawn + offsets.pawn_eye_offset as usize, 3)
    &&& record.view_angles_bits@ == bits_at(memory, pawn + offsets.pawn_view_angles as usize, 2)
    &&& record.velocity_bits@ == bits_at(memory, pawn + offsets.pawn_velocity as usize, 3)
    &&& record.flash_duration_bits == mem_u32(memory, pawn + offsets.pawn_flash_duration as usize)
    &&& record.is_scoped == (memory(pawn + offsets.pawn_is_scoped as usize) != 0)
    &&& record.shots_fired == mem_u32(memory, pawn + offsets.pawn_shots_fired as usize) as i32
    &&& record.crosshair_entity_index == mem_u32(memory, pawn + offsets.pawn_crosshair_entity as usize) as i32
    &&& record.health == mem_u32(memory, pawn + offsets.pawn_health as usize) as i32
    &&& record.team_num == mem_u32(memory, pawn + offsets.pawn_team as usize) as i32
    &&& record.life_state == memory(pawn + offsets.pawn_life_state as usize) as i32
    &&& record.deathmatch_immunity == (memory(pawn + offsets.pawn_deathmatch_immunity as usize) != 0)
}

/// Every read that finds the local player's controller, pawn and scene node
/// succeeds, and no address on the way overflows.
pub open spec fn local_path_readable(
    readable: spec_fn(int, nat) -> bool,
    memory: spec_fn(int) -> u8,
    offsets: DeadlockedStyleOffsets,
) -> bool {
    let controller = mem_u64(memory, offsets.local_player_controller as int) as usize;
    let handle = mem_u32(memory, controller + offsets.controller_pawn as usize);
    let index = ((handle as i32) as u32) & 0x7FFF;
    &&& readable(offsets.local_player_controller as int, 8)
    &&& controller != 0 ==> {
        &&& fits_read(readable, controller as int, offsets.controller_pawn as usize as int, 4)
        &&& handle != INVALID_HANDLE ==> {
            &&& entity_reads_ok(readable, memory, offsets, index)
            &&& entity_at(memory, offsets, index) matches Some(pawn) ==> fits_read(
                readable,
                pawn as int,
                offsets.pawn_game_scene_node as usize as int,
                8,
            )
        }
    }
}

/// Every read of the state of the local pawn at `pawn`, with its scene node at
/// `node`, succeeds and no address on the way overflows; the aim punch,
/// whose failure is taken as zero, aside.
pub open spec fn local_fields_readable(
    readable: spec_fn(int, nat) -> bool,
    offsets: DeadlockedStyleOffsets,
    pawn: usize,
    node: usize,
) -> bool {
    let p = pawn as int;
    let view = p + offsets.pawn_view_angles as usize as int;
    &&& node + offsets.game_scene_node_origin as usize as int <= usize::MAX
    &&& vec3_readable(readable, node + offsets.game_scene_node_origin as usize as int)
    &&& p + offsets.pawn_eye_offset as usize as int <= usize::MAX
    &&& vec3_readable(readable, p + offsets.pawn_eye_offset as usize as int)
    &&& view <= usize::MAX
    &&& readable(view, 4)
    &&& fits_read(readable, view, 4, 4)
    &&& p + offsets.pawn_velocity as usize as int <= usize::MAX
    &&& vec3_readable(readable, p + offsets.pawn_velocity as usize as int)
    &&& fits_read(readable, p, offsets.pawn_flash_duration as usize as int, 4)
    &&& fits_read(readable, p, offsets.pawn_is_scoped as usize as int, 1)
    &&& fits_read(readable, p, offsets.pawn_shots_fired as usize as int, 4)
    &&& fits_read(readable, p, offsets.pawn_crosshair_entity as usize as int, 4)
    &&& fits_read(readable, p, offsets.pawn_health as usize as int, 4)
    &&& fits_read(readable, p, offsets.pawn_team as usize as int, 4)
    &&& fits_read(readable, p, offsets.pawn_life_state as usize as int, 1)
    &&& fits_read(readable, p, offsets.pawn_deathmatch_immunity as usize as int, 1)
}

/// Reads the local player: its controller, its pawn through the controller's
/// pawn handle, and the pawn's state. `Ok(None)` where there is no local
/// controller, no pawn, or no scene node.
pub fn read_local_player_record<R: HeadlessRuntime>(
    runtime: &mut R,
    offsets: &DeadlockedStyleOffsets,
) -> (r: Result<Option<LocalPlayerRecord>, HeadlessError>)
    ensures
        final(runtime).memory() == old(runtime).memory(),
        final(runtime).readable() == old(runtime).readable(),
        final(runtime).mappings() == old(runtime).mappings(),
        final(runtime).module_file() == old(runtime).module_file(),
        r matches Ok(Some(record)) ==> record.controller != 0 && record.pawn != 0,
        r matches Ok(None) ==> local_player_path(old(runtime).memory(), *offsets) is None,
        r matches Ok(Some(record)) ==> (local_player_path(old(runtime).memory(), *offsets) matches Some(
            (controller, pawn, node),
        ) && controller == record.controller && pawn == record.pawn && local_record_fields(
            old(runtime).memory(),
            *offsets,
            pawn,
            node,
            record,
        )),
        r matches Ok(Some(record)) ==> record.aim_punch_angle_bits@ == (if aim_punch_readable(
            old(runtime).memory(),
            old(runtime).readable(),
            record.pawn,
            *offsets,
        ) {
            aim_punch_of(old(runtime).memory(), record.pawn, *offsets)
        } else {
            seq![0u32, 0u32]
        }),
        local_path_readable(old(runtime).readable(), old(runtime).memory(), *offsets) ==> (r == Ok::<
            Option<LocalPlayerRecord>,
            HeadlessError,
        >(None) <==> local_player_path(old(runtime).memory(), *offsets) is None),
        local_path_readable(old(runtime).readable(), old(runtime).memory(), *offsets) && (local_player_path(
            old(runtime).memory(),
            *offsets,
        ) matches Some((controller, pawn, node)) ==> local_fields_readable(old(runtime).readable(), *offsets, pawn, node))
            ==> r is Ok,
{
    let controller = runtime.read_u64(offsets.local_player_controller)? as usize;
    if controller == 0 {
        return Ok(None);
    }
    let pawn_handle = runtime.read_u32(
        checked_addr(controller, offsets.controller_pawn as usize, "read local pawn handle")?,
    )?;
    if pawn_handle == INVALID_HANDLE {
        return Ok(None);
    }
    let pawn = match resolve_entity_handle(runtime, offsets, pawn_handle as i32)? {
        Some(pawn) => pawn,
        None => return Ok(None),
    };
    let game_scene_node = runtime.read_u64(
        checked_addr(pawn, offsets.pawn_game_scene_node as usize, "read pawn game scene node")?,
    )? as usize;
    if game_scene_node == 0 {
        return Ok(None);
    }
    let origin_bits = read_vec3_bits(
        runtime,
        checked_addr(
            game_scene_node,
            offsets.game_scene_node_origin as usize,
            "read game scene node origin",
        )?,
    )?;
    let eye_offset_bits = read_vec3_bits(
        runtime,
        checked_addr(pawn, offsets.pawn_eye_offset as usize, "read pawn eye offset")?,
    )?;
    let view_angles_addr = checked_addr(
        pawn,
        offsets.pawn_view_angles as usize,
        "read pawn view angles",
    )?;
    let pitch = runtime.read_f32_bits(view_angles_addr)?;
    let yaw = runtime.read_f32_bits(
        checked_addr(view_angles_addr, 4, "read pawn view angles second component")?,
    )?;
    let view_angles_bits = [pitch, yaw];
    assert(view_angles_bits@ =~= bits_at(old(runtime).memory(), view_angles_addr as int, 2));
    let velocity_bits = read_vec3_bits(
        runtime,
        checked_addr(pawn, offsets.pawn_velocity as usize, "read pawn velocity")?,
    )?;
    let flash_duration_bits = runtime.read_f32_bits(
        checked_addr(pawn, offsets.pawn_flash_duration as usize, "read pawn flash duration")?,
    )?;
    let is_scoped = runtime.read_u8(
        checked_addr(pawn, offsets.pawn_is_scoped as usize, "read pawn scoped")?,
    )? != 0;
    let shots_fired = runtime.read_i32(
        checked_addr(pawn, offsets.pawn_shots_fired as usize, "read pawn shots fired")?,
    )?;
    let aim_punch_angle_bits = match read_aim_punch_bits(runtime, pawn, offsets) {
        Ok(bits) => bits,
        Err(_) => [0, 0],
    };
    let crosshair_entity_index = runtime.read_i32(
        checked_addr(pawn, offsets.pawn_crosshair_entity as usize, "read pawn crosshair entity")?,
    )?;
    let health = runtime.read_i32(
        checked_addr(pawn, offsets.pawn_health as usize, "read pawn health")?,
    )?;
    let team_num = runtime.read_i32(
        checked_addr(pawn, offsets.pawn_team as usize, "read pawn team")?,
    )?;
    let life_state = runtime.read_u8(
        checked_addr(pawn, offsets.pawn_life_state as usize, "read pawn life state")?,
    )? as i32;
    let deathmatch_immunity = runtime.read_u8(
        checked_addr(
            pawn,
            offsets.pawn_deathmatch_immunity as usize,
            "read pawn deathmatch immunity",
        )?,
    )? != 0;
    Ok(
        Some(
            LocalPlayerRecord {
                controller,
                pawn,
                health,
                team_num,
                life_state,
                shots_fired,
                deathmatch_immunity,
                origin_bits,
                eye_offset_bits,
                view_angles_bits,
                aim_punch_angle_bits,
                velocity_bits,
                flash_duration_bits,
                is_scoped,
                crosshair_entity_index,
            },
        ),
    )
}

// ---------------------------------------------------------------------------
// The players of the entity list
// ---------------------------------------------------------------------------

/// The pawn and its scene node of the player controller at `entity` in
/// `memory`; none where the entity is not a player controller, its pawn
/// handle is invalid, the pawn is missing or its scene node is null.
pub open spec fn radar_player_path(memory: spec_fn(int) -> u8, offsets: DeadlockedStyleOffsets, entity: usize) -> Option<
    (usize, usize),
> {
    let handle = mem_u32(memory, entity + offsets.controller_pawn as usize);
    if class_name_at(memory, entity) != Some(PLAYER_CONTROLLER_CLASS@) || handle == INVALID_HANDLE {
        None
    } else {
        match entity_at(memory, offsets, ((handle as i32) as u32) & 0x7FFF) {
            None => None,
            Some(pawn) => {
                let node = mem_u64(memory, pawn + offsets.pawn_game_scene_node as usize) as usize;
                if node == 0 {
                    None
                } else {
                    Some((pawn, node))
                }
            },
        }
    }
}

/// `player` is what `memory` holds of the player controller at `entity`,
/// with `local_pawn` the local player's pawn.
pub open spec fn radar_player_agrees(
    memory: spec_fn(int) -> u8,
    offsets: DeadlockedStyleOffsets,
    entity: usize,
    local_pawn: Option<usize>,
    player: RadarPlayerRecord,
) -> bool {
    &&& radar_player_path(memory, offsets, entity) matches Some((pawn, node))
    &&& player.controller == entity
    &&& player.pawn == pawn
    &&& player.health == mem_u32(memory, pawn + offsets.pawn_health as usize) as i32
    &&& player.team_num == mem_u32(memory, pawn + offsets.pawn_team as usize) as i32
    &&& player.life_state == memory(pawn + offsets.pawn_life_state as usize) as i32
    &&& player.deathmatch_immunity == (memory(pawn + offsets.pawn_deathmatch_immunity as usize) != 0)
    &&& player.dormant == (memory(node + offsets.game_scene_node_dormant as usize) != 0)
    &&& player.origin_bits@ == bits_at(memory, node + offsets.game_scene_node_origin as usize, 3)
    &&& player.steam_id == mem_u64(memory, entity + offsets.controller_steam_id as usize)
    &&& (sanitized_name_at(memory, entity, offsets) == Some(player.name@) || player.name@ == player_name_at(
        memory,
        entity,
        offsets,
    ) || player.name@.len() == 0)
    &&& player.is_local == (local_pawn == Some(pawn))
}

/// The local player's pawn in `memory`, as the list walk takes it: through
/// the local controller's pawn handle, where both are set.
pub open spec fn radar_local_pawn(memory: spec_fn(int) -> u8, offsets: DeadlockedStyleOffsets) -> Option<usize> {
    let controller = mem_u64(memory, offsets.local_player_controller as int) as usize;
    let handle = if controller == 0 {
        INVALID_HANDLE
    } else {
        mem_u32(memory, controller + offsets.controller_pawn as usize)
    };
    if handle == INVALID_HANDLE {
        None
    } else {
        entity_at(memory, offsets, ((handle as i32) as u32) & 0x7FFF)
    }
}

/// Every read of the player controller at `entity` and of its pawn succeeds
/// and no address on the way overflows.
pub open spec fn radar_player_reads_ok(
    readable: spec_fn(int, nat) -> bool,
    memory: spec_fn(int) -> u8,
    offsets: DeadlockedStyleOffsets,
    entity: usize,
) -> bool {
    let handle = mem_u32(memory, entity + offsets.controller_pawn as usize);
    let index = ((handle as i32) as u32) & 0x7FFF;
    &&& class_name_readable(memory, readable, entity)
    &&& class_name_at(memory, entity) == Some(PLAYER_CONTROLLER_CLASS@) ==> {
        &&& fits_read(readable, entity as int, offsets.controller_pawn as usize as int, 4)
        &&& handle != INVALID_HANDLE ==> {
            &&& entity_reads_ok(readable, memory, offsets, index)
            &&& entity_at(memory, offsets, index) matches Some(pawn) ==> {
                let node = mem_u64(memory, pawn + offsets.pawn_game_scene_node as usize) as usize;
                &&& fits_read(readable, pawn as int, offsets.pawn_game_scene_node as usize as int, 8)
                &&& node != 0 ==> {
                    &&& fits_read(readable, pawn as int, offsets.pawn_health as usize as int, 4)
                    &&& fits_read(readable, pawn as int, offsets.pawn_team as usize as int, 4)
                    &&& fits_read(readable, pawn as int, offsets.pawn_life_state as usize as int, 1)
                    &&& fits_read(readable, pawn as int, offsets.pawn_deathmatch_immunity as usize as int, 1)
                    &&& fits_read(readable, node as int, offsets.game_scene_node_dormant as usize as int, 1)
                    &&& node + offsets.game_scene_node_origin as usize as int <= usize::MAX
                    &&& vec3_readable(readable, node + offsets.game_scene_node_origin as usize as int)
                    &&& fits_read(readable, entity as int, offsets.controller_steam_id as usize as int, 8)
                    &&& entity + offsets.controller_name as usize as int <= usize::MAX
                }
            }
        }
    }
}

/// Reads one player controller and its pawn; `Ok(None)` where the entity is
/// not a player controller or has no pawn or scene node.
fn read_radar_player<R: HeadlessRuntime>(
    runtime: &mut R,
    offsets: &DeadlockedStyleOffsets,
    entity: usize,
    local_pawn: Option<usize>,
) -> (r: Result<Option<RadarPlayerRecord>, HeadlessError>)
    ensures
        final(runtime).memory() == old(runtime).memory(),
        final(runtime).readable() == old(runtime).readable(),
        final(runtime).mappings() == old(runtime).mappings(),
        final(runtime).module_file() == old(runtime).module_file(),
        r matches Ok(None) ==> radar_player_path(old(runtime).memory(), *offsets, entity) is None,
        r matches Ok(Some(player)) ==> radar_player_agrees(old(runtime).memory(), *offsets, entity, local_pawn, player),
        r matches Ok(Some(player)) ==> {
            &&& player.controller == entity
            &&& player.pawn != 0
            &&& player.is_local == (local_pawn == Some(player.pawn))
        },
        radar_player_reads_ok(old(runtime).readable(), old(runtime).memory(), *offsets, entity) ==> r is Ok,
        r matches Ok(Some(player)) ==> (name_reads_ok(old(runtime).readable(), old(runtime).memory(), entity, *offsets)
            ==> player.name@ == display_name_at(old(runtime).memory(), entity, *offsets)),
{
    let class_name = match read_instance_class_name(runtime, entity)? {
        Some(name) => name,
        None => return Ok(None),
    };
    if class_name != PLAYER_CONTROLLER_CLASS.to_owned() {
        return Ok(None);
    }
    let controller = entity;
    let pawn_handle = runtime.read_u32(
        checked_addr(controller, offsets.controller_pawn as usize, "read controller pawn handle")?,
    )?;
    if pawn_handle == INVALID_HANDLE {
        return Ok(None);
    }
    let pawn = match resolve_entity_handle(runtime, offsets, pawn_handle as i32)? {
        Some(pawn) => pawn,
        None => return Ok(None),
    };
    let game_scene_node = runtime.read_u64(
        checked_addr(pawn, offsets.pawn_game_scene_node as usize, "read pawn game scene node")?,
    )? as usize;
    if game_scene_node == 0 {
        return Ok(None);
    }
    let health = runtime.read_i32(
        checked_addr(pawn, offsets.pawn_health as usize, "read pawn health")?,
    )?;
    let team_num = runtime.read_i32(
        checked_addr(pawn, offsets.pawn_team as usize, "read pawn team")?,
    )?;
    let life_state = runtime.read_u8(
        checked_addr(pawn, offsets.pawn_life_state as usize, "read pawn life state")?,
    )? as i32;
    let deathmatch_immunity = runtime.read_u8(
        checked_addr(
            pawn,
            offsets.pawn_deathmatch_immunity as usize,
            "read pawn deathmatch immunity",
        )?,
    )? != 0;
    let dormant = runtime.read_u8(
        checked_addr(
            game_scene_node,
            offsets.game_scene_node_dormant as usize,
            "read game scene node dormant",
        )?,
    )? != 0;
    let origin_bits = read_vec3_bits(
        runtime,
        checked_addr(
            game_scene_node,
            offsets.game_scene_node_origin as usize,
            "read game scene node origin",
        )?,
    )?;
    let steam_id = runtime.read_u64(
        checked_addr(controller, offsets.controller_steam_id as usize, "read controller steam id")?,
    )?;
    let name = read_controller_name(runtime, controller, offsets)?;
    let is_local = match local_pawn {
        Some(local) => local == pawn,
        None => false,
    };
    Ok(
        Some(
            RadarPlayerRecord {
                controller,
                pawn,
                name,
                steam_id,
                health,
                team_num,
                life_state,
                origin_bits,
                dormant,
                deathmatch_immunity,
                is_local,
            },
        ),
    )
}

/// The player controller that slot `j` of bucket `b` of the entity list
/// names: its entity, where the bucket pointer is set and a user-space
/// address, the slot holds an entity, the handle's index is the slot's entity
/// index, and the entity is a player controller with a pawn and a scene node.
pub open spec fn slot_player(memory: spec_fn(int) -> u8, offsets: DeadlockedStyleOffsets, b: int, j: int) -> Option<
    usize,
> {
    let bucket_ptr = mem_u64(memory, offsets.entity_root + b * 8) as usize;
    if bucket_ptr == 0 || (bucket_ptr as u64) >> 48 != 0 {
        None
    } else {
        let at = bucket_ptr + j * offsets.entity_identity_size;
        let entity = mem_u64(memory, at) as usize;
        let handle = mem_u32(memory, at + 0x10);
        if entity != 0 && (b * IDENTITIES_PER_BUCKET + j) as u32 == handle & 0x7FFF && radar_player_path(
            memory,
            offsets,
            entity,
        ) is Some {
            Some(entity)
        } else {
            None
        }
    }
}

/// The player controllers of the first `n` slots of bucket `b`, in order.
pub open spec fn bucket_players(memory: spec_fn(int) -> u8, offsets: DeadlockedStyleOffsets, b: int, n: nat) -> Seq<
    usize,
>
    decreases n,
{
    if n == 0 {
        Seq::empty()
    } else {
        let earlier = bucket_players(memory, offsets, b, (n - 1) as nat);
        match slot_player(memory, offsets, b, n - 1) {
            Some(entity) => earlier.push(entity),
            None => earlier,
        }
    }
}

/// The player controllers of the first `n` buckets of the entity list, in
/// ascending entity index.
pub open spec fn list_players(memory: spec_fn(int) -> u8, offsets: DeadlockedStyleOffsets, n: nat) -> Seq<usize>
    decreases n,
{
    if n == 0 {
        Seq::empty()
    } else {
        list_players(memory, offsets, (n - 1) as nat) + bucket_players(
            memory,
            offsets,
            n - 1,
            IDENTITIES_PER_BUCKET as nat,
        )
    }
}

proof fn lemma_skipped_bucket(memory: spec_fn(int) -> u8, offsets: DeadlockedStyleOffsets, b: int, n: nat)
    requires
        mem_u64(memory, offsets.entity_root + b * 8) as usize == 0 || (mem_u64(
            memory,
            offsets.entity_root + b * 8,
        ) as usize as u64) >> 48 != 0,
    ensures
        bucket_players(memory, offsets, b, n) == Seq::<usize>::empty(),
    decreases n,
{
    if n > 0 {
        lemma_skipped_bucket(memory, offsets, b, (n - 1) as nat);
    }
}

proof fn lemma_bytes_u64(memory: spec_fn(int) -> u8, address: int, len: nat, off: int)
    requires
        0 <= off,
        off + 8 <= len,
    ensures
        le_u64_at(mem_bytes(memory, address, len), off) == mem_u64(memory, address + off),
        off + 0x14 <= len ==> le_u32_at(mem_bytes(memory, address, len), off + 0x10) == mem_u32(
            memory,
            address + off + 0x10,
        ),
{
    assert(mem_bytes(memory, address, len).subrange(off, off + 8) =~= mem_bytes(memory, address + off, 8).subrange(
        0,
        8,
    ));
    if off + 0x14 <= len {
        assert(mem_bytes(memory, address, len).subrange(off + 0x10, off + 0x14) =~= mem_bytes(
            memory,
            address + off + 0x10,
            4,
        ).subrange(0, 4));
    }
}

/// Every read of the local controller and its pawn, as the list walk takes
/// them, succeeds and no address on the way overflows.
pub open spec fn radar_local_reads_ok(
    readable: spec_fn(int, nat) -> bool,
    memory: spec_fn(int) -> u8,
    offsets: DeadlockedStyleOffsets,
) -> bool {
    let controller = mem_u64(memory, offsets.local_player_controller as int) as usize;
    let handle = mem_u32(memory, controller + offsets.controller_pawn as usize);
    &&& readable(offsets.local_player_controller as int, 8)
    &&& controller != 0 ==> {
        &&& fits_read(readable, controller as int, offsets.controller_pawn as usize as int, 4)
        &&& handle != INVALID_HANDLE ==> entity_reads_ok(readable, memory, offsets, ((handle as i32) as u32) & 0x7FFF)
    }
}

/// Every read of bucket `b` of the entity list and of the players it holds
/// succeeds and no address on the way overflows.
pub open spec fn bucket_reads_ok(
    readable: spec_fn(int, nat) -> bool,
    memory: spec_fn(int) -> u8,
    offsets: DeadlockedStyleOffsets,
    b: int,
) -> bool {
    let bucket_ptr = mem_u64(memory, offsets.entity_root + b * 8) as usize;
    let size = offsets.entity_identity_size;
    &&& fits_read(readable, offsets.entity_root as int, b * 8, 8)
    &&& (bucket_ptr != 0 && (bucket_ptr as u64) >> 48 == 0) ==> {
        &&& IDENTITIES_PER_BUCKET * size <= usize::MAX
        &&& readable(bucket_ptr as int, (IDENTITIES_PER_BUCKET * size) as nat)
        &&& forall|j: int| 0 <= j < IDENTITIES_PER_BUCKET ==> #[trigger] slot_reads_ok(readable, memory, offsets, bucket_ptr, b, j)
    }
}

/// Where slot `j` of bucket `b`, whose identities start at `bucket_ptr`,
/// holds an entity at its own index, every read of that player succeeds.
pub open spec fn slot_reads_ok(
    readable: spec_fn(int, nat) -> bool,
    memory: spec_fn(int) -> u8,
    offsets: DeadlockedStyleOffsets,
    bucket_ptr: usize,
    b: int,
    j: int,
) -> bool {
    let at = bucket_ptr + j * offsets.entity_identity_size;
    let entity = mem_u64(memory, at) as usize;
    let handle = mem_u32(memory, at + 0x10);
    (entity != 0 && (b * IDENTITIES_PER_BUCKET + j) as u32 == handle & 0x7FFF) ==> radar_player_reads_ok(
        readable,
        memory,
        offsets,
        entity,
    )
}

/// Every read of the walk of the entity list succeeds and no address on
/// the way overflows.
pub open spec fn radar_reads_ok(
    readable: spec_fn(int, nat) -> bool,
    memory: spec_fn(int) -> u8,
    offsets: DeadlockedStyleOffsets,
) -> bool {
    &&& radar_local_reads_ok(readable, memory, offsets)
    &&& forall|b: int| 0 <= b < ENTITY_BUCKETS ==> #[trigger] bucket_reads_ok(readable, memory, offsets, b)
}

/// Reads every player of the entity list: each identity that holds an
/// entity, sits where its handle says, and is a player controller with a
/// pawn and a scene node. Buckets whose pointer is null or not a user-space
/// address are skipped.
pub fn read_radar_player_records<R: HeadlessRuntime>(
    runtime: &mut R,
    offsets: &DeadlockedStyleOffsets,
) -> (r: Result<Vec<RadarPlayerRecord>, HeadlessError>)
    requires
        offsets.entity_identity_size >= 0x14,
    ensures
        final(runtime).memory() == old(runtime).memory(),
        final(runtime).readable() == old(runtime).readable(),
        final(runtime).mappings() == old(runtime).mappings(),
        final(runtime).module_file() == old(runtime).module_file(),
        r matches Ok(players) ==> forall|i: int|
            0 <= i < players@.len() ==> radar_player_agrees(
                old(runtime).memory(),
                *offsets,
                (#[trigger] players@[i]).controller,
                radar_local_pawn(old(runtime).memory(), *offsets),
                players@[i],
            ),
        radar_reads_ok(old(runtime).readable(), old(runtime).memory(), *offsets) ==> r is Ok,
        r matches Ok(players) ==> forall|i: int|
            0 <= i < players@.len() ==> (name_reads_ok(
                old(runtime).readable(),
                old(runtime).memory(),
                (#[trigger] players@[i]).controller,
                *offsets,
            ) ==> players@[i].name@ == display_name_at(old(runtime).memory(), players@[i].controller, *offsets)),
        r matches Ok(players) ==> players@.map_values(|p: RadarPlayerRecord| p.controller) == list_players(
            old(runtime).memory(),
            *offsets,
            ENTITY_BUCKETS as nat,
        ),
        r matches Ok(players) ==> {
            &&& players@.len() <= ENTITY_BUCKETS * IDENTITIES_PER_BUCKET
            &&& forall|i: int|
                0 <= i < players@.len() ==> (#[trigger] players@[i]).controller != 0
                    && players@[i].pawn != 0
        },
{
    let local_controller = runtime.read_u64(offsets.local_player_controller)? as usize;
    let local_pawn_handle = if local_controller == 0 {
        INVALID_HANDLE
    } else {
        runtime.read_u32(
            checked_addr(
                local_controller,
                offsets.controller_pawn as usize,
                "read local controller pawn handle",
            )?,
        )?
    };
    let local_pawn = if local_pawn_handle == INVALID_HANDLE {
        None
    } else {
        resolve_entity_handle(runtime, offsets, local_pawn_handle as i32)?
    };
    assert(local_pawn == radar_local_pawn(old(runtime).memory(), *offsets));
    let size = offsets.entity_identity_size;
    let mut players: Vec<RadarPlayerRecord> = Vec::new();
    let mut bucket_index: usize = 0;
    while bucket_index < ENTITY_BUCKETS
        invariant
            runtime.memory() == old(runtime).memory(),
            runtime.readable() == old(runtime).readable(),
            runtime.mappings() == old(runtime).mappings(),
            runtime.module_file() == old(runtime).module_file(),
            local_pawn == radar_local_pawn(old(runtime).memory(), *offsets),
            forall|i: int|
                0 <= i < players@.len() ==> radar_player_agrees(
                    old(runtime).memory(),
                    *offsets,
                    (#[trigger] players@[i]).controller,
                    local_pawn,
                    players@[i],
                ),
            bucket_index <= ENTITY_BUCKETS,
            forall|i: int|
                0 <= i < players@.len() ==> (name_reads_ok(
                    old(runtime).readable(),
                    old(runtime).memory(),
                    (#[trigger] players@[i]).controller,
                    *offsets,
                ) ==> players@[i].name@ == display_name_at(old(runtime).memory(), players@[i].controller, *offsets)),
            size == offsets.entity_identity_size,
            size >= 0x14,
            players@.len() <= bucket_index * IDENTITIES_PER_BUCKET,
            forall|i: int|
                0 <= i < players@.len() ==> (#[trigger] players@[i]).controller != 0
                    && players@[i].pawn != 0,
            players@.map_values(|p: RadarPlayerRecord| p.controller) == list_players(
                old(runtime).memory(),
                *offsets,
                bucket_index as nat,
            ),
        decreases ENTITY_BUCKETS - bucket_index,
    {
        proof {
            if radar_reads_ok(old(runtime).readable(), old(runtime).memory(), *offsets) {
                assert(bucket_reads_ok(old(runtime).readable(), old(runtime).memory(), *offsets, bucket_index as int));
            }
        }
        let bucket_ptr = runtime.read_u64(
            checked_addr(
                offsets.entity_root,
                checked_mul(bucket_index, 8, "entity root bucket index")?,
                "read entity root bucket pointer",
            )?,
        )? as usize;
        if bucket_ptr != 0 && ((bucket_ptr as u64) >> 48) == 0 {
            let bucket_len = match IDENTITIES_PER_BUCKET.checked_mul(size) {
                Some(len) => len,
                None => {
                    return Err(
                        HeadlessError::MultiplicationOverflow {
                            context: "entity identity bucket size overflow",
                            index: IDENTITIES_PER_BUCKET,
                            stride: size,
                        },
                    );
                },
            };
            let bucket = runtime.read_bytes(bucket_ptr, bucket_len)?;
            let mut index_in_bucket: usize = 0;
            while index_in_bucket < IDENTITIES_PER_BUCKET
                invariant
                    runtime.memory() == old(runtime).memory(),
                    runtime.readable() == old(runtime).readable(),
                    runtime.mappings() == old(runtime).mappings(),
                    runtime.module_file() == old(runtime).module_file(),
                    local_pawn == radar_local_pawn(old(runtime).memory(), *offsets),
                    forall|i: int|
                        0 <= i < players@.len() ==> radar_player_agrees(
                            old(runtime).memory(),
                            *offsets,
                            (#[trigger] players@[i]).controller,
                            local_pawn,
                            players@[i],
                        ),
                    bucket_index < ENTITY_BUCKETS,
                    forall|i: int|
                        0 <= i < players@.len() ==> (name_reads_ok(
                            old(runtime).readable(),
                            old(runtime).memory(),
                            (#[trigger] players@[i]).controller,
                            *offsets,
                        ) ==> players@[i].name@ == display_name_at(old(runtime).memory(), players@[i].controller, *offsets)),
                    index_in_bucket <= IDENTITIES_PER_BUCKET,
                    size == offsets.entity_identity_size,
                    size >= 0x14,
                    bucket@.len() == IDENTITIES_PER_BUCKET * size,
                    IDENTITIES_PER_BUCKET * size <= usize::MAX,
                    players@.len() <= bucket_index * IDENTITIES_PER_BUCKET + index_in_bucket,
                    forall|i: int|
                        0 <= i < players@.len() ==> (#[trigger] players@[i]).controller != 0
                            && players@[i].pawn != 0,
                    bucket_ptr == mem_u64(old(runtime).memory(), offsets.entity_root + bucket_index * 8) as usize,
                    bucket_ptr != 0 && ((bucket_ptr as u64) >> 48) == 0,
                    bucket@ == mem_bytes(old(runtime).memory(), bucket_ptr as int, bucket@.len()),
                    players@.map_values(|p: RadarPlayerRecord| p.controller) == list_players(
                        old(runtime).memory(),
                        *offsets,
                        bucket_index as nat,
                    ) + bucket_players(old(runtime).memory(), *offsets, bucket_index as int, index_in_bucket as nat),
                decreases IDENTITIES_PER_BUCKET - index_in_bucket,
            {
                let ghost before = players@;
                proof {
                    assert(index_in_bucket * size + 0x14 <= IDENTITIES_PER_BUCKET * size) by (nonlinear_arith)
                        requires
                            index_in_bucket < IDENTITIES_PER_BUCKET,
                            size >= 0x14,
                    ;
                }
                let identity_offset = index_in_bucket * size;
                proof {
                    lemma_bytes_u64(old(runtime).memory(), bucket_ptr as int, bucket@.len(), identity_offset as int);
                    if radar_reads_ok(old(runtime).readable(), old(runtime).memory(), *offsets) {
                        assert(bucket_reads_ok(old(runtime).readable(), old(runtime).memory(), *offsets, bucket_index as int));
                        assert(slot_reads_ok(
                            old(runtime).readable(),
                            old(runtime).memory(),
                            *offsets,
                            bucket_ptr,
                            bucket_index as int,
                            index_in_bucket as int,
                        ));
                    }
                }
                let entity = read_u64_le(bucket.as_slice(), identity_offset) as usize;
                if entity != 0 {
                    let handle = read_u32_le(bucket.as_slice(), identity_offset + 0x10);
                    let handle_index = handle & 0x7FFF;
                    let entity_index = (bucket_index * IDENTITIES_PER_BUCKET + index_in_bucket) as u32;
                    if entity_index == handle_index {
                        if let Some(player) = read_radar_player(runtime, offsets, entity, local_pawn)? {
                            players.push(player);
                            proof {
                                assert(players@.map_values(|p: RadarPlayerRecord| p.controller) =~= before.map_values(
                                    |p: RadarPlayerRecord| p.controller,
                                ).push(entity));
                            }
                        }
                    }
                }
                proof {
                    assert(slot_player(old(runtime).memory(), *offsets, bucket_index as int, index_in_bucket as int)
                        == (if players@.len() > before.len() { Some(entity) } else { None::<usize> }));
                }
                index_in_bucket = index_in_bucket + 1;
            }
        } else {
            proof {
                lemma_skipped_bucket(
                    old(runtime).memory(),
                    *offsets,
                    bucket_index as int,
                    IDENTITIES_PER_BUCKET as nat,
                );
                assert(list_players(old(runtime).memory(), *offsets, (bucket_index + 1) as nat) =~= list_players(
                    old(runtime).memory(),
                    *offsets,
                    bucket_index as nat,
                ));
            }
        }
        bucket_index = bucket_index + 1;
    }
    Ok(players)
}

} // verus!

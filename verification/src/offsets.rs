//! Offsets of the game's entity fields, discovered from the live schema and
//! from the code of the client library, and what needs them.
use vstd::prelude::*;

use crate::interfaces::{interface_found, resolve_interface_instance};
use crate::module_scan::{pattern_found_at, relative_target};
use crate::pattern::pattern_tokens;
use crate::runtime::{checked_addr, mem_u32, mem_u64, HeadlessError, HeadlessRuntime, ModuleImage};
use crate::schema::{all_scopes_read, scopes_keyed_by_name, ModuleScope, SchemaSystem};

verus! {

/// Where in a controller, pawn or scene node each value the players readers
/// need is found, and where the entity list and the local controller are.
#[derive(Debug, Clone, Copy, PartialEq, Eq, Structural)]
pub struct DeadlockedStyleOffsets {
    pub entity_root: usize,
    pub local_player_controller: usize,
    pub controller_steam_id: u64,
    pub controller_name: u64,
    pub controller_sanitized_name: Option<u64>,
    pub controller_pawn: u64,
    pub controller_score: u64,
    pub controller_inventory_services: u64,
    pub inventory_persona_public_level: u64,
    pub pawn_health: u64,
    pub pawn_team: u64,
    pub pawn_life_state: u64,
    pub pawn_game_scene_node: u64,
    pub pawn_eye_offset: u64,
    pub pawn_eye_angles: u64,
    pub pawn_view_angles: u64,
    pub pawn_shots_fired: u64,
    pub pawn_aim_punch_angle: u64,
    pub pawn_aim_punch_services: u64,
    pub pawn_crosshair_entity: u64,
    pub pawn_velocity: u64,
    pub pawn_flash_duration: u64,
    pub pawn_is_scoped: u64,
    pub pawn_deathmatch_immunity: u64,
    pub game_scene_node_dormant: u64,
    pub game_scene_node_origin: u64,
    pub game_scene_node_model_state: u64,
    pub model_state_skeleton_instance: u64,
    pub aim_punch_cache: u64,
    pub entity_identity_size: usize,
}

/// The offset of `field` of `class` in `scope`, where both exist.
pub open spec fn schema_field(scope: ModuleScope, class: Seq<char>, field: Seq<char>) -> Option<u64> {
    if scope.class_map().contains_key(class) && scope.class_map()[class].field_map().contains_key(
        field,
    ) {
        Some(scope.class_map()[class].field_map()[field])
    } else {
        None
    }
}

/// The first of two alternatives that is present.
pub open spec fn either(first: Option<u64>, second: Option<u64>) -> Option<u64> {
    match first {
        Some(v) => Some(v),
        None => second,
    }
}

/// `a - b`, held at zero.
pub open spec fn sat_sub(a: u64, b: u64) -> u64 {
    if a >= b {
        (a - b) as u64
    } else {
        0
    }
}

/// The fields the offsets cannot do without, in the order they are looked
/// up, each with the message of its absence.
pub open spec fn required_fields(scope: ModuleScope) -> Seq<(Option<u64>, &'static str)> {
    seq![
        (either(schema_field(scope, "CBasePlayerController"@, "m_steamID"@), schema_field(scope, "CCSPlayerController"@, "m_steamID"@)), "missing player controller steam id field"),
        (either(schema_field(scope, "CBasePlayerController"@, "m_iszPlayerName"@), schema_field(scope, "CCSPlayerController"@, "m_iszPlayerName"@)), "missing player controller name field"),
        (either(schema_field(scope, "CBasePlayerController"@, "m_hPawn"@), schema_field(scope, "CCSPlayerController"@, "m_hPawn"@)), "missing player controller pawn handle field"),
        (schema_field(scope, "CCSPlayerController"@, "m_iScore"@), "missing CCSPlayerController::m_iScore"),
        (schema_field(scope, "CCSPlayerController"@, "m_pInventoryServices"@), "missing CCSPlayerController::m_pInventoryServices"),
        (schema_field(scope, "CCSPlayerController_InventoryServices"@, "m_nPersonaDataPublicLevel"@), "missing CCSPlayerController_InventoryServices::m_nPersonaDataPublicLevel"),
        (schema_field(scope, "C_BaseEntity"@, "m_iHealth"@), "missing C_BaseEntity::m_iHealth"),
        (schema_field(scope, "C_BaseEntity"@, "m_iTeamNum"@), "missing C_BaseEntity::m_iTeamNum"),
        (schema_field(scope, "C_BaseEntity"@, "m_lifeState"@), "missing C_BaseEntity::m_lifeState"),
        (schema_field(scope, "C_BaseEntity"@, "m_pGameSceneNode"@), "missing C_BaseEntity::m_pGameSceneNode"),
        (schema_field(scope, "C_BaseModelEntity"@, "m_vecViewOffset"@), "missing C_BaseModelEntity::m_vecViewOffset"),
        (schema_field(scope, "C_CSPlayerPawn"@, "m_angEyeAngles"@), "missing C_CSPlayerPawn::m_angEyeAngles"),
        (schema_field(scope, "C_BasePlayerPawn"@, "v_angle"@), "missing C_BasePlayerPawn::v_angle"),
        (schema_field(scope, "C_CSPlayerPawn"@, "m_iShotsFired"@), "missing C_CSPlayerPawn::m_iShotsFired"),
        (schema_field(scope, "C_CSPlayerPawn"@, "m_pAimPunchServices"@), "missing C_CSPlayerPawn::m_pAimPunchServices"),
        (schema_field(scope, "C_CSPlayerPawn"@, "m_iIDEntIndex"@), "missing C_CSPlayerPawn::m_iIDEntIndex"),
        (schema_field(scope, "C_BaseEntity"@, "m_vecAbsVelocity"@), "missing C_BaseEntity::m_vecAbsVelocity"),
        (schema_field(scope, "C_CSPlayerPawnBase"@, "m_flFlashDuration"@), "missing C_CSPlayerPawnBase::m_flFlashDuration"),
        (schema_field(scope, "C_CSPlayerPawn"@, "m_bIsScoped"@), "missing C_CSPlayerPawn::m_bIsScoped"),
        (schema_field(scope, "C_CSPlayerPawn"@, "m_bGunGameImmunity"@), "missing C_CSPlayerPawn::m_bGunGameImmunity"),
        (schema_field(scope, "CGameSceneNode"@, "m_bDormant"@), "missing CGameSceneNode::m_bDormant"),
        (schema_field(scope, "CGameSceneNode"@, "m_vecAbsOrigin"@), "missing CGameSceneNode::m_vecAbsOrigin"),
        (schema_field(scope, "CSkeletonInstance"@, "m_modelState"@), "missing CSkeletonInstance::m_modelState"),
        (schema_field(scope, "CBodyComponentSkeletonInstance"@, "m_skeletonInstance"@), "missing CBodyComponentSkeletonInstance::m_skeletonInstance"),
        (schema_field(scope, "CCSPlayer_AimPunchServices"@, "m_unpredictableBaseTick"@), "missing CCSPlayer_AimPunchServices::m_unpredictableBaseTick"),
    ]
}

/// The required field at `k` is the first one missing.
pub open spec fn is_first_missing(reqs: Seq<(Option<u64>, &'static str)>, k: int) -> bool {
    &&& 0 <= k < reqs.len()
    &&& reqs[k].0 is None
    &&& forall|j: int| 0 <= j < k ==> (#[trigger] reqs[j]).0 is Some
}

/// The offsets the schema gives, with the entity list at `entity_root` and
/// the local controller at `local_player_controller`; the message of the
/// first thing missing where something required is missing.
pub open spec fn offsets_outcome(
    entity_root: usize,
    local_player_controller: usize,
    schema: SchemaSystem,
) -> Result<DeadlockedStyleOffsets, HeadlessError> {
    if !schema.scope_map().contains_key("libclient.so"@) {
        Err(HeadlessError::Missing { context: "missing libclient.so schema scope" })
    } else if !schema.scope_map()["libclient.so"@].class_map().contains_key("CEntityIdentity"@) {
        Err(HeadlessError::Missing { context: "missing CEntityIdentity schema class" })
    } else {
        let scope = schema.scope_map()["libclient.so"@];
        let reqs = required_fields(scope);
        if exists|k: int| is_first_missing(reqs, k) {
            Err(
                HeadlessError::Missing {
                    context: reqs[choose|k: int| is_first_missing(reqs, k)].1,
                },
            )
        } else {
            Ok(DeadlockedStyleOffsets {
            entity_root,
            local_player_controller,
            controller_steam_id: reqs[0].0->0,
            controller_name: reqs[1].0->0,
            controller_sanitized_name: schema_field(scope, "CCSPlayerController"@, "m_sSanitizedPlayerName"@),
            controller_pawn: reqs[2].0->0,
            controller_score: reqs[3].0->0,
            controller_inventory_services: reqs[4].0->0,
            inventory_persona_public_level: reqs[5].0->0,
            pawn_health: reqs[6].0->0,
            pawn_team: reqs[7].0->0,
            pawn_life_state: reqs[8].0->0,
            pawn_game_scene_node: reqs[9].0->0,
            pawn_eye_offset: reqs[10].0->0,
            pawn_eye_angles: reqs[11].0->0,
            pawn_view_angles: reqs[12].0->0,
            pawn_shots_fired: reqs[13].0->0,
            pawn_aim_punch_angle: match schema_field(scope, "C_CSPlayerPawn"@, "m_aimPunchAngle"@) { Some(v) => v, None => 0 },
            pawn_aim_punch_services: reqs[14].0->0,
            pawn_crosshair_entity: reqs[15].0->0,
            pawn_velocity: reqs[16].0->0,
            pawn_flash_duration: reqs[17].0->0,
            pawn_is_scoped: reqs[18].0->0,
            pawn_deathmatch_immunity: reqs[19].0->0,
            game_scene_node_dormant: reqs[20].0->0,
            game_scene_node_origin: reqs[21].0->0,
            game_scene_node_model_state: reqs[22].0->0,
            model_state_skeleton_instance: reqs[23].0->0,
            aim_punch_cache: sat_sub(reqs[24].0->0, 0x18),
            entity_identity_size: scope.class_map()["CEntityIdentity"@].size_view() as usize,
            })
        }
    }
}

/// The offsets a schema gives come each from the schema field of its own
/// name: the health offset is `C_BaseEntity::m_iHealth`, the life state
/// `C_BaseEntity::m_lifeState`, and so on for every field, with the
/// controller's steam id, name and pawn taken from `CBasePlayerController`
/// where it has them and from `CCSPlayerController` otherwise. Without the
/// `libclient.so` scope, or its `CEntityIdentity` class, there are none.
pub proof fn lemma_offsets_name_their_fields(
    entity_root: usize,
    local_player_controller: usize,
    schema: SchemaSystem,
)
    ensures
        !schema.scope_map().contains_key("libclient.so"@) ==> offsets_outcome(
            entity_root,
            local_player_controller,
            schema,
        ) == Err::<DeadlockedStyleOffsets, HeadlessError>(
            HeadlessError::Missing { context: "missing libclient.so schema scope" },
        ),
        offsets_outcome(entity_root, local_player_controller, schema) matches Ok(o) ==> {
            let scope = schema.scope_map()["libclient.so"@];
            &&& scope.class_map().contains_key("CEntityIdentity"@)
            &&& (schema_field(scope, "CBasePlayerController"@, "m_steamID"@) matches Some(v) ==> o.controller_steam_id == v)
            &&& (schema_field(scope, "CBasePlayerController"@, "m_steamID"@) is None ==> schema_field(scope, "CCSPlayerController"@, "m_steamID"@) == Some(o.controller_steam_id))
            &&& (schema_field(scope, "CBasePlayerController"@, "m_iszPlayerName"@) matches Some(v) ==> o.controller_name == v)
            &&& (schema_field(scope, "CBasePlayerController"@, "m_iszPlayerName"@) is None ==> schema_field(scope, "CCSPlayerController"@, "m_iszPlayerName"@) == Some(o.controller_name))
            &&& (schema_field(scope, "CBasePlayerController"@, "m_hPawn"@) matches Some(v) ==> o.controller_pawn == v)
            &&& (schema_field(scope, "CBasePlayerController"@, "m_hPawn"@) is None ==> schema_field(scope, "CCSPlayerController"@, "m_hPawn"@) == Some(o.controller_pawn))
            &&& schema_field(scope, "CCSPlayerController"@, "m_iScore"@) == Some(o.controller_score)
            &&& schema_field(scope, "CCSPlayerController"@, "m_pInventoryServices"@) == Some(o.controller_inventory_services)
            &&& schema_field(scope, "CCSPlayerController_InventoryServices"@, "m_nPersonaDataPublicLevel"@) == Some(o.inventory_persona_public_level)
            &&& schema_field(scope, "C_BaseEntity"@, "m_iHealth"@) == Some(o.pawn_health)
            &&& schema_field(scope, "C_BaseEntity"@, "m_iTeamNum"@) == Some(o.pawn_team)
            &&& schema_field(scope, "C_BaseEntity"@, "m_lifeState"@) == Some(o.pawn_life_state)
            &&& schema_field(scope, "C_BaseEntity"@, "m_pGameSceneNode"@) == Some(o.pawn_game_scene_node)
            &&& schema_field(scope, "C_BaseModelEntity"@, "m_vecViewOffset"@) == Some(o.pawn_eye_offset)
            &&& schema_field(scope, "C_CSPlayerPawn"@, "m_angEyeAngles"@) == Some(o.pawn_eye_angles)
            &&& schema_field(scope, "C_BasePlayerPawn"@, "v_angle"@) == Some(o.pawn_view_angles)
            &&& schema_field(scope, "C_CSPlayerPawn"@, "m_iShotsFired"@) == Some(o.pawn_shots_fired)
            &&& schema_field(scope, "C_CSPlayerPawn"@, "m_pAimPunchServices"@) == Some(o.pawn_aim_punch_services)
            &&& schema_field(scope, "C_CSPlayerPawn"@, "m_iIDEntIndex"@) == Some(o.pawn_crosshair_entity)
            &&& schema_field(scope, "C_BaseEntity"@, "m_vecAbsVelocity"@) == Some(o.pawn_velocity)
            &&& schema_field(scope, "C_CSPlayerPawnBase"@, "m_flFlashDuration"@) == Some(o.pawn_flash_duration)
            &&& schema_field(scope, "C_CSPlayerPawn"@, "m_bIsScoped"@) == Some(o.pawn_is_scoped)
            &&& schema_field(scope, "C_CSPlayerPawn"@, "m_bGunGameImmunity"@) == Some(o.pawn_deathmatch_immunity)
            &&& schema_field(scope, "CGameSceneNode"@, "m_bDormant"@) == Some(o.game_scene_node_dormant)
            &&& schema_field(scope, "CGameSceneNode"@, "m_vecAbsOrigin"@) == Some(o.game_scene_node_origin)
            &&& schema_field(scope, "CSkeletonInstance"@, "m_modelState"@) == Some(o.game_scene_node_model_state)
            &&& schema_field(scope, "CBodyComponentSkeletonInstance"@, "m_skeletonInstance"@) == Some(o.model_state_skeleton_instance)
            &&& o.controller_sanitized_name == schema_field(scope, "CCSPlayerController"@, "m_sSanitizedPlayerName"@)
            &&& o.pawn_aim_punch_angle == (match schema_field(scope, "C_CSPlayerPawn"@, "m_aimPunchAngle"@) {
                Some(v) => v,
                None => 0,
            })
            &&& (schema_field(scope, "CCSPlayer_AimPunchServices"@, "m_unpredictableBaseTick"@) matches Some(v) && o.aim_punch_cache == (if v >= 0x18 {
                (v - 0x18) as u64
            } else {
                0
            }))
            &&& o.entity_identity_size == scope.class_map()["CEntityIdentity"@].size_view() as usize
            &&& o.entity_root == entity_root
            &&& o.local_player_controller == local_player_controller
        },
{
    if schema.scope_map().contains_key("libclient.so"@) && schema.scope_map()["libclient.so"@].class_map().contains_key(
        "CEntityIdentity"@,
    ) {
        let scope = schema.scope_map()["libclient.so"@];
        let reqs = required_fields(scope);
        if !(exists|k: int| is_first_missing(reqs, k)) {
            lemma_all_present(reqs, reqs.len());
            assert(reqs[0].0 is Some);
            assert(reqs[24].0 is Some);
        }
    }
}

proof fn lemma_all_present(reqs: Seq<(Option<u64>, &'static str)>, n: nat)
    requires
        n <= reqs.len(),
        !(exists|k: int| is_first_missing(reqs, k)),
    ensures
        forall|j: int| 0 <= j < n ==> (#[trigger] reqs[j]).0 is Some,
    decreases n,
{
    if n > 0 {
        lemma_all_present(reqs, (n - 1) as nat);
        if reqs[n - 1].0 is None {
            assert(is_first_missing(reqs, n - 1));
        }
    }
}

/// The offset of `field` of `class` in `scope`.
fn field_of(scope: &ModuleScope, class: &str, field: &str) -> (r: Option<u64>)
    ensures
        r == schema_field(*scope, class@, field@),
{
    match scope.get_class(class) {
        Some(c) => c.get(field),
        None => None,
    }
}

fn either_of(first: Option<u64>, second: Option<u64>) -> (r: Option<u64>)
    ensures
        r == either(first, second),
{
    match first {
        Some(v) => Some(v),
        None => second,
    }
}

fn present(reqs: &Vec<(Option<u64>, &'static str)>, k: usize) -> (v: u64)
    requires
        k < reqs@.len(),
        reqs@[k as int].0 is Some,
    ensures
        v == reqs@[k as int].0->0,
{
    match reqs[k].0 {
        Some(v) => v,
        None => 0,
    }
}

/// The offsets the schema gives, with the entity list at `entity_root` and
/// the local controller at `local_player_controller`.
pub fn offsets_from_schema(
    entity_root: usize,
    local_player_controller: usize,
    schema: &SchemaSystem,
) -> (r: Result<DeadlockedStyleOffsets, HeadlessError>)
    ensures
        r == offsets_outcome(entity_root, local_player_controller, *schema),
{
    let scope = match schema.get_library("libclient.so") {
        Some(scope) => scope,
        None => return Err(HeadlessError::Missing { context: "missing libclient.so schema scope" }),
    };
    let identity = match scope.get_class("CEntityIdentity") {
        Some(class) => class,
        None => return Err(HeadlessError::Missing { context: "missing CEntityIdentity schema class" }),
    };
    let entity_identity_size = identity.size() as usize;
    let mut reqs: Vec<(Option<u64>, &'static str)> = Vec::new();
    reqs.push((either_of(field_of(scope, "CBasePlayerController", "m_steamID"), field_of(scope, "CCSPlayerController", "m_steamID")), "missing player controller steam id field"));
    reqs.push((either_of(field_of(scope, "CBasePlayerController", "m_iszPlayerName"), field_of(scope, "CCSPlayerController", "m_iszPlayerName")), "missing player controller name field"));
    reqs.push((either_of(field_of(scope, "CBasePlayerController", "m_hPawn"), field_of(scope, "CCSPlayerController", "m_hPawn")), "missing player controller pawn handle field"));
    reqs.push((field_of(scope, "CCSPlayerController", "m_iScore"), "missing CCSPlayerController::m_iScore"));
    reqs.push((field_of(scope, "CCSPlayerController", "m_pInventoryServices"), "missing CCSPlayerController::m_pInventoryServices"));
    reqs.push((field_of(scope, "CCSPlayerController_InventoryServices", "m_nPersonaDataPublicLevel"), "missing CCSPlayerController_InventoryServices::m_nPersonaDataPublicLevel"));
    reqs.push((field_of(scope, "C_BaseEntity", "m_iHealth"), "missing C_BaseEntity::m_iHealth"));
    reqs.push((field_of(scope, "C_BaseEntity", "m_iTeamNum"), "missing C_BaseEntity::m_iTeamNum"));
    reqs.push((field_of(scope, "C_BaseEntity", "m_lifeState"), "missing C_BaseEntity::m_lifeState"));
    reqs.push((field_of(scope, "C_BaseEntity", "m_pGameSceneNode"), "missing C_BaseEntity::m_pGameSceneNode"));
    reqs.push((field_of(scope, "C_BaseModelEntity", "m_vecViewOffset"), "missing C_BaseModelEntity::m_vecViewOffset"));
    reqs.push((field_of(scope, "C_CSPlayerPawn", "m_angEyeAngles"), "missing C_CSPlayerPawn::m_angEyeAngles"));
    reqs.push((field_of(scope, "C_BasePlayerPawn", "v_angle"), "missing C_BasePlayerPawn::v_angle"));
    reqs.push((field_of(scope, "C_CSPlayerPawn", "m_iShotsFired"), "missing C_CSPlayerPawn::m_iShotsFired"));
    reqs.push((field_of(scope, "C_CSPlayerPawn", "m_pAimPunchServices"), "missing C_CSPlayerPawn::m_pAimPunchServices"));
    reqs.push((field_of(scope, "C_CSPlayerPawn", "m_iIDEntIndex"), "missing C_CSPlayerPawn::m_iIDEntIndex"));
    reqs.push((field_of(scope, "C_BaseEntity", "m_vecAbsVelocity"), "missing C_BaseEntity::m_vecAbsVelocity"));
    reqs.push((field_of(scope, "C_CSPlayerPawnBase", "m_flFlashDuration"), "missing C_CSPlayerPawnBase::m_flFlashDuration"));
    reqs.push((field_of(scope, "C_CSPlayerPawn", "m_bIsScoped"), "missing C_CSPlayerPawn::m_bIsScoped"));
    reqs.push((field_of(scope, "C_CSPlayerPawn", "m_bGunGameImmunity"), "missing C_CSPlayerPawn::m_bGunGameImmunity"));
    reqs.push((field_of(scope, "CGameSceneNode", "m_bDormant"), "missing CGameSceneNode::m_bDormant"));
    reqs.push((field_of(scope, "CGameSceneNode", "m_vecAbsOrigin"), "missing CGameSceneNode::m_vecAbsOrigin"));
    reqs.push((field_of(scope, "CSkeletonInstance", "m_modelState"), "missing CSkeletonInstance::m_modelState"));
    reqs.push((field_of(scope, "CBodyComponentSkeletonInstance", "m_skeletonInstance"), "missing CBodyComponentSkeletonInstance::m_skeletonInstance"));
    reqs.push((field_of(scope, "CCSPlayer_AimPunchServices", "m_unpredictableBaseTick"), "missing CCSPlayer_AimPunchServices::m_unpredictableBaseTick"));
    assert(reqs@ =~= required_fields(*scope));
    let mut k: usize = 0;
    while k < reqs.len()
        invariant
            k <= reqs@.len(),
            reqs@ == required_fields(*scope),
            schema.scope_map().contains_key("libclient.so"@),
            *scope == schema.scope_map()["libclient.so"@],
            scope.class_map().contains_key("CEntityIdentity"@),
            forall|j: int| 0 <= j < k ==> (#[trigger] reqs@[j]).0 is Some,
        decreases reqs.len() - k,
    {
        if reqs[k].0.is_none() {
            proof {
                assert(is_first_missing(reqs@, k as int));
                let c = choose|c: int| is_first_missing(reqs@, c);
                if c < k {
                    assert(reqs@[c].0 is Some);
                } else if k < c {
                    assert(reqs@[k as int].0 is Some);
                }
            }
            return Err(HeadlessError::Missing { context: reqs[k].1 });
        }
        k = k + 1;
    }
    proof {
        assert forall|c: int| !is_first_missing(reqs@, c) by {
            if 0 <= c < reqs@.len() {
                assert(reqs@[c].0 is Some);
            }
        }
    }
    Ok(DeadlockedStyleOffsets {
        entity_root,
        local_player_controller,
        controller_steam_id: present(&reqs, 0),
        controller_name: present(&reqs, 1),
        controller_sanitized_name: field_of(scope, "CCSPlayerController", "m_sSanitizedPlayerName"),
        controller_pawn: present(&reqs, 2),
        controller_score: present(&reqs, 3),
        controller_inventory_services: present(&reqs, 4),
        inventory_persona_public_level: present(&reqs, 5),
        pawn_health: present(&reqs, 6),
        pawn_team: present(&reqs, 7),
        pawn_life_state: present(&reqs, 8),
        pawn_game_scene_node: present(&reqs, 9),
        pawn_eye_offset: present(&reqs, 10),
        pawn_eye_angles: present(&reqs, 11),
        pawn_view_angles: present(&reqs, 12),
        pawn_shots_fired: present(&reqs, 13),
        pawn_aim_punch_angle: match field_of(scope, "C_CSPlayerPawn", "m_aimPunchAngle") { Some(v) => v, None => 0 },
        pawn_aim_punch_services: present(&reqs, 14),
        pawn_crosshair_entity: present(&reqs, 15),
        pawn_velocity: present(&reqs, 16),
        pawn_flash_duration: present(&reqs, 17),
        pawn_is_scoped: present(&reqs, 18),
        pawn_deathmatch_immunity: present(&reqs, 19),
        game_scene_node_dormant: present(&reqs, 20),
        game_scene_node_origin: present(&reqs, 21),
        game_scene_node_model_state: present(&reqs, 22),
        model_state_skeleton_instance: present(&reqs, 23),
        aim_punch_cache: present(&reqs, 24).saturating_sub(0x18),
        entity_identity_size,
    })
}

/// Finds the local controller in `libclient.so`: a `cmp qword [rip + disp], 0`
/// of it in the function that tells whether there is one.
pub const LOCAL_PLAYER_CONTROLLER_PATTERN: &'static str = "48 83 3D ? ? ? ? 00 0F 95 C0 C3";

/// The interface of `libengine2.so` that holds the entity list.
pub const GAME_RESOURCE_SERVICE_INTERFACE: &'static str = "GameResourceServiceClientV0";

/// Discovers the offsets in the attached process: the local controller from
/// the code of `libclient.so`, the entity list from the game resource service
/// of `libengine2.so`, and the field offsets from the live schema.
///
/// Whatever the process holds, offsets that come back are those that a schema
/// read from its memory gives, each class and scope filed under its own name,
/// and the entity list is `0x10` past the pointer held `0x50` into the game
/// resource service.
pub fn find_deadlocked_style_offsets<R: HeadlessRuntime>(runtime: &mut R) -> (r: Result<
    DeadlockedStyleOffsets,
    HeadlessError,
>)
    ensures
        final(runtime).memory() == old(runtime).memory(),
        final(runtime).readable() == old(runtime).readable(),
        final(runtime).mappings() == old(runtime).mappings(),
        final(runtime).module_file() == old(runtime).module_file(),
        r matches Ok(offsets) ==> exists|schema: SchemaSystem|
            scopes_keyed_by_name(schema) && all_scopes_read(old(runtime).memory(), schema.scope_map())
                && r == offsets_outcome(
                offsets.entity_root,
                offsets.local_player_controller,
                schema,
            ),
        r matches Ok(offsets) ==> exists|resource: usize, module: ModuleImage, file: Seq<u8>|
            #[trigger] interface_found(
                old(runtime).memory(),
                module,
                file,
                GAME_RESOURCE_SERVICE_INTERFACE@,
                Ok::<Option<usize>, HeadlessError>(Some(resource)),
            ) && offsets.entity_root == mem_u64(old(runtime).memory(), resource + 0x50) as usize + 0x10,
        r matches Ok(offsets) ==> exists|at: usize|
            #[trigger] relative_target(at, 8, mem_u32(old(runtime).memory(), at + 3) as i32) == Ok::<
                usize,
                HeadlessError,
            >(offsets.local_player_controller) && (pattern_tokens(LOCAL_PLAYER_CONTROLLER_PATTERN@) matches Some(
                tokens,
            ) && pattern_found_at(old(runtime).memory(), tokens, at as int)),
{
    let _client = runtime.module_image("libclient.so")?;
    let controller_match = match runtime.scan_module_memory_pattern(
        "libclient.so",
        LOCAL_PLAYER_CONTROLLER_PATTERN,
    )? {
        Some(address) => address,
        None => {
            return Err(
                HeadlessError::PatternNotFound { context: "missing local player controller pattern" },
            );
        },
    };
    let local_player_controller = runtime.read_relative_address(controller_match, 3, 8)?;
    let ghost memory = runtime.memory();
    let lookup = resolve_interface_instance(runtime, "libengine2.so", GAME_RESOURCE_SERVICE_INTERFACE);
    let resource = match lookup? {
        Some(address) => address,
        None => {
            return Err(
                HeadlessError::Missing { context: "missing GameResourceServiceClientV0 interface" },
            );
        },
    };
    let entity_root_ptr = runtime.read_u64(
        checked_addr(resource, 0x50, "read GameResourceServiceClient entity root pointer")?,
    )? as usize;
    let entity_root = checked_addr(entity_root_ptr, 0x10, "compute entity root offset")?;
    let schema = SchemaSystem::read(runtime)?;
    let r = offsets_from_schema(entity_root, local_player_controller, &schema);
    proof {
        if r is Ok {
            assert(r->Ok_0.entity_root == mem_u64(old(runtime).memory(), resource + 0x50) as usize + 0x10);
            assert(relative_target(controller_match, 8, mem_u32(old(runtime).memory(), controller_match + 3) as i32)
                == Ok::<usize, HeadlessError>(r->Ok_0.local_player_controller));
            let (module, file) = choose|module: ModuleImage, file: Seq<u8>| #[trigger] interface_found(
                memory,
                module,
                file,
                GAME_RESOURCE_SERVICE_INTERFACE@,
                lookup,
            );
            assert(lookup == Ok::<Option<usize>, HeadlessError>(Some(resource)));
            assert(interface_found(
                old(runtime).memory(),
                module,
                file,
                GAME_RESOURCE_SERVICE_INTERFACE@,
                Ok::<Option<usize>, HeadlessError>(Some(resource)),
            ));
            assert(scopes_keyed_by_name(schema) && all_scopes_read(old(runtime).memory(), schema.scope_map())
                && r == offsets_outcome(
                r->Ok_0.entity_root,
                r->Ok_0.local_player_controller,
                schema,
            ));
        }
    }
    r
}

} // verus!

use std::collections::VecDeque;

use vstd::prelude::*;

use crate::experience::{
    lemma_level_step, points_in_level, points_in_level_exec, points_to_level, points_to_level_exec,
    total_to_level_and_points, MAX_LEVEL,
};
use crate::chunk_manager::{may_send, seconds, state_after_batch, ChunkManager};
use crate::world_format::ChunkPos;

verus! {

/// A player's game mode, numbered as on the wire.
#[derive(Debug, Clone, Copy, PartialEq, Eq, Structural)]
pub enum GameMode {
    Survival,
    Creative,
    Adventure,
    Spectator,
}

impl GameMode {
    pub open spec fn spec_id(&self) -> u8 {
        match self {
            GameMode::Survival => 0,
            GameMode::Creative => 1,
            GameMode::Adventure => 2,
            GameMode::Spectator => 3,
        }
    }

    /// The number of the mode on the wire.
    pub fn id(&self) -> (r: u8)
        ensures
            r == self.spec_id(),
    {
        match self {
            GameMode::Survival => 0,
            GameMode::Creative => 1,
            GameMode::Adventure => 2,
            GameMode::Spectator => 3,
        }
    }
}

/// A player's abilities: what the client lets it do.
#[derive(Debug, Clone, Copy, PartialEq, Eq, Structural)]
pub struct Abilities {
    /// Whether the player is invulnerable to damage.
    pub invulnerable: bool,
    /// Whether the player is currently flying.
    pub flying: bool,
    /// Whether the player may fly.
    pub allow_flying: bool,
    /// Whether the player builds instantly, as in creative mode.
    pub creative: bool,
    /// Whether the player may modify the world.
    pub allow_modify_world: bool,
}

/// The abilities a game mode sets: creative may fly, builds instantly and cannot be hurt;
/// spectator flies and cannot be hurt; the others lose all three.
pub open spec fn abilities_for(a: Abilities, gamemode: GameMode) -> Abilities {
    match gamemode {
        GameMode::Creative => Abilities { allow_flying: true, creative: true, invulnerable: true, ..a },
        GameMode::Spectator => Abilities {
            flying: true,
            allow_flying: true,
            creative: false,
            invulnerable: true,
            ..a
        },
        _ => Abilities {
            flying: false,
            allow_flying: false,
            creative: false,
            invulnerable: false,
            ..a
        },
    }
}

impl Abilities {
    pub fn new() -> (r: Abilities)
        ensures
            !r.invulnerable && !r.flying && !r.allow_flying && !r.creative && r.allow_modify_world,
    {
        Abilities {
            invulnerable: false,
            flying: false,
            allow_flying: false,
            creative: false,
            allow_modify_world: true,
        }
    }

    pub fn set_for_gamemode(&mut self, gamemode: GameMode)
        ensures
            *final(self) == abilities_for(*old(self), gamemode),
    {
        match gamemode {
            GameMode::Creative => {
                self.allow_flying = true;
                self.creative = true;
                self.invulnerable = true;
            },
            GameMode::Spectator => {
                self.flying = true;
                self.allow_flying = true;
                self.creative = false;
                self.invulnerable = true;
            },
            _ => {
                self.flying = false;
                self.allow_flying = false;
                self.creative = false;
                self.invulnerable = false;
            },
        }
    }

    /// The flag byte of the Java abilities packet: 1 invulnerable, 2 flying, 4 may fly,
    /// 8 creative.
    pub fn java_flags(&self) -> (r: u8)
        ensures
            r == (if self.invulnerable { 1u8 } else { 0u8 }) + (if self.flying { 2u8 } else { 0u8 })
                + (if self.allow_flying { 4u8 } else { 0u8 }) + (if self.creative { 8u8 } else { 0u8 }),
    {
        let mut b: u8 = 0;
        if self.invulnerable {
            b = b + 1;
        }
        if self.flying {
            b = b + 2;
        }
        if self.allow_flying {
            b = b + 4;
        }
        if self.creative {
            b = b + 8;
        }
        b
    }
}

impl Default for Abilities {
    fn default() -> (r: Abilities)
        ensures
            !r.invulnerable && !r.flying && !r.allow_flying && !r.creative && r.allow_modify_world,
    {
        Abilities::new()
    }
}

/// A player's mode and abilities together.
pub struct PlayerMode {
    pub gamemode: GameMode,
    pub previous_gamemode: Option<GameMode>,
    pub abilities: Abilities,
    /// Whether the player entity is invulnerable.
    pub invulnerable: bool,
}

impl PlayerMode {
    /// Switches to `gamemode` and adjusts the abilities; refuses a switch to the current mode.
    /// Returns whether the mode changed, in which case the caller updates the abilities on the
    /// client and announces the new mode.
    pub fn set_gamemode(&mut self, gamemode: GameMode) -> (r: bool)
        ensures
            r == (old(self).gamemode != gamemode),
            !r ==> *final(self) == *old(self),
            r ==> final(self).gamemode == gamemode && final(self).abilities == abilities_for(
                old(self).abilities,
                gamemode,
            ) && final(self).invulnerable == (gamemode == GameMode::Creative || gamemode
                == GameMode::Spectator) && final(self).previous_gamemode
                == old(self).previous_gamemode,
    {
        if self.gamemode == gamemode {
            return false;
        }
        self.gamemode = gamemode;
        self.abilities.set_for_gamemode(gamemode);
        self.invulnerable = match gamemode {
            GameMode::Creative => true,
            GameMode::Spectator => true,
            _ => false,
        };
        true
    }

    pub fn is_creative(&self) -> (r: bool)
        ensures
            r == (self.gamemode == GameMode::Creative),
    {
        self.gamemode == GameMode::Creative
    }
}

/// A player's experience: level, points toward the next level, and the level last sent.
pub struct PlayerExperience {
    pub level: i32,
    pub points: i32,
    pub last_sent_xp: i32,
}

impl PlayerExperience {
    pub open spec fn wf(&self) -> bool {
        &&& 0 <= self.level <= MAX_LEVEL
        &&& 0 <= self.points <= points_in_level(self.level as int)
        &&& self.spec_total() <= i32::MAX
    }

    /// The points total that is persisted: those to reach the level plus those in it.
    pub open spec fn spec_total(&self) -> int {
        points_to_level(self.level as int) + self.points
    }

    pub fn new() -> (r: PlayerExperience)
        ensures
            r.wf(),
            r.level == 0 && r.points == 0 && r.last_sent_xp == -1,
    {
        PlayerExperience { level: 0, points: 0, last_sent_xp: -1 }
    }

    /// The persisted points total.
    pub fn total(&self) -> (r: i32)
        requires
            self.wf(),
        ensures
            r == self.spec_total(),
    {
        let base = points_to_level_exec(self.level);
        base + self.points
    }

    /// Restores the experience from a persisted points total; a negative total counts as none.
    pub fn from_total(total: i32) -> (r: PlayerExperience)
        ensures
            r.wf(),
            total >= 0 ==> r.spec_total() == total,
            total < 0 ==> r.spec_total() == 0,
            r.last_sent_xp == -1,
    {
        let t = if total < 0 {
            0
        } else {
            total
        };
        let (level, points) = total_to_level_and_points(t);
        PlayerExperience { level, points, last_sent_xp: -1 }
    }

    /// Sets the points within the current level; refuses values outside `[0, points_in_level]`.
    pub fn set_experience_points(&mut self, new_points: i32) -> (r: bool)
        requires
            old(self).wf(),
        ensures
            final(self).wf(),
            new_points == old(self).points ==> r && *final(self) == *old(self),
            new_points != old(self).points ==> r == (0 <= new_points <= points_in_level(
                old(self).level as int,
            ) && points_to_level(old(self).level as int) + new_points <= i32::MAX),
            new_points != old(self).points && r ==> final(self).level == old(self).level
                && final(self).points == new_points && final(self).last_sent_xp == -1,
            !r ==> *final(self) == *old(self),
    {
        if new_points == self.points {
            return true;
        }
        let max_points = points_in_level_exec(self.level);
        if new_points < 0 || new_points > max_points {
            return false;
        }
        let base = points_to_level_exec(self.level);
        if new_points > i32::MAX - base {
            return false;
        }
        self.points = new_points;
        self.last_sent_xp = -1;
        true
    }

    /// Adds points to the total, which then decomposes into a level and points anew. The total
    /// stays within `[0, i32::MAX]`.
    pub fn add_experience_points(&mut self, added_points: i32)
        requires
            old(self).wf(),
        ensures
            final(self).wf(),
            final(self).last_sent_xp == -1,
            final(self).spec_total() == if old(self).spec_total() + added_points < 0 {
                0
            } else if old(self).spec_total() + added_points > i32::MAX {
                i32::MAX as int
            } else {
                old(self).spec_total() + added_points
            },
    {
        let total = self.total() as i64 + added_points as i64;
        let clamped: i32 = if total < 0 {
            0
        } else if total > i32::MAX as i64 {
            i32::MAX
        } else {
            total as i32
        };
        let (level, points) = total_to_level_and_points(clamped);
        self.level = level;
        self.points = points;
        self.last_sent_xp = -1;
    }

    /// Sets the level; with `keep_progress` the points are scaled by the ratio of the two
    /// levels' sizes, rounding down.
    pub fn set_experience_level(&mut self, new_level: i32, keep_progress: bool)
        requires
            old(self).wf(),
            0 <= new_level < MAX_LEVEL,
        ensures
            final(self).wf(),
            final(self).level == new_level,
            final(self).last_sent_xp == -1,
            keep_progress ==> final(self).points == old(self).points * points_in_level(
                new_level as int,
            ) / points_in_level(old(self).level as int),
            !keep_progress ==> final(self).points == if old(self).points <= points_in_level(
                new_level as int,
            ) {
                old(self).points as int
            } else {
                points_in_level(new_level as int)
            },
    {
        let current_max = points_in_level_exec(self.level);
        let new_max = points_in_level_exec(new_level);
        let points: i32 = if keep_progress {
            assert(self.points as i64 * new_max as i64 <= 0x7fff_ffff * 0x7fff_ffffi64)
                by (nonlinear_arith)
                requires
                    0 <= self.points <= 0x7fff_ffff,
                    0 <= new_max <= 0x7fff_ffff,
            ;
            let scaled: i64 = self.points as i64 * new_max as i64;
            assert(scaled <= current_max as i64 * new_max as i64) by (nonlinear_arith)
                requires
                    scaled == self.points as i64 * new_max as i64,
                    self.points <= current_max,
                    new_max >= 0,
            ;
            assert(self.points as i64 * new_max as i64 <= 0x7fff_ffff * 0x7fff_ffffi64)
                by (nonlinear_arith)
                requires
                    0 <= self.points <= 0x7fff_ffff,
                    0 <= new_max <= 0x7fff_ffff,
            ;
            assert(scaled >= 0) by (nonlinear_arith)
                requires
                    scaled == self.points as i64 * new_max as i64,
                    self.points >= 0,
                    new_max >= 0,
            ;
            let q = scaled / current_max as i64;
            assert(q <= new_max) by (nonlinear_arith)
                requires
                    q == scaled / current_max as i64,
                    scaled <= current_max as i64 * new_max as i64,
                    current_max > 0,
                    scaled >= 0,
            ;
            q as i32
        } else if self.points <= new_max {
            self.points
        } else {
            new_max
        };
        proof {
            lemma_level_step(new_level as int);
            if new_level + 1 < MAX_LEVEL {
                crate::experience::lemma_points_to_level_increases(new_level + 1, MAX_LEVEL as int);
            }
            assert(points_to_level(MAX_LEVEL as int) == 2147407943) by {
                assert(9 * 21863 * 21863 - 325 * 21863 + 4440 == 4294815886);
            }
        }
        self.level = new_level;
        self.points = points;
        self.last_sent_xp = -1;
    }

    /// Adds levels, keeping the progress; the level stays within `[0, MAX_LEVEL)`.
    pub fn add_experience_levels(&mut self, added_levels: i32)
        requires
            old(self).wf(),
        ensures
            final(self).wf(),
            final(self).level == if old(self).level + added_levels < 0 {
                0
            } else if old(self).level + added_levels >= MAX_LEVEL {
                MAX_LEVEL - 1
            } else {
                old(self).level + added_levels
            },
    {
        let sum = self.level as i64 + added_levels as i64;
        let new_level: i32 = if sum < 0 {
            0
        } else if sum >= MAX_LEVEL as i64 {
            MAX_LEVEL - 1
        } else {
            sum as i32
        };
        self.set_experience_level(new_level, true);
    }

    /// Whether the experience must be sent to the client this tick: the level differs from the
    /// one last sent. Records the level as sent when it does.
    pub fn tick_experience(&mut self) -> (r: bool)
        ensures
            r == (old(self).last_sent_xp != old(self).level),
            final(self).level == old(self).level,
            final(self).points == old(self).points,
            final(self).last_sent_xp == old(self).level,
    {
        if self.last_sent_xp != self.level {
            self.last_sent_xp = self.level;
            true
        } else {
            false
        }
    }
}

/// The health and food values last sent to the client, to skip packets that change nothing.
pub struct HealthSnapshot {
    pub last_sent_health: i32,
    pub last_sent_food: u8,
    pub last_food_saturation: bool,
}

impl HealthSnapshot {
    pub fn new() -> (r: HealthSnapshot)
        ensures
            r.last_sent_health == -1 && r.last_sent_food == 0 && r.last_food_saturation,
    {
        HealthSnapshot { last_sent_health: -1, last_sent_food: 0, last_food_saturation: true }
    }

    /// Whether health must be sent: the whole health, the food level or whether saturation is
    /// zero changed since last sent. Records the new values when they did.
    pub fn tick_health(&mut self, health: i32, food: u8, saturation_is_zero: bool) -> (r: bool)
        ensures
            r == (health != old(self).last_sent_health || food != old(self).last_sent_food
                || saturation_is_zero != old(self).last_food_saturation),
            r ==> final(self).last_sent_health == health && final(self).last_sent_food == food
                && final(self).last_food_saturation == saturation_is_zero,
            !r ==> *final(self) == *old(self),
    {
        if health != self.last_sent_health || food != self.last_sent_food || saturation_is_zero
            != self.last_food_saturation {
            self.last_sent_health = health;
            self.last_sent_food = food;
            self.last_food_saturation = saturation_is_zero;
            true
        } else {
            false
        }
    }
}

/// Teleports the client has been asked to confirm, with the target of the last one.
pub struct TeleportTracker<P> {
    pub teleport_id_count: i32,
    pub awaiting_teleport: Option<(i32, P)>,
}

impl<P> TeleportTracker<P> {
    pub fn new() -> (r: TeleportTracker<P>)
        ensures
            r.teleport_id_count == 0,
            r.awaiting_teleport is None,
    {
        TeleportTracker { teleport_id_count: 0, awaiting_teleport: None }
    }

    /// Starts a teleport to `position`: the new id is the previous one plus one, wrapping.
    pub fn request_teleport(&mut self, position: P) -> (r: i32)
        ensures
            r == (if old(self).teleport_id_count == i32::MAX {
                i32::MIN as int
            } else {
                old(self).teleport_id_count + 1
            }),
            final(self).teleport_id_count == r,
            final(self).awaiting_teleport == Some((r, position)),
    {
        let id = if self.teleport_id_count == i32::MAX {
            i32::MIN
        } else {
            self.teleport_id_count + 1
        };
        self.teleport_id_count = id;
        self.awaiting_teleport = Some((id, position));
        id
    }

    /// The client confirms teleport `id`: the pending teleport ends and its target is returned
    /// when the id matches; any other id is ignored.
    pub fn confirm_teleport(&mut self, id: i32) -> (r: Option<P>)
        ensures
            final(self).teleport_id_count == old(self).teleport_id_count,
            match old(self).awaiting_teleport {
                Some((pending, pos)) => if pending == id {
                    r == Some(pos) && final(self).awaiting_teleport is None
                } else {
                    r is None && final(self).awaiting_teleport == old(self).awaiting_teleport
                },
                None => r is None && final(self).awaiting_teleport is None,
            },
    {
        let matches_id = match &self.awaiting_teleport {
            Some(pending) => pending.0 == id,
            None => false,
        };
        if matches_id {
            match self.awaiting_teleport.take() {
                Some((_, pos)) => Some(pos),
                None => None,
            }
        } else {
            None
        }
    }
}


/// Where a title text is shown.
#[derive(Debug, Clone, Copy, PartialEq, Eq, Structural)]
pub enum TitleMode {
    Title,
    SubTitle,
    ActionBar,
}

/// Sync ids of the screens opened for a player.
pub struct ScreenHandlerSync {
    pub screen_handler_sync_id: u8,
}

impl ScreenHandlerSync {
    /// Moves to the next sync id: they run from 1 to 100, then start over.
    pub fn increment_screen_handler_sync_id(&mut self)
        ensures
            final(self).screen_handler_sync_id == old(self).screen_handler_sync_id % 100 + 1,
    {
        self.screen_handler_sync_id = self.screen_handler_sync_id % 100 + 1;
    }
}

/// What the server does about a click in a screen.
#[derive(Debug, Clone, Copy, PartialEq, Eq, Structural)]
pub enum SlotClickAction {
    /// The click was for another screen, a screen the player may not use, or a slot that does
    /// not exist: nothing happens.
    Ignore,
    /// Spectators cannot move items: the client is told the screen's true state.
    SyncState,
    /// Apply the click, then send the whole screen again: the client's view was stale.
    ApplyAndResend,
    /// Apply the click, then send the slots that changed.
    ApplyAndUpdate,
}

/// How a click on a screen is handled, from the facts the screen knows.
pub open spec fn slot_click_outcome(
    screen_sync_id: i32,
    packet_sync_id: i32,
    gamemode: GameMode,
    can_use: bool,
    slot_valid: bool,
    revision_matches: bool,
) -> SlotClickAction {
    if screen_sync_id != packet_sync_id {
        SlotClickAction::Ignore
    } else if gamemode == GameMode::Spectator {
        SlotClickAction::SyncState
    } else if !can_use || !slot_valid {
        SlotClickAction::Ignore
    } else if !revision_matches {
        SlotClickAction::ApplyAndResend
    } else {
        SlotClickAction::ApplyAndUpdate
    }
}

/// Decides how a click on a screen is handled.
pub fn on_slot_click(
    screen_sync_id: i32,
    packet_sync_id: i32,
    gamemode: GameMode,
    can_use: bool,
    slot_valid: bool,
    revision_matches: bool,
) -> (r: SlotClickAction)
    ensures
        r == slot_click_outcome(
            screen_sync_id,
            packet_sync_id,
            gamemode,
            can_use,
            slot_valid,
            revision_matches,
        ),
{
    if screen_sync_id != packet_sync_id {
        SlotClickAction::Ignore
    } else if gamemode == GameMode::Spectator {
        SlotClickAction::SyncState
    } else if !can_use || !slot_valid {
        SlotClickAction::Ignore
    } else if !revision_matches {
        SlotClickAction::ApplyAndResend
    } else {
        SlotClickAction::ApplyAndUpdate
    }
}

/// The chunks a player watches: those within `view_distance` of `center`.
#[derive(Debug, Clone, Copy, PartialEq, Eq, Structural)]
pub struct Cylindrical {
    pub center: ChunkPos,
    pub view_distance: u8,
}

/// Distance along one axis between a chunk and the center, not counting the chunk next to it.
pub open spec fn axis_gap(a: int, center: int) -> int {
    let d = if a >= center {
        a - center
    } else {
        center - a
    };
    if d >= 1 {
        d - 1
    } else {
        0
    }
}

/// Whether chunk `p` lies in the watched cylinder: the gaps along both axes, squared and added,
/// are less than the view distance squared.
pub open spec fn within_cylinder(c: Cylindrical, p: ChunkPos) -> bool {
    let gx = axis_gap(p.x as int, c.center.x as int);
    let gz = axis_gap(p.z as int, c.center.z as int);
    gx * gx + gz * gz < (c.view_distance as int) * (c.view_distance as int)
}

/// The cylinder a player watches before any chunk of a world is sent: the origin, radius one.
pub open spec fn unwatched_cylinder() -> Cylindrical {
    Cylindrical { center: ChunkPos { x: 0, z: 0 }, view_distance: 1 }
}

proof fn lemma_within_is_near(c: Cylindrical, p: ChunkPos)
    requires
        within_cylinder(c, p),
    ensures
        c.center.x - c.view_distance <= p.x <= c.center.x + c.view_distance,
        c.center.z - c.view_distance <= p.z <= c.center.z + c.view_distance,
{
    let gx = axis_gap(p.x as int, c.center.x as int);
    let gz = axis_gap(p.z as int, c.center.z as int);
    let r = c.view_distance as int;
    assert(gx < r && gz < r) by (nonlinear_arith)
        requires
            gx >= 0,
            gz >= 0,
            r >= 0,
            gx * gx + gz * gz < r * r,
    ;
}

fn gap(a: i64, center: i64) -> (r: i64)
    requires
        -0x1_0000_0000 <= a <= 0x1_0000_0000,
        -0x1_0000_0000 <= center <= 0x1_0000_0000,
    ensures
        r == axis_gap(a as int, center as int),
{
    let d = if a >= center {
        a - center
    } else {
        center - a
    };
    if d >= 1 {
        d - 1
    } else {
        0
    }
}

impl Cylindrical {
    /// Stops watching every chunk of the cylinder: returns each chunk in it once, to be
    /// unloaded, and leaves the cylinder at the origin with radius one.
    pub fn unload_watched_chunks(&mut self) -> (r: Vec<ChunkPos>)
        ensures
            *final(self) == unwatched_cylinder(),
            forall|p: ChunkPos| r@.contains(p) <==> within_cylinder(*old(self), p),
            r@.no_duplicates(),
    {
        let c = *self;
        let rad = c.view_distance as i64;
        let cx = c.center.x as i64;
        let cz = c.center.z as i64;
        let lo_x = if cx - rad < i32::MIN as i64 { i32::MIN as i64 } else { cx - rad };
        let hi_x = if cx + rad > i32::MAX as i64 { i32::MAX as i64 } else { cx + rad };
        let lo_z = if cz - rad < i32::MIN as i64 { i32::MIN as i64 } else { cz - rad };
        let hi_z = if cz + rad > i32::MAX as i64 { i32::MAX as i64 } else { cz + rad };
        let mut out: Vec<ChunkPos> = Vec::new();
        let mut x: i64 = lo_x;
        assert forall|p: ChunkPos| #[trigger] out@.contains(p) <==> (within_cylinder(c, p) && (p.x as int) < (x as int)) by {
            if within_cylinder(c, p) {
                lemma_within_is_near(c, p);
            }
        }
        while x <= hi_x
            invariant
                lo_x <= x <= hi_x + 1,
                i32::MIN <= lo_x,
                hi_x <= i32::MAX,
                lo_x == (if cx - rad < i32::MIN { i32::MIN as int } else { cx - rad }),
                hi_x == (if cx + rad > i32::MAX { i32::MAX as int } else { cx + rad }),
                lo_z == (if cz - rad < i32::MIN { i32::MIN as int } else { cz - rad }),
                hi_z == (if cz + rad > i32::MAX { i32::MAX as int } else { cz + rad }),
                cx == c.center.x,
                cz == c.center.z,
                rad == c.view_distance,
                c == *old(self),
                forall|p: ChunkPos| #[trigger] out@.contains(p) <==> (within_cylinder(c, p) && (p.x as int) < (x as int)),
                out@.no_duplicates(),
            decreases hi_x + 1 - x,
        {
            let mut z: i64 = lo_z;
            assert forall|p: ChunkPos|
                #[trigger] out@.contains(p) <==> (within_cylinder(c, p) && ((p.x as int) < (x as int) || ((p.x as int) == (x as int) && p.z
                    < z))) by {
                if within_cylinder(c, p) {
                    lemma_within_is_near(c, p);
                }
            }
            while z <= hi_z
                invariant
                    lo_x <= x <= hi_x,
                    lo_z <= z <= hi_z + 1,
                    i32::MIN <= lo_x,
                    hi_x <= i32::MAX,
                    i32::MIN <= lo_z,
                    hi_z <= i32::MAX,
                    lo_z == (if cz - rad < i32::MIN { i32::MIN as int } else { cz - rad }),
                    hi_z == (if cz + rad > i32::MAX { i32::MAX as int } else { cz + rad }),
                    cx == c.center.x,
                    cz == c.center.z,
                    rad == c.view_distance,
                    c == *old(self),
                    0 <= rad <= 255,
                    cx - rad <= x <= cx + rad,
                    forall|p: ChunkPos|
                        #[trigger] out@.contains(p) <==> (within_cylinder(c, p) && ((p.x as int) < (x as int) || ((p.x as int) == (x as int)
                            && (p.z as int) < (z as int)))),
                    out@.no_duplicates(),
                decreases hi_z + 1 - z,
            {
                let gx = gap(x, cx);
                let gz = gap(z, cz);
                assert(gx <= 256 && gz <= 256);
                assert(gx * gx + gz * gz <= 256 * 256 * 2) by (nonlinear_arith)
                    requires
                        0 <= gx <= 256,
                        0 <= gz <= 256,
                ;
                let here = ChunkPos { x: x as i32, z: z as i32 };
                assert(here.x as i64 == x && here.z as i64 == z);
                assert(rad * rad <= 65025) by (nonlinear_arith)
                    requires
                        0 <= rad <= 255,
                ;
                let ghost before = out@;
                if gx * gx + gz * gz < rad * rad {
                    assert(!before.contains(here));
                    assert(within_cylinder(c, here));
                    out.push(here);
                    assert(out@ == before.push(here));
                    assert forall|p: ChunkPos| #[trigger] out@.contains(p) <==> (within_cylinder(c, p) && (
                    (p.x as int) < (x as int) || ((p.x as int) == (x as int) && (p.z as int) < (z as int) + 1))) by {
                        if out@.contains(p) {
                            let k = choose|k: int| 0 <= k < out@.len() && out@[k] == p;
                            if k < before.len() {
                                assert(before[k] == p);
                                assert(before.contains(p));
                            } else {
                                assert(p == here);
                            }
                        }
                        if within_cylinder(c, p) && ((p.x as int) < (x as int) || ((p.x as int) == (x as int) && (p.z as int) < (z as int) + 1)) {
                            if (p.x as int) < (x as int) || (p.z as int) < (z as int) {
                                assert(before.contains(p));
                                let k = choose|k: int| 0 <= k < before.len() && before[k] == p;
                                assert(out@[k] == p);
                            } else {
                                assert(p.x == here.x && p.z == here.z);
                                assert(p == here);
                                assert(out@[out@.len() - 1] == p);
                            }
                        }
                    }
                } else {
                    assert(!within_cylinder(c, here));
                }
                z = z + 1;
            }
            assert forall|p: ChunkPos| #[trigger] out@.contains(p) <==> (within_cylinder(c, p) && (p.x as int) < (x as int)
                + 1) by {
                if within_cylinder(c, p) {
                    lemma_within_is_near(c, p);
                }
            }
            x = x + 1;
        }
        assert forall|p: ChunkPos| within_cylinder(c, p) implies (p.x as int) < (x as int) by {
            lemma_within_is_near(c, p);
        }
        self.center = ChunkPos { x: 0, z: 0 };
        self.view_distance = 1;
        out
    }
}

/// The steps of moving a player to another world, in order.
#[derive(Debug, Clone, Copy, PartialEq, Eq, Structural)]
pub enum WorldChangeStep {
    RemoveFromCurrentWorld,
    AddToNewWorld,
    /// Unload the chunks the player watched (returned beside the steps); it watches only the
    /// origin until the new world's chunks come.
    UnloadWatchedChunks,
    SendRespawn,
    SendPermissionLevel,
    /// Ask the client to confirm the teleport with this id.
    SendTeleport(i32),
    SendAbilities,
    SendSelectedSlot,
    OpenPlayerScreen,
    SendHealth,
    SendWorldInfo,
}

/// Starts moving a player to another world at `position`: the client counts as not loaded
/// again, a teleport is requested, the watched chunks are given up, and the steps to perform
/// are returned in order, with the chunks to unload.
pub fn teleport_world<P>(
    ticker: &mut PlayerTicker,
    teleports: &mut TeleportTracker<P>,
    watched: &mut Cylindrical,
    position: P,
) -> (r: (Vec<WorldChangeStep>, Vec<ChunkPos>))
    ensures
        *final(watched) == unwatched_cylinder(),
        forall|p: ChunkPos| r.1@.contains(p) <==> within_cylinder(*old(watched), p),
        r.1@.no_duplicates(),
        !final(ticker).client_loaded,
        final(ticker).client_loaded_timeout == CLIENT_LOADED_TIMEOUT_TICKS,
        final(teleports).awaiting_teleport == Some((final(teleports).teleport_id_count, position)),
        final(teleports).teleport_id_count == (if old(teleports).teleport_id_count == i32::MAX {
            i32::MIN as int
        } else {
            old(teleports).teleport_id_count + 1
        }),
        r.0@ == seq![
            WorldChangeStep::RemoveFromCurrentWorld,
            WorldChangeStep::AddToNewWorld,
            WorldChangeStep::UnloadWatchedChunks,
            WorldChangeStep::SendRespawn,
            WorldChangeStep::SendPermissionLevel,
            WorldChangeStep::SendTeleport(final(teleports).teleport_id_count),
            WorldChangeStep::SendAbilities,
            WorldChangeStep::SendSelectedSlot,
            WorldChangeStep::OpenPlayerScreen,
            WorldChangeStep::SendHealth,
            WorldChangeStep::SendWorldInfo,
        ],
{
    ticker.set_client_loaded(false);
    let unload = watched.unload_watched_chunks();
    let id = teleports.request_teleport(position);
    let steps = vec![
        WorldChangeStep::RemoveFromCurrentWorld,
        WorldChangeStep::AddToNewWorld,
        WorldChangeStep::UnloadWatchedChunks,
        WorldChangeStep::SendRespawn,
        WorldChangeStep::SendPermissionLevel,
        WorldChangeStep::SendTeleport(id),
        WorldChangeStep::SendAbilities,
        WorldChangeStep::SendSelectedSlot,
        WorldChangeStep::OpenPlayerScreen,
        WorldChangeStep::SendHealth,
        WorldChangeStep::SendWorldInfo,
    ];
    (steps, unload)
}

/// Milliseconds after a keep-alive is sent within which the client must answer it.
pub const KEEP_ALIVE_TIMEOUT_MS: u64 = 15000;

/// Ticks a client has to report that it loaded before it counts as loaded anyway.
pub const CLIENT_LOADED_TIMEOUT_TICKS: u32 = 60;

/// Ticks after which a sleeping player's sleep counter stops.
pub const MAX_SLEEP_TICKS: u8 = 101;

/// What the keep-alive check decides on a tick.
#[derive(Debug, Clone, Copy, PartialEq, Eq, Structural)]
pub enum KeepAliveAction {
    Nothing,
    /// The client never answered the last keep-alive: kick it for timing out.
    Kick,
    /// Send a keep-alive with this payload.
    Send(i64),
}

/// What a player's tick leaves for the caller to do.
pub struct TickOutcome<C> {
    /// Acknowledge block changes up to this sequence number.
    pub acknowledge_block_change: Option<i32>,
    /// Chunks to send: for a Java client framed as one batch, for a Bedrock client one by one.
    pub chunk_batch: Option<Vec<C>>,
    /// The mined block became air: the breaking animation ends.
    pub stop_mining: bool,
    /// Mining goes on: the caller updates the breaking progress.
    pub continue_mining: bool,
    pub keep_alive: KeepAliveAction,
}

/// A player's per-tick counters and timers.
pub struct PlayerTicker {
    /// Latest block-change sequence to acknowledge, or -1.
    pub packet_sequence: i32,
    pub experience_pick_up_delay: u32,
    pub tick_counter: i32,
    pub sleeping_since: Option<u8>,
    pub mining: bool,
    pub current_block_destroy_stage: i32,
    pub start_mining_time: i32,
    pub last_attacked_ticks: u32,
    pub client_loaded: bool,
    pub client_loaded_timeout: u32,
    pub wait_for_keep_alive: bool,
    pub keep_alive_id: i64,
    /// When the last keep-alive was sent, in milliseconds.
    pub last_keep_alive_time: u64,
}

/// The keep-alive decision at time `now` (milliseconds): nothing until 15 s passed since the
/// last one; then a kick if it is still unanswered, else a new keep-alive carrying `now`.
/// Bedrock clients are left to their own transport.
pub open spec fn keep_alive_decision(t: PlayerTicker, now: u64, java: bool) -> KeepAliveAction {
    if now < t.last_keep_alive_time || now - t.last_keep_alive_time < KEEP_ALIVE_TIMEOUT_MS
        || !java {
        KeepAliveAction::Nothing
    } else if t.wait_for_keep_alive {
        KeepAliveAction::Kick
    } else {
        KeepAliveAction::Send(now as i64)
    }
}

/// Whether two tickers agree on everything but the client-load and keep-alive timers.
pub open spec fn same_counters(a: PlayerTicker, b: PlayerTicker) -> bool {
    &&& a.packet_sequence == b.packet_sequence
    &&& a.experience_pick_up_delay == b.experience_pick_up_delay
    &&& a.tick_counter == b.tick_counter
    &&& a.sleeping_since == b.sleeping_since
    &&& a.mining == b.mining
    &&& a.current_block_destroy_stage == b.current_block_destroy_stage
    &&& a.start_mining_time == b.start_mining_time
    &&& a.last_attacked_ticks == b.last_attacked_ticks
    &&& a.client_loaded == b.client_loaded
}

impl PlayerTicker {
    pub fn new(now: u64) -> (r: PlayerTicker)
        ensures
            r.packet_sequence == -1,
            r.tick_counter == 0,
            r.sleeping_since is None,
            !r.mining,
            !r.client_loaded,
            r.client_loaded_timeout == CLIENT_LOADED_TIMEOUT_TICKS,
            !r.wait_for_keep_alive,
            r.last_keep_alive_time == now,
    {
        PlayerTicker {
            packet_sequence: -1,
            experience_pick_up_delay: 0,
            tick_counter: 0,
            sleeping_since: None,
            mining: false,
            current_block_destroy_stage: -1,
            start_mining_time: 0,
            last_attacked_ticks: 0,
            client_loaded: false,
            client_loaded_timeout: CLIENT_LOADED_TIMEOUT_TICKS,
            wait_for_keep_alive: false,
            keep_alive_id: 0,
            last_keep_alive_time: now,
        }
    }

    /// Whether the client counts as loaded: it said so, or its time to say so ran out.
    pub fn has_client_loaded(&self) -> (r: bool)
        ensures
            r == (self.client_loaded || self.client_loaded_timeout == 0),
    {
        self.client_loaded || self.client_loaded_timeout == 0
    }

    /// Records whether the client has loaded; unloading restarts its time to load.
    pub fn set_client_loaded(&mut self, loaded: bool)
        ensures
            final(self).client_loaded == loaded,
            !loaded ==> final(self).client_loaded_timeout == CLIENT_LOADED_TIMEOUT_TICKS,
            loaded ==> final(self).client_loaded_timeout == old(self).client_loaded_timeout,
    {
        if !loaded {
            self.client_loaded_timeout = CLIENT_LOADED_TIMEOUT_TICKS;
        }
        self.client_loaded = loaded;
    }

    /// Counts down the time the client has left to report having loaded.
    pub fn tick_client_load_timeout(&mut self)
        ensures
            same_counters(*final(self), *old(self)),
            final(self).wait_for_keep_alive == old(self).wait_for_keep_alive,
            final(self).last_keep_alive_time == old(self).last_keep_alive_time,
            final(self).keep_alive_id == old(self).keep_alive_id,
            !old(self).client_loaded ==> final(self).client_loaded_timeout == (if old(
                self,
            ).client_loaded_timeout == 0 {
                0
            } else {
                old(self).client_loaded_timeout - 1
            }),
            old(self).client_loaded ==> final(self).client_loaded_timeout == old(
                self,
            ).client_loaded_timeout,
    {
        if !self.client_loaded {
            let timeout = self.client_loaded_timeout;
            self.client_loaded_timeout = if timeout == 0 {
                0
            } else {
                timeout - 1
            };
        }
    }

    /// Decides and records the keep-alive step of a tick at time `now`.
    pub fn tick_keep_alive(&mut self, now: u64, java: bool) -> (r: KeepAliveAction)
        ensures
            same_counters(*final(self), *old(self)),
            final(self).client_loaded_timeout == old(self).client_loaded_timeout,
            r == keep_alive_decision(*old(self), now, java),
            r matches KeepAliveAction::Send(id) ==> final(self).wait_for_keep_alive
                && final(self).last_keep_alive_time == now && final(self).keep_alive_id == id,
            !(r is Send) ==> final(self).wait_for_keep_alive == old(self).wait_for_keep_alive
                && final(self).last_keep_alive_time == old(self).last_keep_alive_time
                && final(self).keep_alive_id == old(self).keep_alive_id,
    {
        if now < self.last_keep_alive_time || now - self.last_keep_alive_time
            < KEEP_ALIVE_TIMEOUT_MS || !java {
            return KeepAliveAction::Nothing;
        }
        if self.wait_for_keep_alive {
            return KeepAliveAction::Kick;
        }
        self.wait_for_keep_alive = true;
        self.last_keep_alive_time = now;
        #[verifier::truncate]
        let id: i64 = now as i64;
        self.keep_alive_id = id;
        KeepAliveAction::Send(id)
    }

    /// The client answered a keep-alive: it counts when the payload matches the one sent.
    pub fn handle_keep_alive(&mut self, payload: i64) -> (r: bool)
        ensures
            r == (old(self).wait_for_keep_alive && payload == old(self).keep_alive_id),
            r ==> !final(self).wait_for_keep_alive,
            !r ==> final(self).wait_for_keep_alive == old(self).wait_for_keep_alive,
    {
        if self.wait_for_keep_alive && payload == self.keep_alive_id {
            self.wait_for_keep_alive = false;
            true
        } else {
            false
        }
    }

    /// One player tick at time `now` (milliseconds): acknowledges block changes, counts down the
    /// experience pickup delay, takes the next chunk batch, advances the counters, follows the
    /// block being mined, and runs the client-load and keep-alive timers. `mined_block_is_air`
    /// tells whether the block at the mining position is air.
    pub fn tick<C, E>(
        &mut self,
        chunks: &mut ChunkManager<C, E>,
        now: u64,
        java: bool,
        mined_block_is_air: bool,
    ) -> (r: TickOutcome<C>)
        ensures
            old(self).packet_sequence > -1 ==> r.acknowledge_block_change == Some(
                old(self).packet_sequence,
            ) && final(self).packet_sequence == -1,
            old(self).packet_sequence <= -1 ==> r.acknowledge_block_change is None
                && final(self).packet_sequence == old(self).packet_sequence,
            final(self).experience_pick_up_delay == if old(self).experience_pick_up_delay > 0 {
                old(self).experience_pick_up_delay - 1
            } else {
                0
            },
            (java && !(may_send(old(chunks).batches_sent_since_ack) && old(chunks).chunk_queue@.len()
                > 0)) ==> r.chunk_batch is None && *final(chunks) == *old(chunks),
            (!java || (may_send(old(chunks).batches_sent_since_ack)
                && old(chunks).chunk_queue@.len() > 0)) ==> (r.chunk_batch matches Some(batch)
                && batch@ == seconds(
                old(chunks).chunk_queue@.subrange(0, old(chunks).next_batch_len() as int),
            ) && final(chunks).chunk_queue@ == old(chunks).chunk_queue@.subrange(
                old(chunks).next_batch_len() as int,
                old(chunks).chunk_queue@.len() as int,
            ) && final(chunks).batches_sent_since_ack == state_after_batch(
                old(chunks).batches_sent_since_ack,
            )),
            final(self).tick_counter == if old(self).tick_counter == i32::MAX {
                i32::MIN as int
            } else {
                old(self).tick_counter + 1
            },
            final(self).sleeping_since == match old(self).sleeping_since {
                Some(s) => Some(if s < MAX_SLEEP_TICKS { (s + 1) as u8 } else { s }),
                None => None,
            },
            r.stop_mining == (old(self).mining && mined_block_is_air),
            r.continue_mining == (old(self).mining && !mined_block_is_air),
            final(self).mining == (old(self).mining && !mined_block_is_air),
            r.stop_mining ==> final(self).current_block_destroy_stage == -1,
            final(self).last_attacked_ticks == if old(self).last_attacked_ticks == u32::MAX {
                0
            } else {
                old(self).last_attacked_ticks + 1
            },
            final(self).client_loaded == old(self).client_loaded,
            !old(self).client_loaded ==> final(self).client_loaded_timeout == (if old(
                self,
            ).client_loaded_timeout == 0 {
                0
            } else {
                old(self).client_loaded_timeout - 1
            }),
            old(self).client_loaded ==> final(self).client_loaded_timeout == old(
                self,
            ).client_loaded_timeout,
            r.keep_alive == keep_alive_decision(*old(self), now, java),
            r.keep_alive matches KeepAliveAction::Send(id) ==> final(self).wait_for_keep_alive
                && final(self).last_keep_alive_time == now && final(self).keep_alive_id == id,
            !(r.keep_alive is Send) ==> final(self).wait_for_keep_alive == old(
                self,
            ).wait_for_keep_alive && final(self).last_keep_alive_time == old(
                self,
            ).last_keep_alive_time && final(self).keep_alive_id == old(self).keep_alive_id,
    {
        let acknowledge_block_change = if self.packet_sequence > -1 {
            let seq = self.packet_sequence;
            self.packet_sequence = -1;
            Some(seq)
        } else {
            None
        };
        if self.experience_pick_up_delay > 0 {
            self.experience_pick_up_delay = self.experience_pick_up_delay - 1;
        }
        let chunk_batch = if java {
            if chunks.can_send_chunk() {
                Some(chunks.next_chunk())
            } else {
                None
            }
        } else {
            Some(chunks.next_chunk())
        };
        self.tick_counter = if self.tick_counter == i32::MAX {
            i32::MIN
        } else {
            self.tick_counter + 1
        };
        self.sleeping_since = match self.sleeping_since {
            Some(s) => Some(
                if s < MAX_SLEEP_TICKS {
                    s + 1
                } else {
                    s
                },
            ),
            None => None,
        };
        let mut stop_mining = false;
        let mut continue_mining = false;
        if self.mining {
            if mined_block_is_air {
                self.current_block_destroy_stage = -1;
                self.mining = false;
                stop_mining = true;
            } else {
                continue_mining = true;
            }
        }
        self.last_attacked_ticks = if self.last_attacked_ticks == u32::MAX {
            0
        } else {
            self.last_attacked_ticks + 1
        };
        self.tick_client_load_timeout();
        let ghost before_keep_alive = *self;
        assert(keep_alive_decision(before_keep_alive, now, java) == keep_alive_decision(
            *old(self),
            now,
            java,
        ));
        let keep_alive = self.tick_keep_alive(now, java);
        TickOutcome {
            acknowledge_block_change,
            chunk_batch,
            stop_mining,
            continue_mining,
            keep_alive,
        }
    }
}

} // verus!

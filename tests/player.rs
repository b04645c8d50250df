use pumpkin::chat::{ChatMode, ChatSession, LastSeen, MessageCache, MAX_CACHED_SIGNATURES, MAX_PREVIOUS_MESSAGES};
use pumpkin::chunk_manager::{BatchState, ChunkManager, DEFAULT_CHUNKS_PER_TICK};
use pumpkin::experience::{
    points_in_level_exec, points_to_level_exec, progress_in_level, total_to_level_and_points,
    MAX_LEVEL,
};
use pumpkin::player::{
    on_slot_click, teleport_world, Abilities, Cylindrical, GameMode, HealthSnapshot, KeepAliveAction,
    PlayerExperience, PlayerMode, PlayerTicker, ScreenHandlerSync, SlotClickAction,
    TeleportTracker, TitleMode, WorldChangeStep,
};
use pumpkin::world_format::ChunkPos;

#[test]
fn experience_formulas() {
    assert_eq!(points_in_level_exec(0), 7);
    assert_eq!(points_in_level_exec(15), 37);
    assert_eq!(points_in_level_exec(16), 42);
    assert_eq!(points_in_level_exec(30), 112);
    assert_eq!(points_in_level_exec(31), 121);
    assert_eq!(points_to_level_exec(0), 0);
    assert_eq!(points_to_level_exec(1), 7);
    assert_eq!(points_to_level_exec(16), 352);
    assert_eq!(points_to_level_exec(17), 394);
    assert_eq!(points_to_level_exec(30), 1395);
    assert_eq!(points_to_level_exec(31), 1507);
    assert_eq!(points_to_level_exec(32), 1628);
    assert_eq!(points_to_level_exec(MAX_LEVEL), 2147407943);
}

#[test]
fn totals_decompose_into_level_and_points() {
    assert_eq!(total_to_level_and_points(0), (0, 0));
    assert_eq!(total_to_level_and_points(6), (0, 6));
    assert_eq!(total_to_level_and_points(7), (1, 0));
    assert_eq!(total_to_level_and_points(352), (16, 0));
    assert_eq!(total_to_level_and_points(353), (16, 1));
    assert_eq!(total_to_level_and_points(1507), (31, 0));
    assert_eq!(total_to_level_and_points(1628), (32, 0));
    assert_eq!(total_to_level_and_points(i32::MAX), (MAX_LEVEL, i32::MAX - 2147407943));
    for total in (0..5000).chain([123456, 9999999, i32::MAX - 1]) {
        let (level, points) = total_to_level_and_points(total);
        assert_eq!(points_to_level_exec(level) + points, total);
        assert!(points >= 0 && points < points_in_level_exec(level));
    }
}

#[test]
fn progress_stays_within_one() {
    assert_eq!(progress_in_level(0, 0), (0, 7));
    assert_eq!(progress_in_level(21, 16), (21, 42));
    assert_eq!(progress_in_level(50, 16), (42, 42));
    assert_eq!(progress_in_level(-3, 2), (0, 11));
}

#[test]
fn experience_points_and_levels() {
    let mut xp = PlayerExperience::new();
    xp.add_experience_points(360);
    assert_eq!((xp.level, xp.points), (16, 8));
    assert_eq!(xp.total(), 360);
    xp.add_experience_points(-1000);
    assert_eq!((xp.level, xp.points), (0, 0));
    assert!(xp.set_experience_points(5));
    assert_eq!(xp.points, 5);
    assert!(!xp.set_experience_points(8));
    assert!(xp.set_experience_points(5));
    xp.set_experience_level(16, true);
    // 5 of 7 scaled to 42: 30
    assert_eq!((xp.level, xp.points), (16, 30));
    xp.add_experience_levels(-20);
    assert_eq!((xp.level, xp.points), (0, 5));
    xp.set_experience_level(3, false);
    assert_eq!((xp.level, xp.points), (3, 5));
    let restored = PlayerExperience::from_total(xp.total());
    assert_eq!((restored.level, restored.points), (3, 5));
    assert_eq!(PlayerExperience::from_total(-5).total(), 0);
}

#[test]
fn experience_is_sent_when_the_level_changes() {
    let mut xp = PlayerExperience::new();
    assert!(xp.tick_experience());
    assert!(!xp.tick_experience());
    xp.add_experience_points(7);
    assert!(xp.tick_experience());
    assert!(!xp.tick_experience());
}

#[test]
fn health_is_sent_only_on_change() {
    let mut h = HealthSnapshot::new();
    assert!(h.tick_health(20, 20, false));
    assert!(!h.tick_health(20, 20, false));
    assert!(h.tick_health(19, 20, false));
    assert!(h.tick_health(19, 18, false));
    assert!(h.tick_health(19, 18, true));
    assert!(!h.tick_health(19, 18, true));
}

#[test]
fn gamemode_sets_abilities() {
    let mut mode = PlayerMode {
        gamemode: GameMode::Survival,
        previous_gamemode: None,
        abilities: Abilities::new(),
        invulnerable: false,
    };
    assert!(!mode.set_gamemode(GameMode::Survival));
    assert!(mode.set_gamemode(GameMode::Creative));
    assert!(mode.abilities.allow_flying && mode.abilities.creative && mode.abilities.invulnerable);
    assert!(!mode.abilities.flying);
    assert!(mode.invulnerable);
    assert!(mode.is_creative());
    assert_eq!(mode.abilities.java_flags(), 1 | 4 | 8);
    assert!(mode.set_gamemode(GameMode::Spectator));
    assert!(mode.abilities.flying && mode.abilities.allow_flying && !mode.abilities.creative);
    assert_eq!(mode.abilities.java_flags(), 1 | 2 | 4);
    assert!(mode.set_gamemode(GameMode::Adventure));
    assert_eq!(mode.abilities.java_flags(), 0);
    assert!(!mode.invulnerable);
    assert!(mode.abilities.allow_modify_world);
    assert_eq!(GameMode::Spectator.id(), 3);
}

#[test]
fn teleport_ids_count_up_and_wrap() {
    let mut t: TeleportTracker<(i64, i64, i64)> = TeleportTracker::new();
    assert_eq!(t.request_teleport((1, 2, 3)), 1);
    assert_eq!(t.confirm_teleport(5), None);
    assert_eq!(t.awaiting_teleport, Some((1, (1, 2, 3))));
    assert_eq!(t.confirm_teleport(1), Some((1, 2, 3)));
    assert_eq!(t.awaiting_teleport, None);
    t.teleport_id_count = i32::MAX;
    assert_eq!(t.request_teleport((0, 0, 0)), i32::MIN);
}

#[test]
fn keep_alive_timeout_kicks() {
    let mut ticker = PlayerTicker::new(0);
    let mut chunks: ChunkManager<u32, u32> = ChunkManager::new(DEFAULT_CHUNKS_PER_TICK);
    assert_eq!(ticker.tick(&mut chunks, 1000, true, false).keep_alive, KeepAliveAction::Nothing);
    assert_eq!(ticker.tick(&mut chunks, 15000, true, false).keep_alive, KeepAliveAction::Send(15000));
    assert!(ticker.wait_for_keep_alive);
    assert_eq!(ticker.tick(&mut chunks, 29999, true, false).keep_alive, KeepAliveAction::Nothing);
    assert_eq!(ticker.tick(&mut chunks, 30000, true, false).keep_alive, KeepAliveAction::Kick);
}

#[test]
fn answered_keep_alive_is_renewed() {
    let mut ticker = PlayerTicker::new(0);
    assert_eq!(ticker.tick_keep_alive(15000, true), KeepAliveAction::Send(15000));
    assert!(!ticker.handle_keep_alive(14));
    assert!(ticker.handle_keep_alive(15000));
    assert_eq!(ticker.tick_keep_alive(30000, true), KeepAliveAction::Send(30000));
    let mut bedrock = PlayerTicker::new(0);
    assert_eq!(bedrock.tick_keep_alive(60000, false), KeepAliveAction::Nothing);
}

#[test]
fn tick_counters() {
    let mut ticker = PlayerTicker::new(0);
    let mut chunks: ChunkManager<u32, u32> = ChunkManager::new(2);
    ticker.packet_sequence = 7;
    ticker.experience_pick_up_delay = 1;
    ticker.sleeping_since = Some(100);
    ticker.mining = true;
    let out = ticker.tick(&mut chunks, 1, true, false);
    assert_eq!(out.acknowledge_block_change, Some(7));
    assert!(out.continue_mining && !out.stop_mining);
    assert_eq!(ticker.packet_sequence, -1);
    assert_eq!(ticker.experience_pick_up_delay, 0);
    assert_eq!(ticker.sleeping_since, Some(101));
    assert_eq!(ticker.tick_counter, 1);
    assert_eq!(ticker.client_loaded_timeout, 59);
    let out = ticker.tick(&mut chunks, 2, true, true);
    assert_eq!(out.acknowledge_block_change, None);
    assert!(out.stop_mining);
    assert!(!ticker.mining);
    assert_eq!(ticker.current_block_destroy_stage, -1);
    assert_eq!(ticker.sleeping_since, Some(101));
    assert!(!ticker.has_client_loaded());
    ticker.set_client_loaded(true);
    assert!(ticker.has_client_loaded());
    ticker.set_client_loaded(false);
    assert_eq!(ticker.client_loaded_timeout, 60);
}

#[test]
fn chunk_batches_follow_acknowledgements() {
    let mut m: ChunkManager<u32, u32> = ChunkManager::new(2);
    assert!(!m.can_send_chunk());
    for i in 0..5 {
        m.push_chunk(ChunkPos { x: i, z: 0 }, i as u32);
    }
    assert!(m.is_chunk_pending(&ChunkPos { x: 3, z: 0 }));
    assert!(!m.is_chunk_pending(&ChunkPos { x: 9, z: 0 }));
    assert!(m.can_send_chunk());
    assert_eq!(m.next_chunk(), vec![0, 1]);
    assert_eq!(m.batches_sent_since_ack, BatchState::Waiting);
    assert!(!m.can_send_chunk());
    m.handle_acknowledge(3);
    assert_eq!(m.batches_sent_since_ack, BatchState::Count(0));
    assert_eq!(m.next_chunk(), vec![2, 3, 4]);
    assert_eq!(m.batches_sent_since_ack, BatchState::Count(1));
    assert!(!m.can_send_chunk());
    for i in 0..30 {
        m.push_chunk(ChunkPos { x: i, z: 1 }, 100);
    }
    for _ in 0..9 {
        assert!(m.can_send_chunk());
        m.next_chunk();
    }
    assert_eq!(m.batches_sent_since_ack, BatchState::Count(10));
    assert!(!m.can_send_chunk());
    m.push_entity(ChunkPos { x: 0, z: 0 }, 5);
    assert_eq!(m.next_entity(), vec![5]);
}

#[test]
fn java_tick_sends_only_when_allowed_bedrock_always() {
    let mut ticker = PlayerTicker::new(0);
    let mut m: ChunkManager<u32, u32> = ChunkManager::new(16);
    m.push_chunk(ChunkPos { x: 0, z: 0 }, 1);
    assert_eq!(ticker.tick(&mut m, 1, true, false).chunk_batch, Some(vec![1]));
    m.push_chunk(ChunkPos { x: 1, z: 0 }, 2);
    assert_eq!(ticker.tick(&mut m, 2, true, false).chunk_batch, None);
    assert_eq!(ticker.tick(&mut m, 3, false, false).chunk_batch, Some(vec![2]));
}

fn sig(b: u8) -> Vec<u8> {
    vec![b, b.wrapping_mul(3), 7]
}

#[test]
fn seen_signatures_are_indexed_for_recipients() {
    let mut sender = MessageCache::new();
    sender.add_seen_signature(&sig(1));
    sender.add_seen_signature(&sig(2));
    sender.add_seen_signature(&sig(3));
    let mut recipient = MessageCache::new();
    recipient.add_seen_signature(&sig(3));
    recipient.add_seen_signature(&sig(1));
    let first = sender.last_seen.indexed_for(&recipient);
    let second = sender.last_seen.indexed_for(&recipient);
    let view = |v: &Vec<pumpkin::chat::PreviousMessage>| v.iter().map(|m| (m.id, m.signature.clone())).collect::<Vec<_>>();
    assert_eq!(view(&first), vec![(1, None), (0, Some(sig(2))), (2, None)]);
    assert_eq!(view(&first), view(&second));
}

#[test]
fn signature_caches_stay_bounded() {
    let mut cache = MessageCache::new();
    for i in 0..300u32 {
        cache.add_seen_signature(&sig(i as u8));
        if i % 7 == 0 {
            let offered: Vec<Vec<u8>> = (0..40u8).map(|k| vec![k, (i % 251) as u8, 1, 2]).collect();
            cache.cache_signatures(&offered);
        }
        assert!(cache.full_cache.len() <= MAX_CACHED_SIGNATURES);
        assert!(cache.last_seen.as_ref().len() <= MAX_PREVIOUS_MESSAGES);
    }
    assert_eq!(cache.full_cache.len(), MAX_CACHED_SIGNATURES);
    assert_eq!(cache.last_seen.as_ref().len(), MAX_PREVIOUS_MESSAGES);
    assert_eq!(cache.full_cache[0], sig(299u32 as u8));
    assert_eq!(cache.last_seen.as_ref()[MAX_PREVIOUS_MESSAGES - 1], sig(299u32 as u8));
}

#[test]
fn offered_signatures_go_to_the_oldest_end() {
    let mut cache = MessageCache::new();
    cache.add_seen_signature(&sig(1));
    cache.cache_signatures(&[sig(5), sig(1), sig(6)]);
    let held: Vec<Vec<u8>> = cache.full_cache.iter().cloned().collect();
    assert_eq!(held, vec![sig(1), sig(6), sig(5)]);
    assert_eq!(LastSeen(vec![sig(1)]).into_vec(), vec![sig(1)]);
}

#[test]
fn chat_modes_are_numbered() {
    assert_eq!(ChatMode::try_from(0), Ok(ChatMode::Enabled));
    assert_eq!(ChatMode::try_from(1), Ok(ChatMode::CommandsOnly));
    assert_eq!(ChatMode::try_from(2), Ok(ChatMode::Hidden));
    assert!(ChatMode::try_from(3).is_err());
    assert!(ChatMode::try_from(-1).is_err());
}

#[test]
fn small_player_records() {
    let mut sync = ScreenHandlerSync { screen_handler_sync_id: 0 };
    sync.increment_screen_handler_sync_id();
    assert_eq!(sync.screen_handler_sync_id, 1);
    sync.screen_handler_sync_id = 100;
    sync.increment_screen_handler_sync_id();
    assert_eq!(sync.screen_handler_sync_id, 1);
    let session = ChatSession::new(3, 99, vec![1], vec![2]);
    assert_eq!(session.messages_sent, 0);
    assert_eq!(session.public_key, vec![1]);
    assert_eq!(TitleMode::ActionBar, TitleMode::ActionBar);
}

#[test]
fn slot_clicks_are_decided() {
    assert_eq!(on_slot_click(1, 2, GameMode::Survival, true, true, true), SlotClickAction::Ignore);
    assert_eq!(on_slot_click(1, 1, GameMode::Spectator, true, true, true), SlotClickAction::SyncState);
    assert_eq!(on_slot_click(1, 1, GameMode::Creative, false, true, true), SlotClickAction::Ignore);
    assert_eq!(on_slot_click(1, 1, GameMode::Creative, true, false, true), SlotClickAction::Ignore);
    assert_eq!(on_slot_click(1, 1, GameMode::Survival, true, true, false), SlotClickAction::ApplyAndResend);
    assert_eq!(on_slot_click(1, 1, GameMode::Adventure, true, true, true), SlotClickAction::ApplyAndUpdate);
}

#[test]
fn world_change_requests_a_teleport() {
    let mut ticker = PlayerTicker::new(0);
    ticker.set_client_loaded(true);
    let mut teleports: TeleportTracker<(i64, i64, i64)> = TeleportTracker::new();
    teleports.request_teleport((0, 0, 0));
    let mut watched = Cylindrical { center: ChunkPos { x: 10, z: -3 }, view_distance: 2 };
    let (steps, unload) = teleport_world(&mut ticker, &mut teleports, &mut watched, (5, 64, 5));
    assert_eq!(watched, Cylindrical { center: ChunkPos { x: 0, z: 0 }, view_distance: 1 });
    // gaps: |dx| - 1 and |dz| - 1 (at least 0), squared and added, below 4
    assert_eq!(unload.len(), 25);
    assert!(unload.contains(&ChunkPos { x: 12, z: -1 }));
    assert!(!unload.contains(&ChunkPos { x: 13, z: -3 }));
    assert!(unload.contains(&ChunkPos { x: 10, z: -5 }));
    assert!(!ticker.has_client_loaded());
    assert_eq!(teleports.awaiting_teleport, Some((2, (5, 64, 5))));
    assert_eq!(steps.len(), 11);
    assert_eq!(steps[0], WorldChangeStep::RemoveFromCurrentWorld);
    assert_eq!(steps[5], WorldChangeStep::SendTeleport(2));
    assert_eq!(steps[10], WorldChangeStep::SendWorldInfo);
}

#[test]
fn watched_cylinder_near_the_edge_of_the_world() {
    let mut c = Cylindrical { center: ChunkPos { x: i32::MAX, z: i32::MIN }, view_distance: 1 };
    let chunks = c.unload_watched_chunks();
    assert_eq!(chunks.len(), 4);
    let mut none = Cylindrical { center: ChunkPos { x: 0, z: 0 }, view_distance: 0 };
    assert!(none.unload_watched_chunks().is_empty());
}

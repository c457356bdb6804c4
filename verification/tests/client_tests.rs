use lumina::config::{
    client_config, client_settings, grid_settings, random_grid_settings, server_config,
    ClientSettings, ServerSettings,
};
use lumina::interaction::{hovered_button, pressed, Interaction, LabeledInteraction};
use lumina::player_map::{PlayerMap, SpawnActions};
use lumina::policy::{route, spawn_player_entity, NetworkTarget, Route};
use lumina::screen::Screen;
use lumina::spawner::{
    batch_spawn_rectangles, fill_spawn_queue, take_batch, RectangleBatchSpawner,
};
use std::collections::VecDeque;

fn item(interaction: Interaction, label: &str) -> LabeledInteraction {
    LabeledInteraction { interaction, label: label.to_string() }
}

#[test]
fn client_starts_on_the_main_menu() {
    assert_eq!(Screen::default(), Screen::MainMenu);
}

#[test]
fn player_map_remembers_entities() {
    let mut m = PlayerMap::new();
    assert_eq!(m.get(7), None);
    assert_eq!(m.insert(7, 70), None);
    assert_eq!(m.insert(8, 80), None);
    assert_eq!(m.insert(7, 71), Some(70));
    assert_eq!(m.get(7), Some(71));
    assert_eq!(m.get(8), Some(80));
    assert_eq!(m.get(9), None);
}

#[test]
fn only_the_own_player_is_local() {
    let mut m = PlayerMap::new();
    assert_eq!(m.handle_player_spawn(7, 70, 7), SpawnActions { local: true, replaced: None });
    assert_eq!(m.handle_player_spawn(8, 80, 7), SpawnActions { local: false, replaced: None });
    assert_eq!(m.handle_player_spawn(8, 81, 7), SpawnActions { local: false, replaced: Some(80) });
    assert_eq!(m.get(7), Some(70));
    assert_eq!(m.get(8), Some(81));
}

#[test]
fn queue_fills_up_to_the_batch_size() {
    let mut s = RectangleBatchSpawner { batch_size: 3, spawn_queue: VecDeque::from(vec![9]) };
    let mut pool = vec![1, 2, 3, 4];
    fill_spawn_queue(&mut s, &mut pool);
    assert_eq!(s.spawn_queue, VecDeque::from(vec![9, 4, 3]));
    assert_eq!(pool, vec![1, 2]);
    fill_spawn_queue(&mut s, &mut pool);
    assert_eq!(s.spawn_queue.len(), 3);
    assert_eq!(pool, vec![1, 2]);
}

#[test]
fn queue_takes_what_the_pool_has() {
    let mut s: RectangleBatchSpawner<u32> = RectangleBatchSpawner::default();
    assert_eq!(s.batch_size, 100);
    assert!(s.spawn_queue.is_empty());
    let mut pool = vec![1, 2];
    fill_spawn_queue(&mut s, &mut pool);
    assert_eq!(s.spawn_queue, VecDeque::from(vec![2, 1]));
    assert!(pool.is_empty());
}

#[test]
fn batch_leaves_the_queue_in_order() {
    let mut s = RectangleBatchSpawner { batch_size: 9, spawn_queue: VecDeque::from(vec![5, 6, 7]) };
    assert_eq!(take_batch(&mut s, 2), vec![5, 6]);
    assert_eq!(s.spawn_queue, VecDeque::from(vec![7]));
    assert_eq!(take_batch(&mut s, 2), vec![7]);
    assert_eq!(take_batch(&mut s, 2), Vec::<i32>::new());
}

#[test]
fn frame_spawns_at_most_a_hundred() {
    let mut s: RectangleBatchSpawner<u32> = RectangleBatchSpawner { batch_size: 150, spawn_queue: VecDeque::new() };
    let mut pool: Vec<u32> = (0..200).collect();
    let batch = batch_spawn_rectangles(&mut s, &mut pool);
    assert_eq!(batch.len(), 100);
    assert_eq!(batch[0], 199);
    assert_eq!(batch[99], 100);
    assert_eq!(s.spawn_queue.len(), 50);
    assert_eq!(pool.len(), 50);
    let batch = batch_spawn_rectangles(&mut s, &mut pool);
    assert_eq!(batch.len(), 100);
    assert_eq!(batch[0], 99);
    assert!(pool.is_empty());
    assert!(s.spawn_queue.is_empty());
    assert!(batch_spawn_rectangles(&mut s, &mut pool).is_empty());
}

#[test]
fn pressed_needs_label_and_press() {
    let items = vec![
        item(Interaction::Hovered, "play"),
        item(Interaction::Pressed, "quit"),
        item(Interaction::Idle, "help"),
    ];
    assert!(pressed(&items, "quit"));
    assert!(!pressed(&items, "play"));
    assert!(!pressed(&items, "help"));
    assert!(!pressed(&items, "missing"));
    assert!(!pressed(&Vec::new(), "quit"));
}

#[test]
fn last_hovered_element_counts() {
    let items = vec![
        item(Interaction::Hovered, "play"),
        item(Interaction::Pressed, "quit"),
        item(Interaction::Hovered, "help"),
        item(Interaction::Idle, "back"),
    ];
    assert_eq!(hovered_button(&items), Some(2));
    assert_eq!(hovered_button(&items[1..2].iter().map(|i| item(i.interaction, &i.label)).collect()), None);
    assert_eq!(hovered_button(&Vec::new()), None);
}

#[test]
fn client_port_follows_the_offset() {
    assert_eq!(
        client_settings(77, 2),
        ClientSettings { server_port: 5000, client_port: 4002, client_id: 77, protocol_id: 0 }
    );
    assert_eq!(client_settings(0, 61535).client_port, 65535);
    let c = client_config(1);
    assert_eq!(c.client_port, 4001);
    assert_eq!(c.server_port, 5000);
    assert_eq!(c.protocol_id, 0);
}

#[test]
fn server_replicates_every_hundred_milliseconds() {
    assert_eq!(server_config(), ServerSettings { server_port: 5000, send_interval: 100 });
}

#[test]
fn grid_seed_stays_below_the_largest() {
    let g = grid_settings(12);
    assert_eq!((g.width, g.height, g.seed), (200, 100, 12));
    assert_eq!((g.required_empty_percent, g.border_size, g.pool_size), (40, 1, 20000));
    for _ in 0..32 {
        let r = random_grid_settings();
        assert!(r.seed < u32::MAX);
        assert_eq!((r.width, r.height), (200, 100));
    }
}

#[test]
fn player_is_predicted_by_its_client_only() {
    let p = spawn_player_entity(7);
    assert_eq!(p.prediction, NetworkTarget::Single(7));
    assert_eq!(p.interpolation, NetworkTarget::AllExceptSingle(7));
    assert_eq!(p.controlled_by, NetworkTarget::Single(7));
    assert!(p.interest_managed);
    assert_eq!(route(&p, 7), Route::Reconcile);
    assert_eq!(route(&p, 8), Route::Interpolate);
}

#[test]
fn targets_include_the_right_clients() {
    assert!(NetworkTarget::All.includes(1));
    assert!(!NetworkTarget::Nobody.includes(1));
    assert!(NetworkTarget::Single(1).includes(1));
    assert!(!NetworkTarget::Single(1).includes(2));
    assert!(!NetworkTarget::AllExceptSingle(1).includes(1));
    assert!(NetworkTarget::AllExceptSingle(1).includes(2));
}

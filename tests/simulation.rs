use arcade_shooter::components::{
    Bullet, Enemy, Explosion, ExplosionAnimationTime, ExplosionColor, ExplosionTimer,
    ExplosionToSpawn, Movable, Player, Position, Timer, Velocity, POSITION_SCALE,
};
use arcade_shooter::enemy::{enemy_spawn_column, spawn_enemy_system, EnemySpawnTimer};
use arcade_shooter::game::{Game, TickInput};
use arcade_shooter::player::{player_fire_system, player_keyboard_event_system};
use arcade_shooter::systems::{
    enemy_hittest_laser, explosion_animation_system, explosion_spawn_system, movement_system,
    GameVisuals, WinSize,
};
use arcade_shooter::world::{
    Command, CommandQueue, Entity, EntityData, ExplosionState, Motion, Role, Slot, Visual, World,
};

fn visual(id: u64) -> Visual {
    Visual { mesh: id, material: id, alpha: 1000 }
}

fn visuals() -> GameVisuals {
    GameVisuals {
        player: visual(1),
        player_wing: visual(11),
        player_tail: visual(12),
        player_base_gun: visual(13),
        player_base_gun_inside: visual(14),
        player_gun: visual(15),
        enemy: visual(2),
        enemy_back: visual(21),
        enemy_ipon: visual(22),
        enemy_eye: visual(23),
        enemy_eye_inside: visual(24),
        bullet: visual(3),
        explosion_blue: visual(4),
        explosion_red: visual(5),
    }
}

fn screen() -> WinSize {
    WinSize { w: 600, h: 800 }
}

fn units(u: i64) -> i64 {
    u * POSITION_SCALE
}

fn entity(role: Role, x: i64, y: i64, velocity: Option<(i64, i64, bool)>) -> EntityData {
    EntityData {
        position: Position { x, y, z: 0 },
        scale: 1000,
        visual: Some(visual(9)),
        role,
        motion: velocity.map(|(vx, vy, auto)| Motion {
            velocity: Velocity { x: vx, y: vy },
            movable: Movable { auto_despawn: auto },
        }),
        explosion: None,
        request: None,
        parent: None,
    }
}

fn world_of(items: Vec<EntityData>) -> World {
    let mut world = World::new();
    let mut queue = CommandQueue::new();
    for d in items {
        queue.spawn(d);
    }
    world.flush(&mut queue);
    world
}

fn idle() -> TickInput {
    TickInput { delta_ms: 16, move_left: false, move_right: false, fire: false, enemy_x: 0 }
}

fn requests(world: &World) -> Vec<ExplosionToSpawn> {
    world
        .slots
        .iter()
        .filter(|s| s.alive)
        .filter_map(|s| s.data.request)
        .collect()
}

#[test]
fn one_bullet_one_enemy_both_destroyed() {
    let enemy_at = Position { x: units(10), y: units(100), z: -60 };
    let mut world = world_of(vec![
        entity(Role::Enemy(Enemy), enemy_at.x, enemy_at.y, None),
        entity(Role::Bullet(Bullet), units(12), units(90), None),
    ]);
    let mut queue = CommandQueue::new();
    enemy_hittest_laser(&world, &mut queue);
    world.flush(&mut queue);
    assert!(!world.is_alive(Entity(0)));
    assert!(!world.is_alive(Entity(1)));
    let reqs = requests(&world);
    assert_eq!(reqs.len(), 2);
    let at = Position { x: units(10), y: units(100), z: 60 };
    assert_eq!(reqs[0], ExplosionToSpawn(at, ExplosionColor::BLUE, 100, 600));
    assert_eq!(reqs[1], ExplosionToSpawn(at, ExplosionColor::RED, 150, 500));
}

#[test]
fn one_bullet_two_enemies_one_destroyed() {
    let mut world = world_of(vec![
        entity(Role::Enemy(Enemy), units(0), units(100), None),
        entity(Role::Enemy(Enemy), units(20), units(100), None),
        entity(Role::Bullet(Bullet), units(10), units(100), None),
    ]);
    let second_before = world.slots[1];
    let mut queue = CommandQueue::new();
    enemy_hittest_laser(&world, &mut queue);
    world.flush(&mut queue);
    assert!(!world.is_alive(Entity(0)));
    assert!(world.is_alive(Entity(1)));
    assert_eq!(world.slots[1], second_before);
    assert!(!world.is_alive(Entity(2)));
    assert_eq!(requests(&world).len(), 2);
}

#[test]
fn two_bullets_two_enemies_each_take_one() {
    let mut world = world_of(vec![
        entity(Role::Enemy(Enemy), units(0), units(100), None),
        entity(Role::Enemy(Enemy), units(20), units(100), None),
        entity(Role::Bullet(Bullet), units(10), units(100), None),
        entity(Role::Bullet(Bullet), units(10), units(100), None),
    ]);
    let mut queue = CommandQueue::new();
    enemy_hittest_laser(&world, &mut queue);
    world.flush(&mut queue);
    assert_eq!(world.live_count(), 4);
    assert_eq!(requests(&world).len(), 4);
}

#[test]
fn boxes_touching_edges_count_as_overlap() {
    // 2.5 + 35 apart in x: the boxes share an edge.
    let world = world_of(vec![
        entity(Role::Enemy(Enemy), 0, 0, None),
        entity(Role::Bullet(Bullet), units(37) + POSITION_SCALE / 2, 0, None),
    ]);
    let mut queue = CommandQueue::new();
    enemy_hittest_laser(&world, &mut queue);
    assert_eq!(queue.ops.len(), 4);
    let world = world_of(vec![
        entity(Role::Enemy(Enemy), 0, 0, None),
        entity(Role::Bullet(Bullet), units(37) + POSITION_SCALE / 2 + 1, 0, None),
    ]);
    let mut queue = CommandQueue::new();
    enemy_hittest_laser(&world, &mut queue);
    assert_eq!(queue.ops.len(), 0);
}

#[test]
fn explosion_grows_then_expires() {
    let mut world = world_of(vec![EntityData {
        request: Some(ExplosionToSpawn(
            Position { x: 5, y: 6, z: 7 },
            ExplosionColor::BLUE,
            100,
            600,
        )),
        visual: None,
        ..entity(Role::Scenery, 5, 6, None)
    }]);
    let mut queue = CommandQueue::new();
    explosion_spawn_system(&world, &mut queue, &visuals());
    world.flush(&mut queue);
    assert!(!world.is_alive(Entity(0)));
    assert!(world.is_alive(Entity(1)));
    let fresh = world.slots[1].data;
    assert_eq!(fresh.scale, 10);
    assert_eq!(fresh.visual, Some(visual(4)));
    assert_eq!(fresh.explosion.unwrap().timer, ExplosionTimer::default());

    explosion_animation_system(&mut world, &mut queue, 500);
    world.flush(&mut queue);
    assert!(world.is_alive(Entity(1)));
    assert_eq!(world.slots[1].data.scale, 110);
    assert_eq!(world.slots[1].data.visual.unwrap().alpha, 600);

    explosion_animation_system(&mut world, &mut queue, 300);
    world.flush(&mut queue);
    assert!(world.is_alive(Entity(1)));
    assert_eq!(world.slots[1].data.scale, 210);
    assert_eq!(world.slots[1].data.visual.unwrap().alpha, 360);

    explosion_animation_system(&mut world, &mut queue, 200);
    world.flush(&mut queue);
    assert!(!world.is_alive(Entity(1)));
}

#[test]
fn red_request_uses_red_visual() {
    let world = world_of(vec![EntityData {
        request: Some(ExplosionToSpawn(Position { x: 0, y: 0, z: 0 }, ExplosionColor::RED, 150, 500)),
        ..entity(Role::Scenery, 0, 0, None)
    }]);
    let mut queue = CommandQueue::new();
    explosion_spawn_system(&world, &mut queue, &visuals());
    match queue.ops[0] {
        Command::Spawn(d) => assert_eq!(d.visual, Some(visual(5))),
        _ => panic!("expected a spawn"),
    }
    assert_eq!(queue.ops[1], Command::Despawn(Entity(0)));
}

#[test]
fn explosion_through_full_ticks() {
    let mut game = Game::new(screen(), visuals());
    game.world = world_of(vec![entity(Role::Enemy(Enemy), 0, 0, None), entity(Role::Bullet(Bullet), 0, 0, None)]);
    let mut input = idle();
    input.delta_ms = 0;
    game.tick(input);
    // Requests exist after the first tick, explosions after the second.
    assert_eq!(requests(&game.world).len(), 2);
    game.tick(input);
    let explosions: Vec<usize> = (0..game.world.slots.len())
        .filter(|&i| game.world.slots[i].alive && game.world.slots[i].data.explosion.is_some())
        .collect();
    assert_eq!(explosions.len(), 2);
    input.delta_ms = 500;
    game.tick(input);
    for &i in &explosions {
        assert!(game.world.is_alive(Entity(i)));
        assert!(game.world.slots[i].data.scale > 10);
    }
    game.tick(input);
    for &i in &explosions {
        assert!(!game.world.is_alive(Entity(i)));
    }
}

#[test]
fn collision_without_enemies_requests_nothing() {
    let world = world_of(vec![entity(Role::Bullet(Bullet), 0, 0, None), entity(Role::Player(Player), 0, 0, None)]);
    let mut queue = CommandQueue::new();
    enemy_hittest_laser(&world, &mut queue);
    assert!(queue.ops.is_empty());
    let world = world_of(vec![entity(Role::Enemy(Enemy), 0, 0, None)]);
    enemy_hittest_laser(&world, &mut queue);
    assert!(queue.ops.is_empty());
}

#[test]
fn movement_without_movers_changes_nothing() {
    let mut world = world_of(vec![entity(Role::Enemy(Enemy), 5, 5, None)]);
    let before = world.slots.clone();
    let mut queue = CommandQueue::new();
    movement_system(&mut world, &mut queue, screen());
    assert_eq!(world.slots, before);
    assert!(queue.ops.is_empty());
}

#[test]
fn enemy_drifts_down_and_leaves() {
    let mut world = World::new();
    let mut queue = CommandQueue::new();
    let mut timer = EnemySpawnTimer(Timer::every(2000));
    assert!(!spawn_enemy_system(&mut queue, &mut timer, 1999, screen(), 0, &visuals()));
    assert!(queue.ops.is_empty());
    assert!(spawn_enemy_system(&mut queue, &mut timer, 1, screen(), 0, &visuals()));
    assert_eq!(timer.0.elapsed, 0);
    world.flush(&mut queue);
    assert_eq!(world.slots.len(), 6);
    let e = world.slots[0].data;
    assert_eq!(e.position, Position { x: 0, y: units(500), z: -60 });
    assert_eq!(e.motion.unwrap().velocity, Velocity { x: 0, y: -200 });
    assert!(e.motion.unwrap().movable.auto_despawn);

    // One tick: -0.2 * (1/60) * 500 = -5/3 units.
    movement_system(&mut world, &mut queue, screen());
    assert_eq!(world.slots[0].data.position.y, units(500) - 200);
    assert_eq!((units(500) - world.slots[0].data.position.y) * 3, 5 * POSITION_SCALE);
    for _ in 1..240 {
        movement_system(&mut world, &mut queue, screen());
    }
    // 240 ticks: -400 units.
    assert_eq!(world.slots[0].data.position.y, units(100));
    world.flush(&mut queue);
    assert!(world.is_alive(Entity(0)));

    // Gone once below -400 - 300.
    let mut ticks = 240;
    while world.is_alive(Entity(0)) {
        movement_system(&mut world, &mut queue, screen());
        let y = world.slots[0].data.position.y;
        world.flush(&mut queue);
        ticks += 1;
        assert_eq!(world.is_alive(Entity(0)), y >= units(-700));
        assert!(ticks < 1000);
    }
    assert_eq!(ticks, 721);
}

#[test]
fn fired_bullet_climbs() {
    let mut game = Game::new(screen(), visuals());
    assert_eq!(game.world.slots[0].data.position, Position { x: 0, y: units(-300), z: 0 });
    let mut input = idle();
    input.fire = true;
    game.tick(input);
    let bullet = game.world.slots[6];
    assert!(bullet.alive);
    assert_eq!(bullet.data.role, Role::Bullet(Bullet));
    // Spawned 35 above the player; its first step happens on the next tick.
    assert_eq!(bullet.data.position, Position { x: 0, y: units(-265), z: -12 });
    input.fire = false;
    game.tick(input);
    // Velocity one: 500 / 60 units per tick.
    assert_eq!(game.world.slots[6].data.position.y, units(-265) + 1000);
    assert_eq!(1000 * 60, 500 * POSITION_SCALE);
}

#[test]
fn bullet_despawns_above_screen() {
    let mut world = world_of(vec![entity(Role::Bullet(Bullet), 0, units(700), Some((0, 1000, true)))]);
    let mut queue = CommandQueue::new();
    movement_system(&mut world, &mut queue, screen());
    assert_eq!(queue.ops, vec![Command::Despawn(Entity(0))]);
    world.flush(&mut queue);
    assert!(!world.is_alive(Entity(0)));
}

#[test]
fn non_despawning_entity_stays_out_of_bounds() {
    let mut world = world_of(vec![entity(Role::Scenery, 0, units(700), Some((0, 1000, false)))]);
    let mut queue = CommandQueue::new();
    movement_system(&mut world, &mut queue, screen());
    assert!(queue.ops.is_empty());
}

#[test]
fn player_held_between_walls() {
    let mut game = Game::new(screen(), visuals());
    let mut input = idle();
    input.move_right = true;
    for _ in 0..100 {
        game.tick(input);
    }
    assert_eq!(game.world.slots[0].data.position.x, units(250));
    input.move_right = false;
    input.move_left = true;
    for _ in 0..200 {
        game.tick(input);
    }
    assert_eq!(game.world.slots[0].data.position.x, units(-250));
}

#[test]
fn player_outside_walls_is_pulled_back() {
    let mut world = world_of(vec![entity(Role::Player(Player), units(1000), 0, Some((0, 0, false)))]);
    let mut queue = CommandQueue::new();
    movement_system(&mut world, &mut queue, screen());
    assert_eq!(world.slots[0].data.position.x, units(250));
}

#[test]
fn keyboard_steers_single_player_only() {
    let mut world = world_of(vec![entity(Role::Player(Player), 0, 0, Some((0, 0, false)))]);
    player_keyboard_event_system(&mut world, true, true);
    assert_eq!(world.slots[0].data.motion.unwrap().velocity.x, -1000);
    player_keyboard_event_system(&mut world, false, true);
    assert_eq!(world.slots[0].data.motion.unwrap().velocity.x, 1000);
    player_keyboard_event_system(&mut world, false, false);
    assert_eq!(world.slots[0].data.motion.unwrap().velocity.x, 0);

    let mut two = world_of(vec![
        entity(Role::Player(Player), 0, 0, Some((0, 0, false))),
        entity(Role::Player(Player), 0, 0, Some((0, 0, false))),
    ]);
    player_keyboard_event_system(&mut two, true, false);
    assert_eq!(two.slots[0].data.motion.unwrap().velocity.x, 0);
    assert_eq!(two.slots[1].data.motion.unwrap().velocity.x, 0);
}

#[test]
fn no_player_no_fire() {
    let world = World::new();
    let mut queue = CommandQueue::new();
    player_fire_system(&world, &mut queue, true, &visuals());
    assert!(queue.ops.is_empty());
}

#[test]
fn despawn_twice_is_harmless() {
    let mut world = world_of(vec![entity(Role::Enemy(Enemy), 0, 0, None)]);
    let mut queue = CommandQueue::new();
    queue.despawn(Entity(0));
    queue.despawn(Entity(0));
    queue.despawn(Entity(7));
    world.flush(&mut queue);
    assert!(!world.is_alive(Entity(0)));
    assert_eq!(world.slots.len(), 1);
    assert!(queue.ops.is_empty());
}

#[test]
fn spawn_column_between_walls() {
    let mut seen = Vec::new();
    for _ in 0..50 {
        let x = enemy_spawn_column(screen()).unwrap();
        assert!(x >= units(-250) && x < units(250));
        seen.push(x);
    }
    seen.sort();
    seen.dedup();
    assert!(seen.len() > 1);
    assert_eq!(enemy_spawn_column(WinSize { w: 100, h: 800 }), None);
    assert!(enemy_spawn_column(WinSize { w: 101, h: 800 }).is_some());
}

#[test]
fn timers_count_milliseconds() {
    let mut once = Timer::once(1000);
    assert!(!once.tick(999));
    assert!(!once.finished());
    assert!(once.tick(5));
    assert!(once.finished());
    assert_eq!(once.elapsed, 1000);
    assert!(!once.tick(5));

    let mut every = Timer::every(2000);
    assert!(every.tick(4500));
    assert_eq!(every.elapsed, 500);
    assert!(!every.tick(1000));
    assert_eq!(every.elapsed, 1500);
}

#[test]
fn enemies_arrive_every_two_seconds() {
    let mut game = Game::new(screen(), visuals());
    let mut input = idle();
    input.delta_ms = 500;
    input.enemy_x = units(40);
    for _ in 0..3 {
        game.tick(input);
    }
    assert_eq!(game.world.slots.len(), 6);
    game.tick(input);
    assert_eq!(game.world.slots.len(), 12);
    assert_eq!(game.world.slots[6].data.role, Role::Enemy(Enemy));
    assert_eq!(game.world.slots[6].data.position.x, units(40));
}

#[test]
fn arena_keeps_dead_slots() {
    let mut world = world_of(vec![
        entity(Role::Enemy(Enemy), 0, 0, None),
        entity(Role::Enemy(Enemy), 0, 0, None),
    ]);
    assert_eq!(world.live_count(), 2);
    let mut queue = CommandQueue::new();
    queue.despawn(Entity(0));
    world.flush(&mut queue);
    assert_eq!(world.live_count(), 1);
    assert_eq!(world.slots.len(), 2);
    assert_eq!(world.slots[0], Slot { alive: false, ..world.slots[0] });
}

#[test]
fn explosion_without_visual_keeps_its_scale() {
    let mut world = world_of(vec![EntityData {
        scale: 10,
        visual: None,
        explosion: Some(ExplosionState {
            marker: Explosion,
            timer: ExplosionTimer::default(),
            animation: ExplosionAnimationTime(100, 600),
        }),
        ..entity(Role::Scenery, 0, 0, None)
    }]);
    let before = world.slots[0];
    let mut queue = CommandQueue::new();
    explosion_animation_system(&mut world, &mut queue, 500);
    assert!(queue.ops.is_empty());
    world.flush(&mut queue);
    let after = world.slots[0];
    assert!(after.alive);
    assert_eq!(after.data.scale, 10);
    assert_eq!(after.data.visual, None);
    assert_eq!(after.data.explosion.unwrap().timer.0.elapsed, 500);
    assert_eq!(EntityData { explosion: before.data.explosion, ..after.data }, before.data);

    explosion_animation_system(&mut world, &mut queue, 500);
    assert_eq!(queue.ops, vec![Command::Despawn(Entity(0))]);
    world.flush(&mut queue);
    assert!(!world.is_alive(Entity(0)));
}

#[test]
fn player_comes_with_five_parts() {
    let game = Game::new(screen(), visuals());
    let w = &game.world;
    assert_eq!(w.slots.len(), 6);
    assert_eq!(w.live_count(), 6);
    let p = w.slots[0].data;
    assert_eq!(p.role, Role::Player(Player));
    assert_eq!(p.parent, None);
    assert_eq!(p.motion.unwrap().velocity, Velocity { x: 0, y: 0 });
    assert!(!p.motion.unwrap().movable.auto_despawn);
    let offsets = [(0, -3000, -12), (0, 0, -12), (0, 1200, 24), (0, 1200, 36), (0, 0, 12)];
    for (k, &(x, y, z)) in offsets.iter().enumerate() {
        let part = w.slots[k + 1].data;
        assert_eq!(part.parent, Some(Entity(0)));
        assert_eq!(part.role, Role::Scenery);
        assert_eq!(part.motion, None);
        assert_eq!(part.position, Position { x, y, z });
        assert_eq!(part.visual, Some(visual(11 + k as u64)));
    }
}

#[test]
fn enemy_parts_follow_it_out() {
    let mut world = World::new();
    let mut queue = CommandQueue::new();
    let mut timer = EnemySpawnTimer(Timer::every(2000));
    assert!(spawn_enemy_system(&mut queue, &mut timer, 2000, screen(), units(10), &visuals()));
    world.flush(&mut queue);
    assert_eq!(world.slots.len(), 6);
    let xs = [0, -4200, 4200, 0, 0];
    for k in 1..6 {
        let part = world.slots[k].data;
        assert_eq!(part.parent, Some(Entity(0)));
        assert_eq!(part.role, Role::Scenery);
        assert_eq!(part.position.x, xs[k - 1]);
        assert!(part.motion.is_none());
    }
    assert_eq!(world.slots[5].data.position, Position { x: 0, y: -1200, z: 24 });
    assert_eq!(world.slots[2].data.visual, Some(visual(22)));
    assert_eq!(world.slots[3].data.visual, Some(visual(22)));

    // Parts neither move nor collide.
    let before = world.slots.clone();
    movement_system(&mut world, &mut queue, screen());
    for k in 1..6 {
        assert_eq!(world.slots[k], before[k]);
    }
    queue.despawn(Entity(0));
    world.flush(&mut queue);
    assert_eq!(world.live_count(), 0);
}

#[test]
fn destroyed_enemy_loses_its_parts() {
    let mut game = Game::new(screen(), visuals());
    let mut input = idle();
    input.delta_ms = 2000;
    input.enemy_x = 0;
    game.tick(input);
    assert_eq!(game.world.live_count(), 12);
    let enemy_y = game.world.slots[6].data.position.y;
    let mut queue = CommandQueue::new();
    queue.spawn(entity(Role::Bullet(Bullet), 0, enemy_y, None));
    game.world.flush(&mut queue);
    input.delta_ms = 0;
    game.tick(input);
    for k in 6..13 {
        assert!(!game.world.is_alive(Entity(k)));
    }
    for k in 0..6 {
        assert!(game.world.is_alive(Entity(k)));
    }
}

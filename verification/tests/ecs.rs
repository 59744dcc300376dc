use butter::ecs::Ecs;
use butter::query::Description;

#[derive(Debug, PartialEq, Eq, Clone, Copy)]
enum Comp {
    Player,
    Enemy,
    Health(i16),
    Level(u16),
}

const PLAYER: usize = 0;
const ENEMY: usize = 1;
const HEALTH: usize = 2;
const LEVEL: usize = 3;

#[test]
fn ecs_new() {
    let ecs: Ecs<Comp> = Ecs::new();
    assert_eq!(ecs.entity_count(), 0);
}

#[test]
fn ecs_insert() {
    let mut ecs: Ecs<Comp> = Ecs::new();
    let entity_index = ecs.insert(vec![(PLAYER, Comp::Player), (HEALTH, Comp::Health(10))]);
    assert_eq!(entity_index.index, 0);
    assert_eq!(entity_index.generation, 0);

    let entity_index = ecs.insert(vec![(ENEMY, Comp::Enemy), (HEALTH, Comp::Health(5))]);
    assert_eq!(entity_index.index, 1);
    assert_eq!(entity_index.generation, 0);

    assert_eq!(ecs.entity_count(), 2);
}

#[test]
fn mod_ecs_new() {
    let ecs: Ecs<Comp> = Ecs::new();
    assert_eq!(ecs.entity_count(), 0);
}

#[test]
fn mod_ecs_insert() {
    let mut ecs: Ecs<Comp> = Ecs::new();
    let entity_index = ecs.insert(vec![(PLAYER, Comp::Player), (HEALTH, Comp::Health(10))]);
    assert_eq!(entity_index.index, 0);
    assert_eq!(entity_index.generation, 0);

    let entity_index = ecs.insert(vec![(ENEMY, Comp::Enemy), (HEALTH, Comp::Health(5))]);
    assert_eq!(entity_index.index, 1);
    assert_eq!(entity_index.generation, 0);

    assert_eq!(ecs.entity_count(), 2);
}

#[test]
fn ecs_remove() {
    let mut ecs: Ecs<Comp> = Ecs::new();

    let player = ecs.insert(vec![(PLAYER, Comp::Player), (HEALTH, Comp::Health(10))]);
    assert_eq!(ecs.entity_count(), 1);

    let enemy = ecs.insert(vec![(ENEMY, Comp::Enemy), (HEALTH, Comp::Health(5))]);
    assert_eq!(ecs.entity_count(), 2);

    ecs.delete(enemy);
    assert_eq!(ecs.entity_count(), 1);

    ecs.delete(player);
    assert_eq!(ecs.entity_count(), 0);
}

#[test]
fn ecs_reuse_index() {
    let mut ecs: Ecs<Comp> = Ecs::new();

    let player = ecs.insert(vec![(PLAYER, Comp::Player), (HEALTH, Comp::Health(10))]);
    assert_eq!(player.index, 0);
    assert_eq!(player.generation, 0);

    ecs.delete(player);

    let player = ecs.insert(vec![(PLAYER, Comp::Player), (HEALTH, Comp::Health(5))]);
    assert_eq!(player.index, 0);
    assert_eq!(player.generation, 1);
}

#[test]
fn ecs_component() {
    let mut ecs: Ecs<Comp> = Ecs::new();
    let player = ecs.insert(vec![(PLAYER, Comp::Player), (HEALTH, Comp::Health(10))]);
    let player_component = ecs.component(PLAYER, player).unwrap();
    assert_eq!(player_component, &Comp::Player);
    let health_component = ecs.component(HEALTH, player).unwrap();
    assert_eq!(health_component, &Comp::Health(10));

    assert_eq!(ecs.component(ENEMY, player), None);
}

#[test]
fn ecs_component_mut() {
    let mut ecs: Ecs<Comp> = Ecs::new();
    let player = ecs.insert(vec![(PLAYER, Comp::Player), (HEALTH, Comp::Health(10))]);
    let health_component = ecs.component_mut(HEALTH, player).unwrap();
    *health_component = Comp::Health(5);
    let health_component = ecs.component(HEALTH, player).unwrap();
    assert_eq!(health_component, &Comp::Health(5));
}

#[test]
fn ecs_query() {
    let mut ecs: Ecs<Comp> = Ecs::new();
    let _player = ecs.insert(vec![(PLAYER, Comp::Player), (HEALTH, Comp::Health(10))]);
    let _enemy = ecs.insert(vec![(ENEMY, Comp::Enemy), (HEALTH, Comp::Health(5))]);
    let mut health_iter = ecs.query(&Description::new(vec![HEALTH]));
    assert_eq!(health_iter.next(&ecs), Some((0, vec![Comp::Health(10)])));
    assert_eq!(health_iter.next(&ecs), Some((1, vec![Comp::Health(5)])));
    assert_eq!(health_iter.next(&ecs), None);
}

#[test]
fn ecs_query_multiple() {
    let mut ecs: Ecs<Comp> = Ecs::new();
    let _player = ecs.insert(vec![
        (PLAYER, Comp::Player),
        (LEVEL, Comp::Level(1)),
        (HEALTH, Comp::Health(10)),
    ]);
    let _enemy = ecs.insert(vec![(ENEMY, Comp::Enemy), (HEALTH, Comp::Health(5))]);
    let mut query_iter = ecs.query(&Description::new(vec![PLAYER, LEVEL, HEALTH]));
    assert_eq!(
        query_iter.next(&ecs),
        Some((0, vec![Comp::Player, Comp::Level(1), Comp::Health(10)]))
    );
    assert_eq!(query_iter.next(&ecs), None);
}

#[test]
fn ecs_query_mut() {
    let mut ecs: Ecs<Comp> = Ecs::new();
    let _player = ecs.insert(vec![(PLAYER, Comp::Player), (HEALTH, Comp::Health(10))]);
    let _enemy = ecs.insert(vec![(ENEMY, Comp::Enemy), (HEALTH, Comp::Health(5))]);
    let description = Description::new(vec![HEALTH]);
    let mut slots = ecs.query(&description);
    while let Some((slot, _)) = slots.next(&ecs) {
        let health = ecs.component_mut_at_index(HEALTH, slot).unwrap();
        *health = Comp::Health(0);
    }

    let mut health_iter = ecs.query(&description);
    assert_eq!(health_iter.next(&ecs), Some((0, vec![Comp::Health(0)])));
    assert_eq!(health_iter.next(&ecs), Some((1, vec![Comp::Health(0)])));
    assert_eq!(health_iter.next(&ecs), None);
}

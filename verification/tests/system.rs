use butter::commands::CommandQueue;
use butter::ecs::Ecs;
use butter::query::Description;
use butter::system::Into;

#[derive(Debug, PartialEq, Eq, Clone, Copy)]
enum Comp {
    Player,
    Enemy,
    Health(i16),
}

const PLAYER: usize = 0;
const ENEMY: usize = 1;
const HEALTH: usize = 2;

fn set_health_of(mut ecs: Ecs<Comp>, tag: usize, value: i16) -> Ecs<Comp> {
    let description = Description::new(vec![tag, HEALTH]);
    let mut slots = ecs.query(&description);
    while let Some((slot, _)) = slots.next(&ecs) {
        let health = ecs.component_mut_at_index(HEALTH, slot).unwrap();
        *health = Comp::Health(value);
    }
    ecs
}

#[test]
fn system_with_single_query() {
    fn restore_player_health(
        queue: CommandQueue<Comp>,
        ecs: Ecs<Comp>,
    ) -> (CommandQueue<Comp>, Ecs<Comp>) {
        (queue, set_health_of(ecs, PLAYER, 10))
    }

    let mut ecs: Ecs<Comp> = Ecs::new();
    ecs.insert(vec![(PLAYER, Comp::Player), (HEALTH, Comp::Health(8))]);
    ecs.insert(vec![(PLAYER, Comp::Player), (HEALTH, Comp::Health(5))]);
    ecs.run_system(&mut restore_player_health.into_system());

    let description = Description::new(vec![PLAYER, HEALTH]);
    let mut matches = ecs.query(&description);
    let mut seen: usize = 0;
    while let Some((_, components)) = matches.next(&ecs) {
        assert_eq!(components[1], Comp::Health(10));
        seen += 1;
    }
    assert_eq!(seen, 2);
}

#[test]
fn system_with_multiple_queries() {
    fn restore_player_health(
        queue: CommandQueue<Comp>,
        ecs: Ecs<Comp>,
    ) -> (CommandQueue<Comp>, Ecs<Comp>) {
        let ecs = set_health_of(ecs, PLAYER, 10);
        (queue, set_health_of(ecs, ENEMY, 0))
    }

    let mut ecs: Ecs<Comp> = Ecs::new();
    ecs.insert(vec![(PLAYER, Comp::Player), (HEALTH, Comp::Health(8))]);
    ecs.insert(vec![(PLAYER, Comp::Player), (HEALTH, Comp::Health(5))]);
    ecs.insert(vec![(ENEMY, Comp::Enemy), (HEALTH, Comp::Health(12))]);
    ecs.insert(vec![(ENEMY, Comp::Enemy), (HEALTH, Comp::Health(9))]);
    ecs.run_system(&mut restore_player_health.into_system());

    let mut players = ecs.query(&Description::new(vec![PLAYER, HEALTH]));
    while let Some((_, components)) = players.next(&ecs) {
        assert_eq!(components[1], Comp::Health(10));
    }

    let mut enemies = ecs.query(&Description::new(vec![ENEMY, HEALTH]));
    while let Some((_, components)) = enemies.next(&ecs) {
        assert_eq!(components[1], Comp::Health(0));
    }
}

#[test]
fn system_inserting_entities() {
    fn insert_entities(
        mut command_queue: CommandQueue<Comp>,
        ecs: Ecs<Comp>,
    ) -> (CommandQueue<Comp>, Ecs<Comp>) {
        command_queue.insert(vec![(PLAYER, Comp::Player), (HEALTH, Comp::Health(10))]);
        command_queue.insert(vec![(ENEMY, Comp::Enemy), (HEALTH, Comp::Health(8))]);
        (command_queue, ecs)
    }

    let mut ecs: Ecs<Comp> = Ecs::new();
    assert_eq!(ecs.entity_count(), 0);
    ecs.run_system(&mut insert_entities.into_system());
    assert_eq!(ecs.entity_count(), 2);
}

#[test]
fn system_system_with_single_query() {
    fn restore_player_health(
        queue: CommandQueue<Comp>,
        ecs: Ecs<Comp>,
    ) -> (CommandQueue<Comp>, Ecs<Comp>) {
        (queue, set_health_of(ecs, PLAYER, 10))
    }

    let mut ecs: Ecs<Comp> = Ecs::new();
    ecs.insert(vec![(PLAYER, Comp::Player), (HEALTH, Comp::Health(8))]);
    ecs.insert(vec![(PLAYER, Comp::Player), (HEALTH, Comp::Health(5))]);
    ecs.run_system(&mut restore_player_health.into_system());

    let description = Description::new(vec![PLAYER, HEALTH]);
    let mut matches = ecs.query(&description);
    while let Some((_, components)) = matches.next(&ecs) {
        assert_eq!(components[1], Comp::Health(10));
    }
}

#[test]
fn system_system_with_multiple_queries() {
    fn restore_player_health(
        queue: CommandQueue<Comp>,
        ecs: Ecs<Comp>,
    ) -> (CommandQueue<Comp>, Ecs<Comp>) {
        let ecs = set_health_of(ecs, PLAYER, 10);
        (queue, set_health_of(ecs, ENEMY, 0))
    }

    let mut ecs: Ecs<Comp> = Ecs::new();
    ecs.insert(vec![(PLAYER, Comp::Player), (HEALTH, Comp::Health(8))]);
    ecs.insert(vec![(PLAYER, Comp::Player), (HEALTH, Comp::Health(5))]);
    ecs.insert(vec![(ENEMY, Comp::Enemy), (HEALTH, Comp::Health(12))]);
    ecs.insert(vec![(ENEMY, Comp::Enemy), (HEALTH, Comp::Health(9))]);
    ecs.run_system(&mut restore_player_health.into_system());

    let mut players = ecs.query(&Description::new(vec![PLAYER, HEALTH]));
    while let Some((_, components)) = players.next(&ecs) {
        assert_eq!(components[1], Comp::Health(10));
    }

    let mut enemies = ecs.query(&Description::new(vec![ENEMY, HEALTH]));
    while let Some((_, components)) = enemies.next(&ecs) {
        assert_eq!(components[1], Comp::Health(0));
    }
}

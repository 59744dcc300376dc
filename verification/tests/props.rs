use butter::commands::Command;
use butter::commands::CommandQueue;
use butter::commands::InsertEntityCommand;
use butter::ecs::Ecs;
use butter::engine::ButterEngineBuilder;
use butter::query::Description;
use butter::system::Function;
use butter::system::Into;
use butter::window::Size;

#[derive(Debug, PartialEq, Eq, Clone, Copy)]
enum Comp {
    Player,
    Enemy,
    Health(i16),
}

const PLAYER: usize = 0;
const ENEMY: usize = 1;
const HEALTH: usize = 2;

#[derive(Debug, PartialEq, Eq, Clone)]
enum Named {
    Tag,
    Label(String),
}

const TAG: usize = 0;
const LABEL: usize = 1;

#[test]
fn non_copy_components_match_by_slot() {
    let mut ecs: Ecs<Named> = Ecs::new();
    let hero = ecs.insert(vec![(TAG, Named::Tag), (LABEL, Named::Label("hero".to_owned()))]);
    ecs.insert(vec![(TAG, Named::Tag)]);
    let description = Description::new(vec![TAG, LABEL]);
    let mut it = ecs.query(&description);
    assert_eq!(it.next_match(&ecs), Some(0));
    assert_eq!(it.next_match(&ecs), None);
    assert_eq!(ecs.component(LABEL, hero), Some(&Named::Label("hero".to_owned())));
}

#[test]
fn inserts_without_deletes_count_up() {
    let mut ecs: Ecs<Comp> = Ecs::new();
    let mut previous_index = None;
    for n in 0..5 {
        let entity = ecs.insert(vec![(HEALTH, Comp::Health(n as i16))]);
        assert_eq!(entity.generation, 0);
        if let Some(previous) = previous_index {
            assert!(entity.index > previous);
        }
        previous_index = Some(entity.index);
        assert_eq!(ecs.entity_count(), n + 1);
    }
}

#[test]
fn reclaimed_slot_scenario() {
    let mut ecs: Ecs<Comp> = Ecs::new();
    let first = ecs.insert(vec![(PLAYER, Comp::Player)]);
    let _second = ecs.insert(vec![(ENEMY, Comp::Enemy)]);
    assert_eq!(ecs.entity_count(), 2);

    ecs.delete(first);
    assert_eq!(ecs.entity_count(), 1);

    let third = ecs.insert(vec![(PLAYER, Comp::Player)]);
    assert_eq!(third.index, 0);
    assert_eq!(third.generation, 1);
    assert_eq!(ecs.entity_count(), 2);
}

#[test]
fn deleted_entity_not_yielded() {
    let mut ecs: Ecs<Comp> = Ecs::new();
    let entity = ecs.insert(vec![(PLAYER, Comp::Player), (HEALTH, Comp::Health(3))]);
    ecs.delete(entity);
    let mut players = ecs.query(&Description::new(vec![PLAYER]));
    assert_eq!(players.next(&ecs), None);
}

#[test]
fn fresh_query_repeats_sequence() {
    let mut ecs: Ecs<Comp> = Ecs::new();
    ecs.insert(vec![(PLAYER, Comp::Player), (HEALTH, Comp::Health(1))]);
    ecs.insert(vec![(ENEMY, Comp::Enemy), (HEALTH, Comp::Health(2))]);
    ecs.insert(vec![(PLAYER, Comp::Player), (HEALTH, Comp::Health(3))]);

    let description = Description::new(vec![PLAYER, HEALTH]);
    let mut first_pass = Vec::new();
    let mut it = ecs.query(&description);
    while let Some(entry) = it.next(&ecs) {
        first_pass.push(entry);
    }
    let mut second_pass = Vec::new();
    let mut it = ecs.query(&description);
    while let Some(entry) = it.next(&ecs) {
        second_pass.push(entry);
    }
    assert_eq!(
        first_pass,
        vec![
            (0, vec![Comp::Player, Comp::Health(1)]),
            (2, vec![Comp::Player, Comp::Health(3)]),
        ]
    );
    assert_eq!(first_pass, second_pass);
}

#[test]
fn empty_description_matches_all_slots() {
    let mut ecs: Ecs<Comp> = Ecs::new();
    ecs.insert(vec![(PLAYER, Comp::Player)]);
    ecs.insert(vec![(ENEMY, Comp::Enemy)]);
    let mut it = ecs.query(&Description::new(vec![]));
    assert_eq!(it.next(&ecs), Some((0, vec![])));
    assert_eq!(it.next(&ecs), Some((1, vec![])));
    assert_eq!(it.next(&ecs), None);
}

#[test]
fn duplicate_kind_last_value_wins() {
    let mut ecs: Ecs<Comp> = Ecs::new();
    let entity = ecs.insert(vec![(HEALTH, Comp::Health(1)), (HEALTH, Comp::Health(7))]);
    assert_eq!(ecs.component(HEALTH, entity), Some(&Comp::Health(7)));
}

#[test]
fn system_leaves_other_tags_untouched() {
    fn restore_player_health(
        queue: CommandQueue<Comp>,
        mut ecs: Ecs<Comp>,
    ) -> (CommandQueue<Comp>, Ecs<Comp>) {
        let description = Description::new(vec![PLAYER, HEALTH]);
        let mut slots = ecs.query(&description);
        while let Some((slot, _)) = slots.next(&ecs) {
            let health = ecs.component_mut_at_index(HEALTH, slot).unwrap();
            *health = Comp::Health(10);
        }
        (queue, ecs)
    }

    let mut ecs: Ecs<Comp> = Ecs::new();
    ecs.insert(vec![(PLAYER, Comp::Player), (HEALTH, Comp::Health(8))]);
    ecs.insert(vec![(PLAYER, Comp::Player), (HEALTH, Comp::Health(5))]);
    let enemy = ecs.insert(vec![(ENEMY, Comp::Enemy), (HEALTH, Comp::Health(3))]);
    ecs.run_system(&mut restore_player_health.into_system());

    let mut players = ecs.query(&Description::new(vec![PLAYER, HEALTH]));
    while let Some((_, components)) = players.next(&ecs) {
        assert_eq!(components[1], Comp::Health(10));
    }
    assert_eq!(ecs.component(HEALTH, enemy), Some(&Comp::Health(3)));
}

#[test]
fn command_queue_extend_and_replay() {
    let mut first: CommandQueue<Comp> = CommandQueue::new();
    first.insert(vec![(PLAYER, Comp::Player)]);
    first.insert((HEALTH, Comp::Health(4)));

    let mut second: CommandQueue<Comp> = CommandQueue::new();
    second.insert(vec![(ENEMY, Comp::Enemy)]);
    second.extend(first.drain());

    let mut ecs: Ecs<Comp> = Ecs::new();
    ecs.apply_commands(second.drain());
    assert_eq!(ecs.entity_count(), 3);
    assert_eq!(ecs.component_at_index(ENEMY, 0), Some(&Comp::Enemy));
    assert_eq!(ecs.component_at_index(PLAYER, 1), Some(&Comp::Player));
    assert_eq!(ecs.component_at_index(HEALTH, 2), Some(&Comp::Health(4)));
}

#[test]
fn insert_entity_command_executes() {
    let command = InsertEntityCommand::new(vec![(PLAYER, Comp::Player)]);
    let mut ecs: Ecs<Comp> = Ecs::new();
    command.execute(&mut ecs);
    assert_eq!(ecs.entity_count(), 1);
}

#[test]
fn window_defaults() {
    let settings = butter::window::Settings::default();
    assert_eq!(settings.title, "Butter application");
    assert_eq!(settings.wasm_canvas_id, "butter-application");
    assert_eq!(settings.size.width, 800);
    assert_eq!(settings.size.height, 600);
}

#[test]
fn builder_fills_in_defaults() {
    type Sys = Function<
        fn(CommandQueue<Comp>, Ecs<Comp>) -> (CommandQueue<Comp>, Ecs<Comp>),
        Comp,
    >;
    let mut builder: ButterEngineBuilder<Sys> = ButterEngineBuilder::new();
    let engine = builder.build::<Comp>();
    let settings = engine.settings();
    assert_eq!(settings.window_settings.title, "Butter App");
    assert_eq!(settings.window_settings.wasm_canvas_id, "butter-app");
    assert_eq!(settings.window_settings.size.width, 800);
    assert_eq!(settings.window_settings.size.height, 600);
}

#[test]
fn engine_runs_registered_systems() {
    fn spawn_player(
        mut queue: CommandQueue<Comp>,
        ecs: Ecs<Comp>,
    ) -> (CommandQueue<Comp>, Ecs<Comp>) {
        queue.insert(vec![(PLAYER, Comp::Player)]);
        (queue, ecs)
    }
    fn spawn_enemy(
        mut queue: CommandQueue<Comp>,
        ecs: Ecs<Comp>,
    ) -> (CommandQueue<Comp>, Ecs<Comp>) {
        queue.insert(vec![(ENEMY, Comp::Enemy)]);
        (queue, ecs)
    }

    let mut builder = ButterEngineBuilder::new();
    let mut engine = builder
        .with_window_title("arena")
        .with_window_size(Size { width: 320, height: 200 })
        .with_wasm_canvas_id("arena-canvas")
        .with_init_system(
            spawn_player as fn(CommandQueue<Comp>, Ecs<Comp>) -> (CommandQueue<Comp>, Ecs<Comp>),
        )
        .with_system(
            spawn_enemy as fn(CommandQueue<Comp>, Ecs<Comp>) -> (CommandQueue<Comp>, Ecs<Comp>),
        )
        .build::<Comp>();

    let settings = engine.settings();
    assert_eq!(settings.window_settings.title, "arena");
    assert_eq!(settings.window_settings.size.width, 320);
    assert_eq!(settings.window_settings.size.height, 200);
    assert_eq!(settings.window_settings.wasm_canvas_id, "arena-canvas");

    assert_eq!(engine.entity_count(), 0);
    engine.init();
    assert_eq!(engine.entity_count(), 1);
    engine.update();
    assert_eq!(engine.entity_count(), 2);
    engine.update();
    assert_eq!(engine.entity_count(), 3);
}

use openmoonstone::driver::{MAX_CATCH_UP_TICKS, TICK_MS};
use openmoonstone::{
    create_input_binding, handle_key, opening_stack, EncounterScene, Fade, FadeStyle,
    InputBinding, InputEffectTracker, InputEvent, Layer, MainScene, Menu, Scene, SceneError,
    SceneStack, SceneState, SceneSwitch, Scheduler, StackError, World,
};

fn fade(duration: u32, style: FadeStyle) -> Fade {
    Fade::new(duration, style).unwrap()
}

fn is_fade(s: &Scene, elapsed: u32, style: FadeStyle) -> bool {
    match s {
        Scene::Fade(f) => f.elapsed == elapsed && f.style == style,
        _ => false,
    }
}

#[test]
fn new_stack_holds_main_scene() {
    let stack = SceneStack::new(World::new());
    assert_eq!(stack.len(), 1);
    assert_eq!(stack.scene(0).name(), "Main");
}

#[test]
fn push_pop_length_counts_operations() {
    let mut stack = SceneStack::new(World::new());
    stack.push(Scene::Menu(Menu::new()));
    stack.push(Scene::Fade(fade(3, FadeStyle::In)));
    stack.push(Scene::Encounter(EncounterScene::new("wab1")));
    assert_eq!(stack.pop(), Ok(()));
    assert_eq!(stack.len(), 1 + 3 - 1);
    assert_eq!(stack.pop(), Ok(()));
    assert_eq!(stack.pop(), Ok(()));
    assert_eq!(stack.len(), 1);
}

#[test]
fn pop_of_root_scene_is_refused() {
    let mut stack = SceneStack::new(World::new());
    assert_eq!(stack.pop(), Err(StackError::LastScene));
    assert_eq!(stack.len(), 1);
    assert_eq!(stack.scene(0).name(), "Main");
}

#[test]
fn replace_of_root_scene_is_refused() {
    let mut stack = SceneStack::new(World::new());
    let r = stack.apply_switch(SceneSwitch::Replace(Scene::Menu(Menu::new())));
    assert_eq!(r, Err(StackError::LastScene));
    assert_eq!(stack.scene(0).name(), "Main");
}

#[test]
fn replace_swaps_the_top_scene() {
    let mut stack = SceneStack::new(World::new());
    stack.push(Scene::Menu(Menu::new()));
    let r = stack.apply_switch(SceneSwitch::Replace(Scene::Encounter(EncounterScene::new("a"))));
    assert_eq!(r, Ok(()));
    assert_eq!(stack.len(), 2);
    assert_eq!(stack.scene(1).name(), "Encounter");
}

#[test]
fn push_multiple_puts_last_on_top() {
    let mut world = World::new();
    world.next_scene = SceneState::Practice;
    let mut stack = SceneStack::new(world);
    stack.update();
    assert_eq!(stack.len(), 3);
    assert!(is_fade(stack.scene(2), 0, FadeStyle::In));
    match stack.scene(1) {
        Scene::Encounter(e) => assert_eq!(e.level, "wab1"),
        _ => panic!("an encounter should lie beneath the fade"),
    }
}

#[test]
fn push_multiple_switch_keeps_order() {
    let mut stack = SceneStack::new(World::new());
    let v = vec![Scene::Menu(Menu::new()), Scene::Fade(fade(2, FadeStyle::Out))];
    assert_eq!(stack.apply_switch(SceneSwitch::PushMultiple(v)), Ok(()));
    assert_eq!(stack.len(), 3);
    assert_eq!(stack.scene(1).name(), "Menu");
    assert_eq!(stack.scene(2).name(), "Fade");
}

#[test]
fn fade_is_removed_after_exactly_its_duration() {
    let mut stack = SceneStack::new(World::new());
    stack.push(Scene::Menu(Menu::new()));
    stack.push(Scene::Fade(fade(5, FadeStyle::In)));
    for k in 1..5u32 {
        stack.update();
        assert_eq!(stack.len(), 3);
        assert!(is_fade(stack.scene(2), k, FadeStyle::In));
    }
    stack.update();
    assert_eq!(stack.len(), 2);
    assert_eq!(stack.scene(1).name(), "Menu");
}

#[test]
fn fade_of_one_tick_leaves_on_first_update() {
    let mut stack = SceneStack::new(World::new());
    stack.push(Scene::Fade(fade(1, FadeStyle::Out)));
    stack.update();
    assert_eq!(stack.len(), 1);
}

#[test]
fn fade_with_zero_duration_is_refused() {
    assert_eq!(Fade::new(0, FadeStyle::In), Err(SceneError::ZeroDuration));
    assert_eq!(
        Fade::new(274, FadeStyle::Out),
        Ok(Fade { duration: 274, elapsed: 0, style: FadeStyle::Out })
    );
}

#[test]
fn fade_update_reports_completion() {
    let mut f = fade(2, FadeStyle::In);
    assert!(matches!(f.update(), SceneSwitch::NoChange));
    assert!(!f.is_complete());
    assert!(matches!(f.update(), SceneSwitch::Pop));
    assert!(f.is_complete());
}

#[test]
fn fade_alpha_values() {
    let mut f = fade(274, FadeStyle::In);
    assert_eq!(f.alpha(), 255);
    f.elapsed = 137;
    assert_eq!(f.alpha(), 127);
    f.elapsed = 274;
    assert_eq!(f.alpha(), 0);
    let mut g = fade(274, FadeStyle::Out);
    assert_eq!(g.alpha(), 0);
    g.elapsed = 137;
    assert_eq!(g.alpha(), 127);
    g.elapsed = 274;
    assert_eq!(g.alpha(), 255);
}

#[test]
fn draw_paints_every_scene_bottom_up() {
    let mut stack = SceneStack::new(World::new());
    stack.push(Scene::Menu(Menu::new()));
    stack.push(Scene::Fade(fade(4, FadeStyle::Out)));
    stack.update();
    let layers = stack.draw();
    assert_eq!(layers, vec![Layer::Backdrop, Layer::Menu, Layer::Overlay(63)]);
}

#[test]
fn resolve_is_deterministic_and_total() {
    let b = create_input_binding();
    for code in [13u32, 32, 1073741906, 0, 99, u32::MAX] {
        assert_eq!(b.resolve(code), b.resolve(code));
    }
    assert_eq!(b.resolve(13), Some(InputEvent::Confirm));
    assert_eq!(b.resolve(32), Some(InputEvent::Fire));
    assert_eq!(b.resolve(1073741903), Some(InputEvent::Right));
    assert_eq!(b.resolve(99), None);
}

#[test]
fn resolve_keeps_first_binding_of_a_key() {
    let mut b = InputBinding::new();
    assert_eq!(b.resolve(7), None);
    b.bind(7, InputEvent::Up);
    b.bind(7, InputEvent::Down);
    assert_eq!(b.resolve(7), Some(InputEvent::Up));
}

#[test]
fn held_duration_counts_ticks() {
    let mut t = InputEffectTracker::new();
    t.update_effect(InputEvent::Fire, true);
    for _ in 0..10 {
        t.update(TICK_MS);
    }
    assert!(t.is_held(InputEvent::Fire));
    assert_eq!(t.held_ms(InputEvent::Fire), 10 * TICK_MS);
    assert_eq!(t.held_ms(InputEvent::Up), 0);
    t.update_effect(InputEvent::Fire, true);
    assert_eq!(t.held_ms(InputEvent::Fire), 10 * TICK_MS);
    t.update_effect(InputEvent::Fire, false);
    assert!(!t.is_held(InputEvent::Fire));
    assert_eq!(t.held_ms(InputEvent::Fire), 0);
}

#[test]
fn held_duration_saturates() {
    let mut t = InputEffectTracker::new();
    t.update_effect(InputEvent::Left, true);
    t.update(u64::MAX - 1);
    t.update(5);
    assert_eq!(t.held_ms(InputEvent::Left), u64::MAX);
}

#[test]
fn scheduler_counts_whole_ticks() {
    let mut s = Scheduler::standard();
    assert_eq!(s.advance(250), 2);
    assert_eq!(s.accumulator_ms, 28);
    assert_eq!(s.advance(83), 1);
    assert_eq!(s.accumulator_ms, 0);
    assert_eq!(s.advance(110), 0);
}

#[test]
fn scheduler_caps_catch_up_and_drops_backlog() {
    let mut s = Scheduler::standard();
    let n = s.advance(1_000_000);
    assert_eq!(n, MAX_CATCH_UP_TICKS);
    assert_eq!(s.accumulator_ms, 0);
    assert_eq!(s.advance(0), 0);
    assert_eq!(s.advance(u64::MAX), MAX_CATCH_UP_TICKS);
}

#[test]
fn run_frame_runs_ticks_on_stack_and_input() {
    let mut stack = SceneStack::new(World::new());
    stack.push(Scene::Fade(fade(10, FadeStyle::In)));
    stack.world.input.update_effect(InputEvent::Up, true);
    let mut s = Scheduler::standard();
    let n = s.run_frame(&mut stack, 10_000);
    assert_eq!(n, 5);
    assert!(is_fade(stack.scene(1), 5, FadeStyle::In));
    assert_eq!(stack.world.input.held_ms(InputEvent::Up), 5 * TICK_MS);
}

#[test]
fn opening_sequence_reaches_menu() {
    let mut stack = opening_stack("level1", World::new());
    let names: Vec<&str> = (0..stack.len()).map(|i| stack.scene(i).name()).collect();
    assert_eq!(names, vec!["Main", "Encounter", "Fade", "Fade", "Menu", "Fade"]);
    for _ in 0..273 {
        stack.update();
    }
    assert_eq!(stack.len(), 6);
    stack.update();
    assert_eq!(stack.len(), 5);
    assert_eq!(stack.scene(4).name(), "Menu");
    assert!(is_fade(stack.scene(3), 0, FadeStyle::Out));
    assert!(is_fade(stack.scene(2), 0, FadeStyle::In));
    match stack.scene(1) {
        Scene::Encounter(e) => assert_eq!(e.level, "level1"),
        _ => panic!("the encounter should be second from the bottom"),
    }
    assert_eq!(stack.scene(0).name(), "Main");
    let b = create_input_binding();
    assert_eq!(handle_key(&mut stack, &b, 13, true), Some(InputEvent::Confirm));
    assert_eq!(stack.world.next_scene, SceneState::Practice);
    assert!(stack.world.input.is_held(InputEvent::Confirm));
}

#[test]
fn input_goes_to_top_scene_only() {
    let mut stack = SceneStack::new(World::new());
    stack.push(Scene::Menu(Menu::new()));
    stack.push(Scene::Fade(fade(3, FadeStyle::In)));
    let b = create_input_binding();
    assert_eq!(handle_key(&mut stack, &b, 13, true), Some(InputEvent::Confirm));
    assert_eq!(stack.world.next_scene, SceneState::Menu);
    assert_eq!(handle_key(&mut stack, &b, 12345, true), None);
}

#[test]
fn main_scene_pushes_practice_from_menu() {
    let mut m = MainScene::new();
    let mut w = World::new();
    w.next_scene = SceneState::Practice;
    match m.update(&w) {
        SceneSwitch::PushMultiple(v) => {
            assert_eq!(v.len(), 2);
            match &v[0] {
                Scene::Encounter(e) => assert_eq!(e.level, "wab1"),
                _ => panic!("first scene should be the encounter"),
            }
            assert!(is_fade(&v[1], 0, FadeStyle::In));
            match &v[1] {
                Scene::Fade(f) => assert_eq!(f.duration, 274),
                _ => panic!("second scene should be the fade"),
            }
        }
        _ => panic!("expected a multiple push"),
    }
}

#[test]
fn main_scene_stays_otherwise() {
    let mut m = MainScene::new();
    assert_eq!(m.name(), "Main");
    let modes = [SceneState::Menu, SceneState::Practice, SceneState::Encounter];
    for scene in modes {
        for next_scene in modes {
            if scene == SceneState::Menu && next_scene == SceneState::Practice {
                continue;
            }
            let mut w = World::new();
            w.scene = scene;
            w.next_scene = next_scene;
            assert!(matches!(m.update(&w), SceneSwitch::NoChange));
        }
    }
}

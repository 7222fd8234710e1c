use vstd::prelude::*;

use crate::input::InputEvent;
use vstd::arithmetic::div_mod::lemma_div_is_ordered;
use crate::world::{SceneState, World};

verus! {

/// Length in ticks of the fade that leads into a practice encounter.
pub const ENTRY_FADE_TICKS: u32 = 274;

/// Direction of a fade: `In` goes from opaque to transparent, `Out` from
/// transparent to opaque.
#[derive(Clone, Copy, Debug, PartialEq, Eq, Structural)]
pub enum FadeStyle {
    In,
    Out,
}

/// Timed overlay that counts ticks up to its duration and then leaves the
/// stack.
#[derive(Clone, Copy, Debug, PartialEq, Eq, Structural)]
pub struct Fade {
    pub duration: u32,
    pub elapsed: u32,
    pub style: FadeStyle,
}

/// Why a scene could not be built.
#[derive(Clone, Copy, Debug, PartialEq, Eq, Structural)]
pub enum SceneError {
    ZeroDuration,
}

/// Opacity of a fade overlay, from 0 (transparent) to 255 (opaque).
pub open spec fn fade_alpha(style: FadeStyle, elapsed: int, duration: int) -> int {
    match style {
        FadeStyle::In => 255 * (duration - elapsed) / duration,
        FadeStyle::Out => 255 * elapsed / duration,
    }
}

impl Fade {
    /// Still fading: completed fades do not stay on the stack.
    pub open spec fn wf(&self) -> bool {
        0 < self.duration && self.elapsed < self.duration
    }

    /// A fade of `duration` ticks that has not started. A zero duration is
    /// refused.
    pub fn new(duration: u32, style: FadeStyle) -> (r: Result<Fade, SceneError>)
        ensures
            duration == 0 ==> r == Err::<Fade, SceneError>(SceneError::ZeroDuration),
            duration > 0 ==> r == Ok::<Fade, SceneError>(Fade { duration, elapsed: 0, style }),
    {
        if duration == 0 {
            Err(SceneError::ZeroDuration)
        } else {
            Ok(Fade { duration, elapsed: 0, style })
        }
    }

    /// Whether the fade has reached its duration.
    pub fn is_complete(&self) -> (r: bool)
        ensures
            r == (self.elapsed >= self.duration),
    {
        self.elapsed >= self.duration
    }

    /// One tick: the fade advances by one and asks to leave the stack on the
    /// tick that completes it.
    pub fn update(&mut self) -> (r: SceneSwitch)
        requires
            old(self).wf(),
        ensures
            *final(self) == fade_next(*old(self)),
            r@ == fade_transition(*old(self)),
    {
        self.elapsed = self.elapsed + 1;
        if self.elapsed == self.duration {
            SceneSwitch::Pop
        } else {
            SceneSwitch::NoChange
        }
    }

    /// Opacity of the overlay at this point of the fade.
    pub fn alpha(&self) -> (r: u8)
        requires
            0 < self.duration,
            self.elapsed <= self.duration,
        ensures
            r as int == fade_alpha(self.style, self.elapsed as int, self.duration as int),
    {
        let d = self.duration as u64;
        let e = self.elapsed as u64;
        let n: u64 = match self.style {
            FadeStyle::In => d - e,
            FadeStyle::Out => e,
        };
        assert(255 * n <= 255 * d) by (nonlinear_arith)
            requires n <= d;
        let r = 255 * n / d;
        assert(r <= 255) by (nonlinear_arith)
            requires n <= d, 0 < d, r as int == (255 * n as int) / (d as int);
        r as u8
    }
}

/// A fade's opacity moves one way only, from opaque to transparent for `In`
/// and from transparent to opaque for `Out`, and reaches its far end exactly
/// on completion.
pub proof fn lemma_fade_alpha_monotonic(style: FadeStyle, e1: int, e2: int, d: int)
    requires
        0 < d,
        0 <= e1 <= e2 <= d,
    ensures
        style == FadeStyle::In ==> fade_alpha(style, e1, d) >= fade_alpha(style, e2, d),
        style == FadeStyle::Out ==> fade_alpha(style, e1, d) <= fade_alpha(style, e2, d),
        fade_alpha(FadeStyle::In, 0, d) == 255,
        fade_alpha(FadeStyle::In, d, d) == 0,
        fade_alpha(FadeStyle::Out, 0, d) == 0,
        fade_alpha(FadeStyle::Out, d, d) == 255,
{
    lemma_div_is_ordered(255 * (d - e2), 255 * (d - e1), d);
    lemma_div_is_ordered(255 * e1, 255 * e2, d);
    assert((255 * d) / d == 255) by (nonlinear_arith)
        requires 0 < d;
}

/// The fade after one tick.
pub open spec fn fade_next(f: Fade) -> Fade {
    Fade { elapsed: (f.elapsed + 1) as u32, ..f }
}

/// What a fade asks of the stack on a tick.
pub open spec fn fade_transition(f: Fade) -> Transition {
    if f.elapsed + 1 == f.duration {
        Transition::Pop
    } else {
        Transition::Stay
    }
}

/// A gameplay encounter on one level. Its simulation lies outside this core.
pub struct EncounterScene {
    pub level: String,
}

impl EncounterScene {
    pub fn new(level: &str) -> (r: EncounterScene)
        ensures
            r.level@ == level@,
    {
        EncounterScene { level: level.to_owned() }
    }
}

/// The title menu: confirming it asks for a practice encounter.
pub struct Menu {}

impl Menu {
    pub fn new() -> (r: Menu) {
        Menu {}
    }

    pub fn input(&mut self, world: &mut World, event: InputEvent, pressed: bool)
        ensures
            *final(world) == menu_input(*old(world), event, pressed),
    {
        if pressed && event == InputEvent::Confirm {
            world.next_scene = SceneState::Practice;
        }
    }
}

/// The context after the menu has seen an event.
pub open spec fn menu_input(w: World, event: InputEvent, pressed: bool) -> World {
    if pressed && event == InputEvent::Confirm {
        World { next_scene: SceneState::Practice, ..w }
    } else {
        w
    }
}

/// Scene that switches between the game modes. It stays at the bottom of the
/// stack and paints a black backdrop for the fades above it.
pub struct MainScene {}

/// What the main scene asks of the stack in the given modes: from the menu,
/// with practice requested, a fresh practice encounter under an entry fade;
/// in any other case nothing.
pub open spec fn main_transition(scene: SceneState, next_scene: SceneState) -> Transition {
    if scene == SceneState::Menu && next_scene == SceneState::Practice {
        Transition::PushAll(seq![practice_encounter(), entry_fade()])
    } else {
        Transition::Stay
    }
}

pub open spec fn practice_encounter() -> SceneView {
    SceneView::Encounter("wab1"@)
}

pub open spec fn entry_fade() -> SceneView {
    SceneView::Fade(Fade { duration: ENTRY_FADE_TICKS, elapsed: 0, style: FadeStyle::In })
}

impl MainScene {
    pub fn new() -> (r: MainScene) {
        MainScene {}
    }

    pub fn update(&mut self, world: &World) -> (r: SceneSwitch)
        ensures
            r@ == main_transition(world.scene, world.next_scene),
            r.wf(),
    {
        if world.scene == SceneState::Menu && world.next_scene == SceneState::Practice {
            let encounter = Scene::Encounter(EncounterScene::new("wab1"));
            let fade = Scene::Fade(Fade { duration: ENTRY_FADE_TICKS, elapsed: 0, style: FadeStyle::In });
            assert(encounter@ == practice_encounter());
            assert(fade@ == entry_fade());
            let mut v: Vec<Scene> = Vec::new();
            v.push(encounter);
            v.push(fade);
            assert(views(v@) =~= seq![practice_encounter(), entry_fade()]);
            let r = SceneSwitch::PushMultiple(v);
            r
        } else {
            SceneSwitch::NoChange
        }
    }

    pub fn name(&self) -> (r: &'static str)
        ensures
            r@ == "Main"@,
    {
        "Main"
    }
}

/// The scenes that can stand on the stack.
pub enum Scene {
    Main(MainScene),
    Encounter(EncounterScene),
    Menu(Menu),
    Fade(Fade),
}

/// What the stack sees of a scene.
pub enum SceneView {
    Main,
    Encounter(Seq<char>),
    Menu,
    Fade(Fade),
}

impl View for Scene {
    type V = SceneView;

    open spec fn view(&self) -> SceneView {
        match self {
            Scene::Main(_) => SceneView::Main,
            Scene::Encounter(e) => SceneView::Encounter(e.level@),
            Scene::Menu(_) => SceneView::Menu,
            Scene::Fade(f) => SceneView::Fade(*f),
        }
    }
}

impl SceneView {
    pub open spec fn wf(self) -> bool {
        match self {
            SceneView::Fade(f) => f.wf(),
            _ => true,
        }
    }
}

/// A scene after one tick.
pub open spec fn scene_next(s: SceneView) -> SceneView {
    match s {
        SceneView::Fade(f) => SceneView::Fade(fade_next(f)),
        _ => s,
    }
}

/// What a scene asks of the stack on a tick, in the given context.
pub open spec fn scene_transition(s: SceneView, w: World) -> Transition {
    match s {
        SceneView::Main => main_transition(w.scene, w.next_scene),
        SceneView::Fade(f) => fade_transition(f),
        _ => Transition::Stay,
    }
}

/// The context after a scene has seen an input event.
pub open spec fn scene_input(s: SceneView, w: World, event: InputEvent, pressed: bool) -> World {
    match s {
        SceneView::Menu => menu_input(w, event, pressed),
        _ => w,
    }
}

impl Scene {
    /// One tick of the scene.
    pub fn update(&mut self, world: &World) -> (r: SceneSwitch)
        requires
            old(self)@.wf(),
        ensures
            final(self)@ == scene_next(old(self)@),
            r@ == scene_transition(old(self)@, *world),
            r.wf(),
    {
        match self {
            Scene::Main(m) => m.update(world),
            Scene::Fade(f) => f.update(),
            _ => SceneSwitch::NoChange,
        }
    }

    /// Hands an input event to the scene.
    pub fn input(&mut self, world: &mut World, event: InputEvent, pressed: bool)
        ensures
            final(self)@ == old(self)@,
            *final(world) == scene_input(old(self)@, *old(world), event, pressed),
    {
        match self {
            Scene::Menu(m) => m.input(world, event, pressed),
            _ => {},
        }
    }

    /// Name of the scene's kind.
    pub fn name(&self) -> (r: &'static str)
        ensures
            r@ == scene_name(self@),
    {
        match self {
            Scene::Main(_) => "Main",
            Scene::Encounter(_) => "Encounter",
            Scene::Menu(_) => "Menu",
            Scene::Fade(_) => "Fade",
        }
    }
}

pub open spec fn scene_name(s: SceneView) -> Seq<char> {
    match s {
        SceneView::Main => "Main"@,
        SceneView::Encounter(_) => "Encounter"@,
        SceneView::Menu => "Menu"@,
        SceneView::Fade(_) => "Fade"@,
    }
}

/// Command a scene's update hands to the stack.
pub enum SceneSwitch {
    NoChange,
    Push(Scene),
    PushMultiple(Vec<Scene>),
    Pop,
    Replace(Scene),
}

/// What the stack sees of a command.
pub enum Transition {
    Stay,
    Push(SceneView),
    PushAll(Seq<SceneView>),
    Pop,
    Replace(SceneView),
}

/// The views of a run of scenes.
pub open spec fn views(v: Seq<Scene>) -> Seq<SceneView> {
    v.map_values(|s: Scene| s@)
}

impl View for SceneSwitch {
    type V = Transition;

    open spec fn view(&self) -> Transition {
        match self {
            SceneSwitch::NoChange => Transition::Stay,
            SceneSwitch::Push(s) => Transition::Push(s@),
            SceneSwitch::PushMultiple(v) => Transition::PushAll(views(v@)),
            SceneSwitch::Pop => Transition::Pop,
            SceneSwitch::Replace(s) => Transition::Replace(s@),
        }
    }
}

/// Every scene of the run is fit to stand on the stack.
pub open spec fn all_wf(v: Seq<SceneView>) -> bool {
    forall|i: int| 0 <= i < v.len() ==> (#[trigger] v[i]).wf()
}

impl Transition {
    /// Every scene the command brings is fit to stand on the stack.
    pub open spec fn wf(self) -> bool {
        match self {
            Transition::Push(s) => s.wf(),
            Transition::PushAll(v) => all_wf(v),
            Transition::Replace(s) => s.wf(),
            _ => true,
        }
    }
}

impl SceneSwitch {
    pub open spec fn wf(&self) -> bool {
        self@.wf()
    }
}

} // verus!

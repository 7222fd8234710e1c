use vstd::prelude::*;

use crate::input::InputEvent;
use crate::scene::{
    all_wf, fade_alpha, EncounterScene, FadeStyle, Menu, scene_input, scene_next, scene_transition, views, Fade, MainScene, Scene,
    SceneSwitch, SceneView, Transition,
};
use crate::world::World;

verus! {

/// Why the stack refused a change.
#[derive(Clone, Copy, Debug, PartialEq, Eq, Structural)]
pub enum StackError {
    /// Only the root scene is left, and it is never removed.
    LastScene,
}

/// The stack after a command: a push adds one scene on top, a multiple push
/// adds its scenes in order so that the last becomes the top, a pop removes
/// the top and a replace swaps it. Pop and replace leave a stack of one scene
/// as it is.
pub open spec fn apply(s: Seq<SceneView>, t: Transition) -> Seq<SceneView> {
    match t {
        Transition::Stay => s,
        Transition::Push(x) => s.push(x),
        Transition::PushAll(v) => s + v,
        Transition::Pop => if s.len() > 1 { s.drop_last() } else { s },
        Transition::Replace(x) => if s.len() > 1 { s.drop_last().push(x) } else { s },
    }
}

/// Whether the command would remove the root scene.
pub open spec fn refuses(s: Seq<SceneView>, t: Transition) -> bool {
    s.len() <= 1 && (t is Pop || t is Replace)
}

/// The stack after one tick: the top scene is updated, then its command is
/// applied.
pub open spec fn stack_step(s: Seq<SceneView>, w: World) -> Seq<SceneView> {
    apply(s.drop_last().push(scene_next(s.last())), scene_transition(s.last(), w))
}

/// The stack after `n` ticks in an unchanged context.
pub open spec fn stack_steps(s: Seq<SceneView>, w: World, n: nat) -> Seq<SceneView>
    decreases n,
{
    if n == 0 {
        s
    } else {
        stack_step(stack_steps(s, w, (n - 1) as nat), w)
    }
}

/// A stack fit to run: the root scene at the bottom and every fade still
/// fading.
pub open spec fn stack_wf(s: Seq<SceneView>) -> bool {
    &&& s.len() >= 1
    &&& s[0] == SceneView::Main
    &&& forall|i: int| 0 <= i < s.len() ==> (#[trigger] s[i]).wf()
}

/// What is painted for one scene.
#[derive(Clone, Copy, Debug, PartialEq, Eq, Structural)]
pub enum Layer {
    /// A full-screen black fill.
    Backdrop,
    Encounter,
    Menu,
    /// A black overlay of the given opacity, 0 to 255.
    Overlay(u8),
}

pub open spec fn layer_of(s: SceneView) -> Layer {
    match s {
        SceneView::Main => Layer::Backdrop,
        SceneView::Encounter(_) => Layer::Encounter,
        SceneView::Menu => Layer::Menu,
        SceneView::Fade(f) => Layer::Overlay(fade_alpha(f.style, f.elapsed as int, f.duration as int) as u8),
    }
}

/// Ordered scenes, the last on top, and the shared context they are lent.
pub struct SceneStack {
    pub scenes: Vec<Scene>,
    pub world: World,
}

impl View for SceneStack {
    type V = Seq<SceneView>;

    open spec fn view(&self) -> Seq<SceneView> {
        views(self.scenes@)
    }
}

impl SceneStack {
    pub open spec fn wf(&self) -> bool {
        stack_wf(self@) && self.world.wf()
    }

    /// A stack that holds the root scene alone.
    pub fn new(world: World) -> (r: SceneStack)
        requires
            world.wf(),
        ensures
            r.wf(),
            r@ == seq![SceneView::Main],
            r.world == world,
    {
        let mut scenes: Vec<Scene> = Vec::new();
        scenes.push(Scene::Main(MainScene::new()));
        let r = SceneStack { scenes, world };
        assert(r@ =~= seq![SceneView::Main]);
        r
    }

    /// Number of scenes on the stack.
    pub fn len(&self) -> (r: usize)
        ensures
            r == self@.len(),
    {
        self.scenes.len()
    }

    /// The scene at `i`, counted from the bottom.
    pub fn scene(&self, i: usize) -> (r: &Scene)
        requires
            i < self@.len(),
        ensures
            r@ == self@[i as int],
    {
        &self.scenes[i]
    }

    /// Puts a scene on top. It is first updated on the next tick.
    pub fn push(&mut self, scene: Scene)
        requires
            old(self).wf(),
            scene@.wf(),
        ensures
            final(self).wf(),
            final(self)@ == old(self)@.push(scene@),
            final(self).world == old(self).world,
    {
        self.scenes.push(scene);
        assert(self@ =~= old(self)@.push(scene@));
    }

    /// Removes the top scene, unless it is the root scene alone.
    pub fn pop(&mut self) -> (r: Result<(), StackError>)
        requires
            old(self).wf(),
        ensures
            final(self).wf(),
            final(self)@ == apply(old(self)@, Transition::Pop),
            r is Err <==> old(self)@.len() == 1,
            final(self).world == old(self).world,
    {
        if self.scenes.len() <= 1 {
            Err(StackError::LastScene)
        } else {
            let _ = self.scenes.pop();
            assert(self@ =~= old(self)@.drop_last());
            Ok(())
        }
    }

    /// Applies one command to the stack.
    pub fn apply_switch(&mut self, switch: SceneSwitch) -> (r: Result<(), StackError>)
        requires
            old(self).wf(),
            switch.wf(),
        ensures
            final(self).wf(),
            final(self)@ == apply(old(self)@, switch@),
            r is Err <==> refuses(old(self)@, switch@),
            final(self).world == old(self).world,
    {
        let ghost s0 = self@;
        match switch {
            SceneSwitch::NoChange => Ok(()),
            SceneSwitch::Push(s) => {
                self.push(s);
                Ok(())
            },
            SceneSwitch::PushMultiple(v) => {
                let ghost added = views(v@);
                assert(switch@ == Transition::PushAll(added));
                assert(switch.wf());
                assert(Transition::PushAll(added).wf());
                let mut v = v;
                self.scenes.append(&mut v);
                assert(self@ =~= s0 + added);
                assert forall|i: int| 0 <= i < self@.len() implies (#[trigger] self@[i]).wf() by {
                    if i >= s0.len() {
                        let k = i - s0.len();
                        assert(0 <= k < added.len());
                        assert(self@[i] == added[k]);
                        assert(all_wf(added));
                        assert(added[k].wf());
                    } else {
                        assert(self@[i] == s0[i]);
                    }
                }
                Ok(())
            },
            SceneSwitch::Pop => self.pop(),
            SceneSwitch::Replace(s) => {
                if self.scenes.len() <= 1 {
                    Err(StackError::LastScene)
                } else {
                    let _ = self.scenes.pop();
                    self.scenes.push(s);
                    assert(self@ =~= s0.drop_last().push(s@));
                    assert(self@[0] == s0[0]);
                    assert forall|i: int| 0 <= i < self@.len() implies (#[trigger] self@[i]).wf() by {
                        if i < s0.len() - 1 {
                            assert(self@[i] == s0[i]);
                        }
                    }
                    Ok(())
                }
            },
        }
    }

    /// One tick: updates the top scene once and applies what it asks.
    pub fn update(&mut self)
        requires
            old(self).wf(),
        ensures
            final(self).wf(),
            final(self)@ == stack_step(old(self)@, old(self).world),
            final(self).world == old(self).world,
    {
        let ghost s0 = self@;
        let ghost w = self.world;
        let mut top = self.scenes.pop().unwrap();
        assert(self@ =~= s0.drop_last());
        assert(s0.last() == s0[s0.len() - 1]);
        assert(s0.last().wf());
        let switch = top.update(&self.world);
        proof {
            if s0.len() == 1 {
                assert(s0.last() == SceneView::Main);
            }
            if !(switch@ is Pop) {
                assert(top@.wf());
            }
        }
        match switch {
            SceneSwitch::Pop => {
                assert(s0.len() > 1);
                assert(self@ =~= apply(s0.drop_last().push(top@), Transition::Pop));
            },
            SceneSwitch::Replace(s) => {
                if self.scenes.len() == 0 {
                    self.scenes.push(top);
                    assert(self@ =~= s0);
                } else {
                    self.scenes.push(s);
                    assert(self@ =~= apply(s0.drop_last().push(top@), switch@));
                }
            },
            other => {
                self.scenes.push(top);
                assert(self@ =~= s0.drop_last().push(scene_next(s0.last())));
                proof {
                    let s1 = self@;
                    assert forall|i: int| 0 <= i < s1.len() implies (#[trigger] s1[i]).wf() by {
                        if i < s0.len() - 1 {
                            assert(s1[i] == s0[i]);
                        }
                    }
                }
                let _ = self.apply_switch(other);
            },
        }
    }

    /// Hands an input event to the top scene alone.
    pub fn input(&mut self, event: InputEvent, pressed: bool)
        requires
            old(self).wf(),
        ensures
            final(self).wf(),
            final(self)@ == old(self)@,
            final(self).world == scene_input(old(self)@.last(), old(self).world, event, pressed),
    {
        let ghost s0 = self@;
        let mut top = self.scenes.pop().unwrap();
        top.input(&mut self.world, event, pressed);
        self.scenes.push(top);
        assert(self@ =~= s0);
    }

    /// What to paint this frame, from the bottom of the stack up: every scene
    /// is drawn, each over the ones beneath it.
    pub fn draw(&self) -> (r: Vec<Layer>)
        requires
            self.wf(),
        ensures
            r@ == self@.map_values(|s: SceneView| layer_of(s)),
    {
        let mut r: Vec<Layer> = Vec::new();
        let mut i: usize = 0;
        while i < self.scenes.len()
            invariant
                self.wf(),
                i <= self@.len(),
                r@ =~= self@.take(i as int).map_values(|s: SceneView| layer_of(s)),
            decreases self@.len() - i,
        {
            assert(self@[i as int].wf());
            let layer = match &self.scenes[i] {
                Scene::Main(_) => Layer::Backdrop,
                Scene::Encounter(_) => Layer::Encounter,
                Scene::Menu(_) => Layer::Menu,
                Scene::Fade(f) => Layer::Overlay(f.alpha()),
            };
            r.push(layer);
            i = i + 1;
            assert(self@.take(i as int) =~= self@.take(i - 1).push(self@[i - 1]));
        }
        assert(self@.take(i as int) =~= self@);
        r
    }
}

/// Length in ticks of each fade of the opening sequence.
pub const OPENING_FADE_TICKS: u32 = 274;

/// The opening stack, bottom to top: the root scene, an encounter on
/// `level`, a fade in, a fade out, the menu, and a fade in over the menu.
pub open spec fn opening_view(level: Seq<char>) -> Seq<SceneView> {
    seq![
        SceneView::Main,
        SceneView::Encounter(level),
        SceneView::Fade(Fade { duration: OPENING_FADE_TICKS, elapsed: 0, style: FadeStyle::In }),
        SceneView::Fade(Fade { duration: OPENING_FADE_TICKS, elapsed: 0, style: FadeStyle::Out }),
        SceneView::Menu,
        SceneView::Fade(Fade { duration: OPENING_FADE_TICKS, elapsed: 0, style: FadeStyle::In }),
    ]
}

/// Builds the opening stack over `world`.
pub fn opening_stack(level: &str, world: World) -> (r: SceneStack)
    requires
        world.wf(),
    ensures
        r.wf(),
        r@ == opening_view(level@),
        r.world == world,
{
    let mut stack = SceneStack::new(world);
    stack.push(Scene::Encounter(EncounterScene::new(level)));
    stack.push(Scene::Fade(Fade { duration: OPENING_FADE_TICKS, elapsed: 0, style: FadeStyle::In }));
    stack.push(Scene::Fade(Fade { duration: OPENING_FADE_TICKS, elapsed: 0, style: FadeStyle::Out }));
    stack.push(Scene::Menu(Menu::new()));
    stack.push(Scene::Fade(Fade { duration: OPENING_FADE_TICKS, elapsed: 0, style: FadeStyle::In }));
    assert(stack@ =~= opening_view(level@));
    stack
}

/// One push (`Some`) or pop (`None`) on the stack.
pub open spec fn op_step(s: Seq<SceneView>, op: Option<SceneView>) -> Seq<SceneView> {
    match op {
        Some(x) => s.push(x),
        None => apply(s, Transition::Pop),
    }
}

/// The stack after a run of pushes and pops.
pub open spec fn run_ops(s: Seq<SceneView>, ops: Seq<Option<SceneView>>) -> Seq<SceneView>
    decreases ops.len(),
{
    if ops.len() == 0 {
        s
    } else {
        run_ops(op_step(s, ops[0]), ops.drop_first())
    }
}

pub open spec fn count_pushes(ops: Seq<Option<SceneView>>) -> nat
    decreases ops.len(),
{
    if ops.len() == 0 {
        0
    } else {
        (if ops[0] is Some { 1nat } else { 0nat }) + count_pushes(ops.drop_first())
    }
}

pub open spec fn count_pops(ops: Seq<Option<SceneView>>) -> nat
    decreases ops.len(),
{
    if ops.len() == 0 {
        0
    } else {
        (if ops[0] is None { 1nat } else { 0nat }) + count_pops(ops.drop_first())
    }
}

/// Every pop of the run, starting from `n` scenes, meets at least two.
pub open spec fn pops_fit(n: int, ops: Seq<Option<SceneView>>) -> bool
    decreases ops.len(),
{
    if ops.len() == 0 {
        true
    } else {
        match ops[0] {
            Some(_) => pops_fit(n + 1, ops.drop_first()),
            None => n > 1 && pops_fit(n - 1, ops.drop_first()),
        }
    }
}

/// Pushes and pops never empty the stack, and where no pop meets the root
/// scene alone, the length after the run is the length before it, plus the
/// pushes, minus the pops.
pub proof fn lemma_push_pop_length(s: Seq<SceneView>, ops: Seq<Option<SceneView>>)
    requires
        s.len() >= 1,
    ensures
        run_ops(s, ops).len() >= 1,
        pops_fit(s.len() as int, ops) ==> run_ops(s, ops).len() == s.len() + count_pushes(ops) - count_pops(ops),
    decreases ops.len(),
{
    if ops.len() > 0 {
        lemma_push_pop_length(op_step(s, ops[0]), ops.drop_first());
    }
}

/// When the top scene asks for a multiple push of `a` then `b`, after that
/// tick `b` is on top and `a` directly beneath it.
pub proof fn lemma_push_multiple_order(s: Seq<SceneView>, w: World, a: SceneView, b: SceneView)
    requires
        s.len() >= 1,
        scene_transition(s.last(), w) == Transition::PushAll(seq![a, b]),
    ensures
        stack_step(s, w).len() == s.len() + 2,
        stack_step(s, w).last() == b,
        stack_step(s, w)[s.len() as int] == a,
{
}

/// The fade `f` on top of `r` after `k` more ticks, while it is still fading.
proof fn lemma_fade_steps(r: Seq<SceneView>, f: Fade, w: World, k: nat)
    requires
        r.len() >= 1,
        f.wf(),
        k < f.duration - f.elapsed,
    ensures
        stack_steps(r.push(SceneView::Fade(f)), w, k)
            == r.push(SceneView::Fade(Fade { elapsed: (f.elapsed + k) as u32, ..f })),
    decreases k,
{
    if k > 0 {
        let k1 = (k - 1) as nat;
        lemma_fade_steps(r, f, w, k1);
        let g = Fade { elapsed: (f.elapsed + k1) as u32, ..f };
        let t = r.push(SceneView::Fade(g));
        assert(t.drop_last() =~= r);
        assert(stack_step(t, w) =~= r.push(SceneView::Fade(Fade { elapsed: (f.elapsed + k) as u32, ..f })));
    }
}

/// A fresh fade of `D` ticks on top of a stack stays there for `D - 1` ticks
/// and is removed by exactly the `D`-th, which leaves the stack beneath it as
/// it was.
pub proof fn lemma_fade_lasts_its_duration(r: Seq<SceneView>, f: Fade, w: World)
    requires
        r.len() >= 1,
        f.wf(),
        f.elapsed == 0,
    ensures
        forall|k: nat| k < f.duration ==> #[trigger] stack_steps(r.push(SceneView::Fade(f)), w, k)
            == r.push(SceneView::Fade(Fade { elapsed: k as u32, ..f })),
        stack_steps(r.push(SceneView::Fade(f)), w, f.duration as nat) == r,
{
    let s = r.push(SceneView::Fade(f));
    assert forall|k: nat| k < f.duration implies #[trigger] stack_steps(s, w, k)
        == r.push(SceneView::Fade(Fade { elapsed: k as u32, ..f })) by {
        lemma_fade_steps(r, f, w, k);
    }
    let d1 = (f.duration - 1) as nat;
    lemma_fade_steps(r, f, w, d1);
    let t = r.push(SceneView::Fade(Fade { elapsed: d1 as u32, ..f }));
    assert(t.drop_last() =~= r);
    assert(stack_step(t, w) =~= r);
}

/// From the opening stack, the fade over the menu runs its full length and
/// then leaves the menu on top, above the fade out, the fade in, the
/// encounter and the root scene.
pub proof fn lemma_opening_menu_after_entry_fade(level: Seq<char>, w: World)
    ensures
        stack_steps(opening_view(level), w, OPENING_FADE_TICKS as nat) == opening_view(level).drop_last(),
        stack_steps(opening_view(level), w, OPENING_FADE_TICKS as nat).last() == SceneView::Menu,
{
    let s = opening_view(level);
    let f = Fade { duration: OPENING_FADE_TICKS, elapsed: 0, style: FadeStyle::In };
    assert(s.drop_last().push(SceneView::Fade(f)) =~= s);
    lemma_fade_lasts_its_duration(s.drop_last(), f, w);
}

} // verus!

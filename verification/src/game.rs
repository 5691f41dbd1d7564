//! The game's decisions that do not depend on time or positions: the
//! editor's panels, camera selection, tracer bullets, bullet clean-up.
use vstd::prelude::*;
use crate::handles::RenderModelHandle;
use crate::input::Input;

verus! {

// Key codes of the keys the game reads (winit's `VirtualKeyCode` order).
pub const KEY_1: usize = 0usize;
pub const KEY_2: usize = 1usize;
pub const KEY_A: usize = 10usize;
pub const KEY_D: usize = 13usize;
pub const KEY_S: usize = 28usize;
pub const KEY_W: usize = 32usize;
pub const KEY_ESCAPE: usize = 36usize;
pub const KEY_F1: usize = 37usize;
pub const KEY_F5: usize = 41usize;
pub const KEY_SPACE: usize = 76usize;

/// Which editor windows are open.
#[derive(Clone, Copy, PartialEq, Eq, Structural, Debug)]
pub struct Editor {
    pub camera_controls_show: bool,
    pub light_controls_show: bool,
    pub engine_utils_show: bool,
}

impl Editor {
    /// An editor with every window closed.
    pub fn new() -> (r: Self)
        ensures
            !r.camera_controls_show,
            !r.light_controls_show,
            !r.engine_utils_show,
    {
        Editor { camera_controls_show: false, light_controls_show: false, engine_utils_show: false }
    }

    /// The top bar's buttons: each click opens its window if closed and
    /// closes it if open.
    pub fn top_bar(&mut self, camera_clicked: bool, lights_clicked: bool, utils_clicked: bool)
        ensures
            final(self).camera_controls_show == (old(self).camera_controls_show != camera_clicked),
            final(self).light_controls_show == (old(self).light_controls_show != lights_clicked),
            final(self).engine_utils_show == (old(self).engine_utils_show != utils_clicked),
    {
        if camera_clicked {
            self.camera_controls_show = !self.camera_controls_show;
        }
        if lights_clicked {
            self.light_controls_show = !self.light_controls_show;
        }
        if utils_clicked {
            self.engine_utils_show = !self.engine_utils_show;
        }
    }
}

/// What the editor's keys ask for this frame.
#[derive(Clone, Copy, PartialEq, Eq, Structural, Debug)]
pub struct EditorActions {
    /// F5 reloads the shaders.
    pub reload_shaders: bool,
    /// Key 1 selects the first camera and key 2 the second, when there is
    /// one; key 2 wins when both are pressed.
    pub camera: Option<usize>,
}

/// The editor's response to the keys pressed this frame, with
/// `camera_count` cameras in the scene.
pub fn editor_actions(input: &Input, camera_count: usize) -> (r: EditorActions)
    ensures
        r.reload_shaders == crate::input::just_pressed(input.now(), input.prev(), KEY_F5 as int),
        r.camera == (if crate::input::just_pressed(input.now(), input.prev(), KEY_2 as int) && camera_count > 1 {
            Some(1usize)
        } else if crate::input::just_pressed(input.now(), input.prev(), KEY_1 as int) && camera_count > 0 {
            Some(0usize)
        } else {
            None::<usize>
        }),
{
    let reload_shaders = input.is_just_pressed(KEY_F5);
    let mut camera: Option<usize> = None;
    if input.is_just_pressed(KEY_1) {
        if camera_count > 0 {
            camera = Some(0);
        }
    }
    if input.is_just_pressed(KEY_2) {
        if camera_count > 1 {
            camera = Some(1);
        }
    }
    EditorActions { reload_shaders, camera }
}

/// Whether the debug UI is drawn after this frame's keys: F1 flips it.
pub fn toggle_debug_ui(input: &Input, draw_debug_ui: bool) -> (r: bool)
    ensures
        r == (draw_debug_ui != crate::input::just_pressed(input.now(), input.prev(), KEY_F1 as int)),
{
    if input.is_just_pressed(KEY_F1) {
        !draw_debug_ui
    } else {
        draw_debug_ui
    }
}

/// How often the turret fires a tracer bullet, and how many bullets it has
/// fired since the last one.
#[derive(Clone, Copy, PartialEq, Eq, Structural, Debug)]
pub struct TracerCounter {
    pub tracer_bullet_rate: i32,
    pub bullets_since_last_tracer: i32,
}

impl TracerCounter {
    /// The turret's starting counter: a tracer after every three bullets.
    pub fn new() -> (r: Self)
        ensures
            r.tracer_bullet_rate == 3,
            r.bullets_since_last_tracer == 0,
    {
        TracerCounter { tracer_bullet_rate: 3, bullets_since_last_tracer: 0 }
    }

    /// Fires one bullet: it is a tracer when at least the rate's number of
    /// bullets were fired since the last tracer, which restarts the count.
    /// The bullet then counts as fired.
    pub fn fire(&mut self) -> (tracer: bool)
        requires
            old(self).bullets_since_last_tracer < i32::MAX,
        ensures
            tracer == (old(self).bullets_since_last_tracer >= old(self).tracer_bullet_rate),
            final(self).bullets_since_last_tracer == (if tracer { 1 } else { old(self).bullets_since_last_tracer + 1 }),
            final(self).tracer_bullet_rate == old(self).tracer_bullet_rate,
    {
        let tracer = if self.bullets_since_last_tracer >= self.tracer_bullet_rate {
            self.bullets_since_last_tracer = 0;
            true
        } else {
            false
        };
        self.bullets_since_last_tracer = self.bullets_since_last_tracer + 1;
        tracer
    }
}

/// The counter after one shot, and whether the shot was a tracer.
pub open spec fn fire_spec(c: TracerCounter) -> (bool, TracerCounter) {
    let tracer = c.bullets_since_last_tracer >= c.tracer_bullet_rate;
    (
        tracer,
        TracerCounter {
            bullets_since_last_tracer: if tracer { 1 } else { (c.bullets_since_last_tracer + 1) as i32 },
            ..c
        },
    )
}

/// The counter after `k` shots.
pub open spec fn after_shots(c: TracerCounter, k: nat) -> TracerCounter
    decreases k,
{
    if k == 0 {
        c
    } else {
        fire_spec(after_shots(c, (k - 1) as nat)).1
    }
}

/// Whether shot number `k` (from 0) is a tracer.
pub open spec fn shot_is_tracer(c: TracerCounter, k: nat) -> bool {
    fire_spec(after_shots(c, k)).0
}

/// Law: right after a tracer (the count is one), with a rate of at least
/// one, the next tracer is exactly the rate's number of shots later.
pub proof fn lemma_tracer_period(c: TracerCounter, k: nat)
    requires
        c.tracer_bullet_rate >= 1,
        c.bullets_since_last_tracer == 1,
        k <= c.tracer_bullet_rate - 1,
    ensures
        after_shots(c, k).bullets_since_last_tracer == 1 + k,
        after_shots(c, k).tracer_bullet_rate == c.tracer_bullet_rate,
        shot_is_tracer(c, k) == (k == c.tracer_bullet_rate - 1),
    decreases k,
{
    if k > 0 {
        lemma_tracer_period(c, (k - 1) as nat);
    }
}

/// The render models of bullets that are gone: those of `old` that `kept`
/// does not hold, in order.
pub open spec fn removed_handles(old: Seq<RenderModelHandle>, kept: Seq<RenderModelHandle>) -> Seq<RenderModelHandle> {
    old.filter(not_kept(kept))
}

/// Whether a handle is not among `kept`.
pub open spec fn not_kept(kept: Seq<RenderModelHandle>) -> spec_fn(RenderModelHandle) -> bool {
    |h: RenderModelHandle| !kept.contains(h)
}

fn contains_handle(v: &Vec<RenderModelHandle>, h: RenderModelHandle) -> (r: bool)
    ensures
        r == v@.contains(h),
{
    let mut i: usize = 0;
    while i < v.len()
        invariant
            i <= v.len(),
            forall|j: int| 0 <= j < i ==> v@[j] != h,
        decreases v.len() - i,
    {
        if v[i] == h {
            return true;
        }
        i = i + 1;
    }
    false
}

/// The render models to remove after expired bullets were dropped: the
/// handles of the bullets before that are not handles of the bullets kept.
pub fn handles_to_remove(old: &Vec<RenderModelHandle>, kept: &Vec<RenderModelHandle>) -> (r: Vec<RenderModelHandle>)
    ensures
        r@ == removed_handles(old@, kept@),
{
    let mut out: Vec<RenderModelHandle> = Vec::new();
    let mut i: usize = 0;
    while i < old.len()
        invariant
            i <= old.len(),
            out@ == removed_handles(old@.take(i as int), kept@),
        decreases old.len() - i,
    {
        let h = old[i];
        proof {
            assert(old@.take(i as int + 1) =~= old@.take(i as int).push(h));
            old@.take(i as int).lemma_filter_push(h, not_kept(kept@));
        }
        if !contains_handle(kept, h) {
            out.push(h);
        }
        i = i + 1;
    }
    proof {
        assert(old@.take(old.len() as int) =~= old@);
    }
    out
}

/// Law: no handle that is removed belongs to a bullet that is kept, and
/// every handle that was there and is not kept is removed.
pub proof fn lemma_removed_handles(old: Seq<RenderModelHandle>, kept: Seq<RenderModelHandle>, h: RenderModelHandle)
    ensures
        removed_handles(old, kept).contains(h) <==> (old.contains(h) && !kept.contains(h)),
{
    let f = not_kept(kept);
    if old.contains(h) && !kept.contains(h) {
        let i = choose|i: int| 0 <= i < old.len() && old[i] == h;
        assert(f(old[i]));
        old.lemma_filter_contains(f, i);
    }
    if old.filter(f).contains(h) {
        old.lemma_filter_contains_rev(f, h);
        let i = choose|i: int| 0 <= i < old.filter(f).len() && old.filter(f)[i] == h;
        old.lemma_filter_pred(f, i);
    }
}

} // verus!

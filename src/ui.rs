//! The immediate-mode widget context: which widget is hot and which active.
use vstd::prelude::*;
use crate::input::{BUTTON_A, Button, Input, SFX, Speaker};

verus! {

/// Identifies a widget within the current dialog; zero stands for none.
pub type UIId = u8;

#[derive(Clone, Copy, Debug, Default, PartialEq, Eq, Structural)]
pub struct UIContext {
    /// The widget that navigation points at.
    pub hot: UIId,
    /// The widget the primary button was pressed on and is still held over.
    pub active: UIId,
    /// The widget that becomes hot at the start of the next frame.
    pub next_hot: UIId,
}

/// How a widget is drawn.
#[derive(Clone, Copy, Debug, PartialEq, Eq, Structural)]
pub enum Look {
    Pressed,
    Hot,
    Idle,
}

pub open spec fn primary() -> Button {
    Button(BUTTON_A)
}

/// The context after widget `id` has been handled, whether it was activated,
/// and whether it asked for a sound.
pub open spec fn widget_step(ctx: UIContext, input: Input, id: UIId) -> (UIContext, bool, bool) {
    if ctx.active == id {
        let released = input.released_spec(primary());
        (
            UIContext { active: if released { 0 } else { id }, next_hot: id, ..ctx },
            released && ctx.hot == id,
            false,
        )
    } else if ctx.hot == id && input.pressed_spec(primary()) {
        (UIContext { active: id, ..ctx }, false, true)
    } else {
        (ctx, false, false)
    }
}

pub open spec fn look_spec(ctx: UIContext, input: Input, id: UIId) -> Look {
    if ctx.active == id && input.gamepad.contains_spec(primary()) {
        Look::Pressed
    } else if ctx.hot == id {
        Look::Hot
    } else {
        Look::Idle
    }
}

impl UIContext {
    pub fn new() -> (r: UIContext)
        ensures
            r == (UIContext { hot: 0, active: 0, next_hot: 0 }),
    {
        UIContext { hot: 0, active: 0, next_hot: 0 }
    }

    /// Starts a frame: the widget asked for last frame becomes hot.
    pub fn frame_init(&mut self)
        ensures
            *final(self) == (UIContext { hot: old(self).next_hot, ..*old(self) }),
    {
        self.hot = self.next_hot;
    }

    pub fn set_next_hot(&mut self, id: UIId)
        ensures
            *final(self) == (UIContext { next_hot: id, ..*old(self) }),
    {
        self.next_hot = id;
    }
}

/// The look of widget `id` this frame, before it is handled.
pub fn widget_look(ctx: &UIContext, input: Input, id: UIId) -> (r: Look)
    ensures
        r == look_spec(*ctx, input, id),
{
    if ctx.active == id && input.gamepad.contains(Button(BUTTON_A)) {
        Look::Pressed
    } else if ctx.hot == id {
        Look::Hot
    } else {
        Look::Idle
    }
}

/// Handles widget `id`: returns whether it was activated this frame.
pub fn do_widget(context: &mut UIContext, input: Input, speaker: &mut Speaker, id: UIId) -> (r: bool)
    requires
        id != 0,
    ensures
        *final(context) == widget_step(*old(context), input, id).0,
        r == widget_step(*old(context), input, id).1,
        final(speaker)@ == if widget_step(*old(context), input, id).2 {
            old(speaker)@.push(SFX::ButtonPress)
        } else {
            old(speaker)@
        },
{
    let a = Button(BUTTON_A);
    if context.active == id {
        let released = input.released_this_frame(a);
        let activated = released && context.hot == id;
        if released {
            context.active = 0;
        }
        context.set_next_hot(id);
        activated
    } else if context.hot == id && input.pressed_this_frame(a) {
        context.active = id;
        speaker.request_sfx(SFX::ButtonPress);
        false
    } else {
        false
    }
}

/// Wraps `x` into `1..=m`: zero maps to `m`, and `x` in `1..=m` to itself.
pub open spec fn dice_mod_spec(x: int, m: int) -> int {
    if x == 0 { m } else { (x - 1) % m + 1 }
}

/// Wraps a widget id into `1..=m`, so that moving past either end of a list
/// of `m` widgets comes round to the other end.
pub fn dice_mod(x: u8, m: u8) -> (r: u8)
    requires
        m > 0,
    ensures
        r == dice_mod_spec(x as int, m as int),
        1 <= r <= m,
{
    if x == 0 {
        m
    } else {
        (x - 1) % m + 1
    }
}

/// Widget `id` is activated this frame: it is both hot and active, and the
/// primary button has just been released.
pub open spec fn activates(ctx: UIContext, input: Input, id: UIId) -> bool {
    ctx.active == id && ctx.hot == id && input.released_spec(primary())
}

/// The context after the widgets `ids` have been handled, in order.
pub open spec fn run_ids(ctx: UIContext, input: Input, ids: Seq<UIId>) -> UIContext
    decreases ids.len(),
{
    if ids.len() == 0 {
        ctx
    } else {
        widget_step(run_ids(ctx, input, ids.drop_last()), input, ids.last()).0
    }
}

/// The last of the widgets `ids` that was activated while they were handled.
pub open spec fn activated(ctx: UIContext, input: Input, ids: Seq<UIId>) -> Option<UIId>
    decreases ids.len(),
{
    if ids.len() == 0 {
        None
    } else if widget_step(run_ids(ctx, input, ids.drop_last()), input, ids.last()).1 {
        Some(ids.last())
    } else {
        activated(ctx, input, ids.drop_last())
    }
}

/// The sounds that handling the widgets `ids` asks for.
pub open spec fn sounds(ctx: UIContext, input: Input, ids: Seq<UIId>) -> Seq<SFX>
    decreases ids.len(),
{
    if ids.len() == 0 {
        Seq::empty()
    } else if widget_step(run_ids(ctx, input, ids.drop_last()), input, ids.last()).2 {
        sounds(ctx, input, ids.drop_last()).push(SFX::ButtonPress)
    } else {
        sounds(ctx, input, ids.drop_last())
    }
}

/// Handling widgets never changes which one is hot.
pub proof fn lemma_run_keeps_hot(ctx: UIContext, input: Input, ids: Seq<UIId>)
    ensures
        run_ids(ctx, input, ids).hot == ctx.hot,
    decreases ids.len(),
{
    if ids.len() > 0 {
        lemma_run_keeps_hot(ctx, input, ids.drop_last());
    }
}

proof fn lemma_released_run(ctx: UIContext, input: Input, ids: Seq<UIId>)
    requires
        input.released_spec(primary()),
        forall|i: int| 0 <= i < ids.len() ==> #[trigger] ids[i] != 0,
    ensures
        run_ids(ctx, input, ids).active == if ids.contains(ctx.active) { 0 } else { ctx.active },
        run_ids(ctx, input, ids).hot == ctx.hot,
    decreases ids.len(),
{
    if ids.len() > 0 {
        let prefix = ids.drop_last();
        assert forall|i: int| 0 <= i < prefix.len() implies #[trigger] prefix[i] != 0 by {
            assert(prefix[i] == ids[i]);
        }
        lemma_released_run(ctx, input, prefix);
        assert(ids[ids.len() - 1] != 0);
        if prefix.contains(ctx.active) {
            let j = choose|j: int| 0 <= j < prefix.len() && prefix[j] == ctx.active;
            assert(ids[j] == ctx.active);
        }
        if ids.contains(ctx.active) && !prefix.contains(ctx.active) {
            let j = choose|j: int| 0 <= j < ids.len() && ids[j] == ctx.active;
            if j < ids.len() - 1 {
                assert(prefix[j] == ctx.active);
            }
        }
    }
}

/// Within one frame, widget `id` of a dialog whose ids are distinct and not
/// zero is activated exactly when it `activates` at the start of the frame;
/// so at most one widget is activated per frame.
pub proof fn lemma_activated(ctx: UIContext, input: Input, ids: Seq<UIId>)
    requires
        forall|i: int| 0 <= i < ids.len() ==> #[trigger] ids[i] != 0,
        ids.no_duplicates(),
    ensures
        activated(ctx, input, ids) == if ids.contains(ctx.active) && activates(ctx, input, ctx.active) {
            Some(ctx.active)
        } else {
            None::<UIId>
        },
    decreases ids.len(),
{
    if ids.len() > 0 {
        let prefix = ids.drop_last();
        assert forall|i: int| 0 <= i < prefix.len() implies #[trigger] prefix[i] != 0 by {
            assert(prefix[i] == ids[i]);
        }
        assert(prefix.no_duplicates()) by {
            assert forall|i: int, j: int| 0 <= i < prefix.len() && 0 <= j < prefix.len() && i != j implies prefix[i]
                != prefix[j] by {
                assert(prefix[i] == ids[i] && prefix[j] == ids[j]);
            }
        }
        lemma_activated(ctx, input, prefix);
        let last = ids.last();
        assert(ids[ids.len() - 1] != 0);
        if input.released_spec(primary()) {
            lemma_released_run(ctx, input, prefix);
        }
        if prefix.contains(ctx.active) {
            let j = choose|j: int| 0 <= j < prefix.len() && prefix[j] == ctx.active;
            assert(ids[j] == ctx.active);
            assert(ids[j] != ids[ids.len() - 1]);
        }
        if ids.contains(ctx.active) && !prefix.contains(ctx.active) {
            let j = choose|j: int| 0 <= j < ids.len() && ids[j] == ctx.active;
            if j < ids.len() - 1 {
                assert(prefix[j] == ctx.active);
            }
        }
        if !input.released_spec(primary()) {
            lemma_no_activation(ctx, input, ids);
        }
    }
}

proof fn lemma_no_activation(ctx: UIContext, input: Input, ids: Seq<UIId>)
    requires
        !input.released_spec(primary()),
    ensures
        activated(ctx, input, ids) is None,
    decreases ids.len(),
{
    if ids.len() > 0 {
        lemma_no_activation(ctx, input, ids.drop_last());
    }
}

/// The sounds of a run of widgets, appended to `base`, one widget at a time.
pub proof fn lemma_sounds_extend(base: Seq<SFX>, ctx: UIContext, input: Input, ids: Seq<UIId>)
    ensures
        ids.len() == 0 ==> base + sounds(ctx, input, ids) == base,
        ids.len() > 0 ==> base + sounds(ctx, input, ids) == if widget_step(
            run_ids(ctx, input, ids.drop_last()),
            input,
            ids.last(),
        ).2 {
            (base + sounds(ctx, input, ids.drop_last())).push(SFX::ButtonPress)
        } else {
            base + sounds(ctx, input, ids.drop_last())
        },
{
    if ids.len() == 0 {
        assert(base + sounds(ctx, input, ids) =~= base);
    } else {
        let s = sounds(ctx, input, ids.drop_last());
        assert((base + s).push(SFX::ButtonPress) =~= base + s.push(SFX::ButtonPress));
    }
}

} // verus!

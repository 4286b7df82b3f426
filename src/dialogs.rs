//! The modal dialogs: each is the one producer of the value its choice
//! waits for.
use vstd::prelude::*;
use crate::cards::{Card, DECK_SIZE, SUIT_COUNT, Suit, nth_next_card};
use crate::choice::{
    ChoiceState, Choice, Chosen, Layer, SessionView, cancel_edges, confirm_edges, fresh_session, pick_card, toggle_edge,
};
use crate::graph::{CanPlayGraph, CardFlags, Change, change_views, latest_edges};
use crate::game::{GameState, SCREEN_WIDTH, SPRITE_SIZE, pressed};
use crate::input::{BUTTON_DOWN, BUTTON_LEFT, BUTTON_RIGHT, BUTTON_UP, Button, Input, Speaker};
use crate::render::{Draw, Framebuffer, Label, Text};
use crate::ui::{
    UIContext, UIId, activated, activates, dice_mod, dice_mod_spec, do_widget, lemma_activated,
    lemma_run_keeps_hot, lemma_sounds_extend, look_spec, run_ids, sounds, widget_look, widget_step,
};

verus! {

/// Where a button goes, what it says, and its id.
#[derive(Clone, Copy, Debug)]
pub struct ButtonSpec {
    pub x: u8,
    pub y: u8,
    pub w: u8,
    pub h: u8,
    pub id: UIId,
    pub label: Label,
}

/// Where a checkbox goes, the card it stands for, whether it is ticked, and
/// its id.
#[derive(Clone, Copy, Debug)]
pub struct CheckboxSpec {
    pub x: u8,
    pub y: u8,
    pub id: UIId,
    pub card: u8,
    pub checked: bool,
}

/// The ids `first`, `first + 1`, ... of `count` widgets.
pub open spec fn id_range(first: int, count: int) -> Seq<UIId> {
    Seq::new(count as nat, |k: int| (first + k) as UIId)
}

proof fn lemma_id_range(first: int, count: int)
    requires
        1 <= first,
        0 <= count,
        first + count <= 256,
    ensures
        forall|i: int| 0 <= i < count ==> #[trigger] id_range(first, count)[i] != 0,
        id_range(first, count).no_duplicates(),
        forall|id: UIId| id_range(first, count).contains(id) <==> first <= id < first + count,
        count > 0 ==> id_range(first, count).drop_last() =~= id_range(first, count - 1),
        count > 0 ==> id_range(first, count).last() == (first + count - 1) as UIId,
{
    let ids = id_range(first, count);
    assert forall|id: UIId| first <= id < first + count implies ids.contains(id) by {
        assert(ids[id - first] == id);
    }
}

/// A button: handled as widget `spec.id`, then drawn as it now looks.
/// Returns whether it was activated.
pub fn do_button(
    framebuffer: &mut Framebuffer,
    context: &mut UIContext,
    input: Input,
    speaker: &mut Speaker,
    spec: &ButtonSpec,
) -> (r: bool)
    requires
        spec.id != 0,
    ensures
        crate::render::extends(old(framebuffer).commands@, final(framebuffer).commands@),
        *final(context) == widget_step(*old(context), input, spec.id).0,
        r == widget_step(*old(context), input, spec.id).1,
        final(speaker)@ == if widget_step(*old(context), input, spec.id).2 {
            old(speaker)@.push(crate::input::SFX::ButtonPress)
        } else {
            old(speaker)@
        },
        final(framebuffer).commands@ == old(framebuffer).commands@.push(
            Draw::Button {
                x: spec.x,
                y: spec.y,
                w: spec.w,
                h: spec.h,
                label: spec.label,
                look: look_spec(*final(context), input, spec.id),
            },
        ),
{
    let ghost fb0 = framebuffer.commands@;
    let r = do_widget(context, input, speaker, spec.id);
    let look = widget_look(context, input, spec.id);
    framebuffer.push(Draw::Button { x: spec.x, y: spec.y, w: spec.w, h: spec.h, label: spec.label, look });
    r
}

/// A checkbox: handled as widget `spec.id`, then drawn as it now looks.
/// Returns whether it was activated.
pub fn do_checkbox(
    framebuffer: &mut Framebuffer,
    context: &mut UIContext,
    input: Input,
    speaker: &mut Speaker,
    spec: &CheckboxSpec,
) -> (r: bool)
    requires
        spec.id != 0,
    ensures
        crate::render::extends(old(framebuffer).commands@, final(framebuffer).commands@),
        *final(context) == widget_step(*old(context), input, spec.id).0,
        r == widget_step(*old(context), input, spec.id).1,
        final(speaker)@ == if widget_step(*old(context), input, spec.id).2 {
            old(speaker)@.push(crate::input::SFX::ButtonPress)
        } else {
            old(speaker)@
        },
        final(framebuffer).commands@ == old(framebuffer).commands@.push(
            Draw::Checkbox {
                x: spec.x,
                y: spec.y,
                card: spec.card,
                checked: spec.checked,
                look: look_spec(*final(context), input, spec.id),
            },
        ),
{
    let ghost fb0 = framebuffer.commands@;
    let r = do_widget(context, input, speaker, spec.id);
    let look = widget_look(context, input, spec.id);
    framebuffer.push(Draw::Checkbox { x: spec.x, y: spec.y, card: spec.card, checked: spec.checked, look });
    r
}

/// The width of the dialog buttons.
pub const BUTTON_W: u8 = 40;

/// The height of the dialog buttons.
pub const BUTTON_H: u8 = 24;

/// The top of the buttons along the bottom of a dialog.
pub const BOTTOM_BUTTON_Y: u8 = 96;

/// `ctx` with `next` asked for as the next hot widget, if any.
pub open spec fn with_next(ctx: UIContext, next: Option<UIId>) -> UIContext {
    match next {
        Some(id) => UIContext { next_hot: id, ..ctx },
        None => ctx,
    }
}

/// Navigation of the play-again dialog: its one button is always hot.
pub open spec fn unit_nav(hot: UIId) -> Option<UIId> {
    if hot != 1 { Some(1) } else { None }
}

/// The play-again dialog, shown once there are winners: its one button
/// accepts.
pub fn do_unit_choice(framebuffer: &mut Framebuffer, state: &mut GameState, input: Input, speaker: &mut Speaker)
    requires
        old(state).choice.wf(),
    ensures
        crate::input::appended(old(speaker)@, final(speaker)@),
        crate::render::extends(old(framebuffer).commands@, final(framebuffer).commands@),
        ({
            let ctx = old(state).context;
            let ids = seq![1u8];
            &&& final(state).context == with_next(run_ids(ctx, input, ids), unit_nav(ctx.hot))
            &&& final(state).choice == if activates(ctx, input, 1) {
                Choice::Already(Chosen::Unit)
            } else {
                old(state).choice
            }
            &&& final(speaker)@ == old(speaker)@ + sounds(ctx, input, ids)
        }),
        final(state).choice.wf(),
        *final(state) == (GameState { context: final(state).context, choice: final(state).choice, ..*old(state) }),
{
    let ghost fb0 = framebuffer.commands@;
    let ghost ctx = state.context;
    let ghost speaker0 = speaker@;
    framebuffer.push(Draw::Window);
    framebuffer.push(Draw::Text { text: Text::Winners, x: SPRITE_SIZE, y: SPRITE_SIZE });
    framebuffer.push(Draw::Text { text: Text::PlayAgain, x: SPRITE_SIZE, y: SPRITE_SIZE * 5 });
    let spec1 = ButtonSpec {
        x: (SCREEN_WIDTH - BUTTON_W) / 2,
        y: BOTTOM_BUTTON_Y,
        w: BUTTON_W,
        h: BUTTON_H,
        id: 1,
        label: Label::Yes,
    };
    let pressed_yes = do_button(framebuffer, &mut state.context, input, speaker, &spec1);
    proof {
        let ids = seq![1u8];
        assert(ids.drop_last() =~= Seq::<UIId>::empty());
        lemma_activated(ctx, input, ids);
        assert(ids.contains(ctx.active) <==> ctx.active == 1) by {
            if ctx.active == 1 {
                assert(ids[0] == 1);
            }
        }
        lemma_sounds_extend(speaker0, ctx, input, ids);
        lemma_sounds_extend(speaker0, ctx, input, ids.drop_last());
        lemma_run_keeps_hot(ctx, input, ids);
    }
    if pressed_yes {
        state.choice = Choice::Already(Chosen::Unit);
    }
    if state.context.hot != 1 {
        state.context.set_next_hot(1);
    }
}

/// Navigation of the yes/no dialog: left and right swap between the two.
pub open spec fn bool_nav(hot: UIId, input: Input) -> Option<UIId> {
    if hot != 1 && hot != 2 {
        Some(1)
    } else if pressed(input, BUTTON_LEFT) || pressed(input, BUTTON_RIGHT) {
        if hot == 1 { Some(2) } else { Some(1) }
    } else {
        None
    }
}

/// A yes/no dialog: button 1 answers yes, button 2 no.
pub fn do_bool_choice(framebuffer: &mut Framebuffer, state: &mut GameState, input: Input, speaker: &mut Speaker)
    requires
        old(state).choice.wf(),
    ensures
        crate::input::appended(old(speaker)@, final(speaker)@),
        crate::render::extends(old(framebuffer).commands@, final(framebuffer).commands@),
        ({
            let ctx = old(state).context;
            let ids = seq![1u8, 2u8];
            &&& final(state).context == with_next(run_ids(ctx, input, ids), bool_nav(ctx.hot, input))
            &&& final(state).choice == if activates(ctx, input, 1) {
                Choice::Already(Chosen::Bool(true))
            } else if activates(ctx, input, 2) {
                Choice::Already(Chosen::Bool(false))
            } else {
                old(state).choice
            }
            &&& final(speaker)@ == old(speaker)@ + sounds(ctx, input, ids)
        }),
        final(state).choice.wf(),
        *final(state) == (GameState { context: final(state).context, choice: final(state).choice, ..*old(state) }),
{
    let ghost fb0 = framebuffer.commands@;
    let ghost ctx = state.context;
    let ghost speaker0 = speaker@;
    framebuffer.push(Draw::Window);
    framebuffer.push(Draw::Text { text: Text::CloseWindow, x: SPRITE_SIZE, y: SPRITE_SIZE * 5 });
    let spec1 = ButtonSpec { x: SPRITE_SIZE, y: BOTTOM_BUTTON_Y, w: BUTTON_W, h: BUTTON_H, id: 1, label: Label::Yes };
    let yes = do_button(framebuffer, &mut state.context, input, speaker, &spec1);
    if yes {
        state.choice = Choice::Already(Chosen::Bool(true));
    }
    let spec2 = ButtonSpec {
        x: SCREEN_WIDTH - (BUTTON_W + SPRITE_SIZE),
        y: BOTTOM_BUTTON_Y,
        w: BUTTON_W,
        h: BUTTON_H,
        id: 2,
        label: Label::No,
    };
    let no = do_button(framebuffer, &mut state.context, input, speaker, &spec2);
    if no {
        state.choice = Choice::Already(Chosen::Bool(false));
    }
    proof {
        let ids = seq![1u8, 2u8];
        assert(ids.drop_last() =~= seq![1u8]);
        assert(seq![1u8].drop_last() =~= Seq::<UIId>::empty());
        lemma_activated(ctx, input, ids);
        lemma_activated(ctx, input, seq![1u8]);
        assert(ids.contains(ctx.active) <==> (ctx.active == 1 || ctx.active == 2)) by {
            if ctx.active == 1 {
                assert(ids[0] == 1);
            }
            if ctx.active == 2 {
                assert(ids[1] == 2);
            }
        }
        assert(seq![1u8].contains(ctx.active) <==> ctx.active == 1) by {
            if ctx.active == 1 {
                assert(seq![1u8][0] == 1);
            }
        }
        lemma_sounds_extend(speaker0, ctx, input, ids);
        lemma_sounds_extend(speaker0, ctx, input, seq![1u8]);
        lemma_sounds_extend(speaker0, ctx, input, Seq::<UIId>::empty());
        lemma_run_keeps_hot(ctx, input, ids);
    }
    let hot = state.context.hot;
    if hot != 1 && hot != 2 {
        state.context.set_next_hot(1);
    } else if input.pressed_this_frame(Button(BUTTON_LEFT)) || input.pressed_this_frame(Button(BUTTON_RIGHT)) {
        if hot == 1 {
            state.context.set_next_hot(2);
        } else {
            state.context.set_next_hot(1);
        }
    }
}

/// Navigation of the suit dialog: up and down move through the four
/// buttons, wrapping round at either end.
pub open spec fn suit_nav(hot: UIId, input: Input) -> Option<UIId> {
    if hot == 0 || hot > 4 {
        Some(1)
    } else if pressed(input, BUTTON_UP) {
        Some(dice_mod_spec(hot - 1, 4) as UIId)
    } else if pressed(input, BUTTON_DOWN) {
        Some(dice_mod_spec(hot + 1, 4) as UIId)
    } else {
        None
    }
}

/// The suit dialog for a wild card: button `i + 1` declares suit `i`.
pub fn do_suit_choice(framebuffer: &mut Framebuffer, state: &mut GameState, input: Input, speaker: &mut Speaker)
    requires
        old(state).choice.wf(),
    ensures
        crate::input::appended(old(speaker)@, final(speaker)@),
        crate::render::extends(old(framebuffer).commands@, final(framebuffer).commands@),
        ({
            let ctx = old(state).context;
            let ids = id_range(1, 4);
            &&& final(state).context == with_next(run_ids(ctx, input, ids), suit_nav(ctx.hot, input))
            &&& final(state).choice == if 1 <= ctx.active <= 4 && activates(ctx, input, ctx.active) {
                Choice::Already(Chosen::Suit((ctx.active - 1) as Suit))
            } else {
                old(state).choice
            }
            &&& final(speaker)@ == old(speaker)@ + sounds(ctx, input, ids)
        }),
        final(state).choice.wf(),
        *final(state) == (GameState { context: final(state).context, choice: final(state).choice, ..*old(state) }),
{
    let ghost fb0 = framebuffer.commands@;
    let ghost ctx = state.context;
    let ghost speaker0 = speaker@;
    framebuffer.push(Draw::Window);
    framebuffer.push(Draw::Text { text: Text::ChooseSuit, x: SPRITE_SIZE, y: SPRITE_SIZE * 2 });
    let h: u8 = SPRITE_SIZE * 3;
    let mut suit: Suit = 0;
    proof {
        assert(id_range(1, 0) =~= Seq::<UIId>::empty());
    }
    while suit < SUIT_COUNT
        invariant
            crate::render::extends(fb0, framebuffer.commands@),
            suit <= SUIT_COUNT,
            h == 24,
            state.context == run_ids(ctx, input, id_range(1, suit as int)),
            state.choice == match activated(ctx, input, id_range(1, suit as int)) {
                Some(id) => Choice::Already(Chosen::Suit((id - 1) as Suit)),
                None => old(state).choice,
            },
            forall|id: UIId| #[trigger] id_range(1, suit as int).contains(id) ==> 1 <= id <= suit,
            activated(ctx, input, id_range(1, suit as int)) matches Some(id) ==> 1 <= id <= suit,
            speaker@ == speaker0 + sounds(ctx, input, id_range(1, suit as int)),
            *state == (GameState { context: state.context, choice: state.choice, ..*old(state) }),
        decreases SUIT_COUNT - suit,
    {
        let id: UIId = suit + 1;
        let spec = ButtonSpec { x: SPRITE_SIZE, y: h * id, w: SCREEN_WIDTH - 2 * SPRITE_SIZE, h, id, label: Label::Suit(suit) };
        let chosen = do_button(framebuffer, &mut state.context, input, speaker, &spec);
        if chosen {
            state.choice = Choice::Already(Chosen::Suit(suit));
        }
        proof {
            lemma_id_range(1, suit as int + 1);
            lemma_id_range(1, suit as int);
            lemma_sounds_extend(speaker0, ctx, input, id_range(1, suit as int + 1));
        }
        suit = suit + 1;
    }
    proof {
        lemma_id_range(1, 4);
        lemma_activated(ctx, input, id_range(1, 4));
        lemma_run_keeps_hot(ctx, input, id_range(1, 4));
    }
    let hot = state.context.hot;
    if hot == 0 || hot > 4 {
        state.context.set_next_hot(1);
    } else if input.pressed_this_frame(Button(BUTTON_UP)) {
        let next = dice_mod(hot - 1, 4);
        state.context.set_next_hot(next);
    } else if input.pressed_this_frame(Button(BUTTON_DOWN)) {
        let next = dice_mod(hot + 1, 4);
        state.context.set_next_hot(next);
    }
}

/// Handling widget `id` after the widgets `ids`: the context and the
/// sounds extend the run, and the widget is activated exactly when it was
/// the active one.
proof fn lemma_next_widget(ctx: UIContext, input: Input, ids: Seq<UIId>, id: UIId, heard: Seq<crate::input::SFX>)
    requires
        id != 0,
        forall|i: int| 0 <= i < ids.len() ==> #[trigger] ids[i] != 0,
        ids.push(id).no_duplicates(),
    ensures
        run_ids(ctx, input, ids.push(id)) == widget_step(run_ids(ctx, input, ids), input, id).0,
        heard + sounds(ctx, input, ids.push(id)) == if widget_step(run_ids(ctx, input, ids), input, id).2 {
            (heard + sounds(ctx, input, ids)).push(crate::input::SFX::ButtonPress)
        } else {
            heard + sounds(ctx, input, ids)
        },
        widget_step(run_ids(ctx, input, ids), input, id).1 == (ctx.active == id && activates(ctx, input, id)),
{
    let all = ids.push(id);
    assert(all.drop_last() =~= ids);
    assert forall|i: int| 0 <= i < all.len() implies #[trigger] all[i] != 0 by {
        if i < ids.len() {
            assert(all[i] == ids[i]);
        }
    }
    assert(ids.no_duplicates()) by {
        assert forall|i: int, j: int| 0 <= i < ids.len() && 0 <= j < ids.len() && i != j implies ids[i]
            != ids[j] by {
            assert(all[i] == ids[i] && all[j] == ids[j]);
        }
    }
    lemma_activated(ctx, input, all);
    lemma_activated(ctx, input, ids);
    lemma_sounds_extend(heard, ctx, input, all);
    if ids.contains(ctx.active) {
        let j = choose|j: int| 0 <= j < ids.len() && ids[j] == ctx.active;
        assert(all[j] == ctx.active);
        assert(all[ids.len() as int] == id);
    }
    if all.contains(ctx.active) && !ids.contains(ctx.active) {
        let j = choose|j: int| 0 <= j < all.len() && all[j] == ctx.active;
        if j < ids.len() {
            assert(ids[j] == ctx.active);
        }
    }
    assert(all[ids.len() as int] == id);
}

/// Handles one button of a dialog whose earlier widgets were `ids`.
fn dialog_button(
    framebuffer: &mut Framebuffer,
    context: &mut UIContext,
    input: Input,
    speaker: &mut Speaker,
    spec: &ButtonSpec,
    Ghost(ctx): Ghost<UIContext>,
    Ghost(ids): Ghost<Seq<UIId>>,
    Ghost(heard): Ghost<Seq<crate::input::SFX>>,
) -> (r: bool)
    requires
        spec.id != 0,
        forall|i: int| 0 <= i < ids.len() ==> #[trigger] ids[i] != 0,
        ids.push(spec.id).no_duplicates(),
        *old(context) == run_ids(ctx, input, ids),
        old(speaker)@ == heard + sounds(ctx, input, ids),
    ensures
        crate::render::extends(old(framebuffer).commands@, final(framebuffer).commands@),
        *final(context) == run_ids(ctx, input, ids.push(spec.id)),
        final(speaker)@ == heard + sounds(ctx, input, ids.push(spec.id)),
        r == (ctx.active == spec.id && activates(ctx, input, spec.id)),
{
    let ghost fb0 = framebuffer.commands@;
    let r = do_button(framebuffer, context, input, speaker, spec);
    proof {
        lemma_next_widget(ctx, input, ids, spec.id, heard);
        assert(ids.push(spec.id).drop_last() =~= ids);
    }
    r
}

/// Navigation of the card screen: the widget to make hot next, and how
/// many places the card list scrolls forward. The three buttons on the
/// right form one wrapping column, the four cards another; left and right
/// move between the columns.
pub open spec fn card_nav(hot: UIId, input: Input) -> (Option<UIId>, u8) {
    if hot < 4 {
        if hot == 0 {
            (Some(1), 0)
        } else if pressed(input, BUTTON_UP) {
            (Some(dice_mod_spec(hot - 1, 3) as UIId), 0)
        } else if pressed(input, BUTTON_DOWN) {
            (Some(dice_mod_spec(hot + 1, 3) as UIId), 0)
        } else if pressed(input, BUTTON_RIGHT) || pressed(input, BUTTON_LEFT) {
            (Some((3 + hot) as UIId), 0)
        } else {
            (None, 0)
        }
    } else if pressed(input, BUTTON_RIGHT) || pressed(input, BUTTON_LEFT) {
        (Some(if hot - 4 + 1 < 3 { (hot - 3) as UIId } else { 3 }), 0)
    } else if pressed(input, BUTTON_UP) {
        if hot == 4 { (Some(4), 51) } else { (Some((hot - 1) as UIId), 0) }
    } else if pressed(input, BUTTON_DOWN) {
        if hot == 7 { (Some(7), 1) } else { (Some(((hot - 4 + 1) % 52 + 4) as UIId), 0) }
    } else {
        (Some(hot), 0)
    }
}

fn card_screen_nav(hot: UIId, input: Input) -> (r: (Option<UIId>, u8))
    ensures
        r == card_nav(hot, input),
{
    let up = input.pressed_this_frame(Button(BUTTON_UP));
    let down = input.pressed_this_frame(Button(BUTTON_DOWN));
    let side = input.pressed_this_frame(Button(BUTTON_RIGHT)) || input.pressed_this_frame(Button(BUTTON_LEFT));
    if hot < 4 {
        if hot == 0 {
            (Some(1), 0)
        } else if up {
            (Some(dice_mod(hot - 1, 3)), 0)
        } else if down {
            (Some(dice_mod(hot + 1, 3)), 0)
        } else if side {
            (Some(3 + hot), 0)
        } else {
            (None, 0)
        }
    } else if side {
        (Some(if hot - 4 + 1 < 3 { hot - 3 } else { 3 }), 0)
    } else if up {
        if hot == 4 { (Some(4), DECK_SIZE - 1) } else { (Some(hot - 1), 0) }
    } else if down {
        if hot == 7 { (Some(7), 1) } else { (Some((hot - 4 + 1) % DECK_SIZE + 4), 0) }
    } else {
        (Some(hot), 0)
    }
}

/// The widgets of the card screen: reset, cancel, done (only while there
/// are changes to commit), then the four cards.
pub open spec fn card_screen_ids(s: SessionView, ctx: UIContext, input: Input) -> Seq<UIId> {
    let reset = ctx.active == 1 && activates(ctx, input, 1);
    seq![1u8, 2u8] + (if !reset && s.changes.len() > 0 { seq![3u8] } else { Seq::empty() }) + id_range(4, 4)
}

/// What a frame of the card screen does to the session, and whether the
/// player cancelled the editing.
pub open spec fn card_screen(s: SessionView, ctx: UIContext, input: Input) -> (SessionView, bool) {
    let a = ctx.active;
    let act = activates(ctx, input, a);
    let t = if act && a == 1 {
        fresh_session()
    } else if act && a == 3 && s.changes.len() > 0 {
        SessionView { done: true, ..s }
    } else if act && 4 <= a <= 7 {
        SessionView { card: ((s.card + (a - 4)) % (DECK_SIZE as int)) as Card, layer: Layer::Edges, ..s }
    } else {
        s
    };
    let scroll = card_nav(ctx.hot, input).1;
    (SessionView { card: ((t.card + scroll) % (DECK_SIZE as int)) as Card, ..t }, act && a == 2)
}

/// The card screen of the rule editor: pick the card whose rule to change,
/// reset the session, cancel it, or finish it. Returns whether the player
/// cancelled.
fn can_play_graph_choose_card(
    framebuffer: &mut Framebuffer,
    context: &mut UIContext,
    input: Input,
    speaker: &mut Speaker,
    choice_state: &mut ChoiceState,
) -> (r: bool)
    requires
        old(choice_state).wf(),
    ensures
        crate::render::extends(old(framebuffer).commands@, final(framebuffer).commands@),
        final(choice_state).wf(),
        final(choice_state)@ == card_screen(old(choice_state)@, *old(context), input).0,
        r == card_screen(old(choice_state)@, *old(context), input).1,
        *final(context) == with_next(
            run_ids(*old(context), input, card_screen_ids(old(choice_state)@, *old(context), input)),
            card_nav(old(context).hot, input).0,
        ),
        final(speaker)@ == old(speaker)@ + sounds(
            *old(context),
            input,
            card_screen_ids(old(choice_state)@, *old(context), input),
        ),
{
    let ghost fb0 = framebuffer.commands@;
    let ghost ctx = *context;
    let ghost heard = speaker@;
    let ghost s = choice_state@;
    let ghost a = ctx.active;
    let ghost act = activates(ctx, input, a);
    framebuffer.push(Draw::Window);
    framebuffer.push(Draw::Text { text: Text::ChooseCardToChange, x: SPRITE_SIZE, y: SPRITE_SIZE * 2 });
    let w = BUTTON_W;
    let h = BUTTON_H;
    let right_x = SCREEN_WIDTH - (w + SPRITE_SIZE);
    let ghost ids: Seq<UIId> = Seq::empty();
    proof {
        lemma_sounds_extend(heard, ctx, input, ids);
    }
    let reset_spec = ButtonSpec { x: right_x, y: SPRITE_SIZE * 4, w, h, id: 1, label: Label::Reset };
    if dialog_button(framebuffer, context, input, speaker, &reset_spec, Ghost(ctx), Ghost(ids), Ghost(heard)) {
        *choice_state = ChoiceState::new();
    }
    assert(choice_state@ == if a == 1 && act { fresh_session() } else { s });
    assert(choice_state@.changes.len() == choice_state.changes@.len());
    let ghost ids = seq![1u8];
    assert(Seq::<UIId>::empty().push(1u8) =~= ids);
    let cancel_spec = ButtonSpec { x: right_x, y: SPRITE_SIZE * 7, w, h, id: 2, label: Label::Cancel };
    let cancelled = dialog_button(framebuffer, context, input, speaker, &cancel_spec, Ghost(ctx), Ghost(ids), Ghost(heard));
    let ghost ids = seq![1u8, 2u8];
    assert(seq![1u8].push(2u8) =~= ids);
    let changes_len = choice_state.changes.len();
    let ghost head = ids;
    if changes_len > 0 {
        let done_spec = ButtonSpec { x: right_x, y: SPRITE_SIZE * 10, w, h, id: 3, label: Label::Done };
        proof {
            assert(ids.push(3u8).no_duplicates()) by {
                let all = ids.push(3u8);
                assert(all[0] == 1 && all[1] == 2 && all[2] == 3);
            }
        }
        if dialog_button(framebuffer, context, input, speaker, &done_spec, Ghost(ctx), Ghost(ids), Ghost(heard)) {
            choice_state.done = true;
        }
        proof {
            head = ids.push(3u8);
        }
    }
    proof {
        assert(head =~= seq![1u8, 2u8] + (if !(a == 1 && act) && s.changes.len() > 0 {
            seq![3u8]
        } else {
            Seq::empty()
        }));
    }
    framebuffer.push(Draw::Text { text: Text::ChangeCount(changes_len), x: SPRITE_SIZE * 11, y: SPRITE_SIZE * 13 });
    let ghost before_cards = choice_state@;
    let card_w: u8 = SPRITE_SIZE * 10;
    let mut i: u8 = 0;
    while i < 4
        invariant
            crate::render::extends(fb0, framebuffer.commands@),
            i <= 4,
            card_w == 80,
            h == 24,
            a == ctx.active,
            act == activates(ctx, input, a),
            choice_state.wf(),
            *context == run_ids(ctx, input, head + id_range(4, i as int)),
            speaker@ == heard + sounds(ctx, input, head + id_range(4, i as int)),
            forall|k: int| 0 <= k < head.len() ==> #[trigger] head[k] != 0 && head[k] < 4,
            head.no_duplicates(),
            choice_state@ == if act && 4 <= a < 4 + i {
                SessionView {
                    card: ((before_cards.card + (a - 4)) % (DECK_SIZE as int)) as Card,
                    layer: Layer::Edges,
                    ..before_cards
                }
            } else {
                before_cards
            },
        decreases 4 - i,
    {
        let id: UIId = i + 4;
        let card = nth_next_card(choice_state.card, i);
        let spec = ButtonSpec { x: SPRITE_SIZE, y: h * (i + 1) + SPRITE_SIZE / 2, w: card_w, h, id, label: Label::Card(card) };
        let ghost prefix = head + id_range(4, i as int);
        proof {
            lemma_id_range(4, i as int);
            lemma_id_range(4, i as int + 1);
            assert(prefix.push(id) =~= head + id_range(4, i as int + 1));
            assert forall|k: int| 0 <= k < prefix.len() implies #[trigger] prefix[k] != 0 by {
                if k >= head.len() {
                    assert(prefix[k] == id_range(4, i as int)[k - head.len()]);
                }
            }
            assert(prefix.push(id).no_duplicates()) by {
                let all = prefix.push(id);
                assert forall|p: int, q: int| 0 <= p < all.len() && 0 <= q < all.len() && p != q implies all[p]
                    != all[q] by {
                    if p < head.len() && q < head.len() {
                    } else if p < head.len() {
                        assert(all[q] == (4 + q - head.len()) as UIId);
                    } else if q < head.len() {
                        assert(all[p] == (4 + p - head.len()) as UIId);
                    } else {
                        assert(all[p] == (4 + p - head.len()) as UIId);
                        assert(all[q] == (4 + q - head.len()) as UIId);
                    }
                }
            }
        }
        let ghost cs_before = choice_state@;
        if dialog_button(framebuffer, context, input, speaker, &spec, Ghost(ctx), Ghost(prefix), Ghost(heard)) {
            choice_state.card = card;
            choice_state.layer = Layer::Edges;
            proof {
                assert(cs_before == before_cards);
                assert(choice_state@.changes == before_cards.changes);
                assert(choice_state@ == SessionView {
                    card: ((before_cards.card + (a - 4)) % (DECK_SIZE as int)) as Card,
                    layer: Layer::Edges,
                    ..before_cards
                });
            }
        }
        i = i + 1;
    }
    proof {
        assert(head + id_range(4, 4) == card_screen_ids(s, ctx, input));
        lemma_run_keeps_hot(ctx, input, card_screen_ids(s, ctx, input));
    }
    let (next, scroll) = card_screen_nav(context.hot, input);
    if let Some(id) = next {
        context.set_next_hot(id);
    }
    if scroll != 0 {
        choice_state.card = nth_next_card(choice_state.card, scroll);
    }
    cancelled
}

/// Handles one checkbox of a dialog whose earlier widgets were `ids`.
fn dialog_checkbox(
    framebuffer: &mut Framebuffer,
    context: &mut UIContext,
    input: Input,
    speaker: &mut Speaker,
    spec: &CheckboxSpec,
    Ghost(ctx): Ghost<UIContext>,
    Ghost(ids): Ghost<Seq<UIId>>,
    Ghost(heard): Ghost<Seq<crate::input::SFX>>,
) -> (r: bool)
    requires
        spec.id != 0,
        forall|i: int| 0 <= i < ids.len() ==> #[trigger] ids[i] != 0,
        ids.push(spec.id).no_duplicates(),
        *old(context) == run_ids(ctx, input, ids),
        old(speaker)@ == heard + sounds(ctx, input, ids),
    ensures
        crate::render::extends(old(framebuffer).commands@, final(framebuffer).commands@),
        *final(context) == run_ids(ctx, input, ids.push(spec.id)),
        final(speaker)@ == heard + sounds(ctx, input, ids.push(spec.id)),
        r == (ctx.active == spec.id && activates(ctx, input, spec.id)),
{
    let ghost fb0 = framebuffer.commands@;
    let r = do_checkbox(framebuffer, context, input, speaker, spec);
    proof {
        lemma_next_widget(ctx, input, ids, spec.id, heard);
        assert(ids.push(spec.id).drop_last() =~= ids);
    }
    r
}

/// Navigation of the edge screen: the widget to make hot next, and how
/// many places the grid of cards scrolls forward. The two buttons form a
/// wrapping column; the checkboxes a grid of two columns, scrolled a row
/// at a time past its top and bottom.
pub open spec fn edges_nav(hot: UIId, input: Input) -> (Option<UIId>, u8) {
    if hot < 3 {
        if hot == 0 {
            (Some(1), 0)
        } else if pressed(input, BUTTON_UP) {
            (Some(dice_mod_spec(hot - 1, 2) as UIId), 0)
        } else if pressed(input, BUTTON_DOWN) {
            (Some(dice_mod_spec(hot + 1, 2) as UIId), 0)
        } else if pressed(input, BUTTON_RIGHT) {
            (Some(if hot == 1 { 3 } else { 9 }), 0)
        } else if pressed(input, BUTTON_LEFT) {
            (Some(if hot == 1 { 4 } else { 10 }), 0)
        } else {
            (None, 0)
        }
    } else if pressed(input, BUTTON_LEFT) {
        if hot % 2 == 1 {
            (Some(if hot > 9 { 2 } else { 1 }), 0)
        } else {
            (Some((hot - 1) as UIId), 0)
        }
    } else if pressed(input, BUTTON_RIGHT) {
        if hot % 2 == 1 {
            (Some(if hot < 255 { (hot + 1) as UIId } else { 255 }), 0)
        } else {
            (Some(if hot > 9 { 2 } else { 1 }), 0)
        }
    } else if pressed(input, BUTTON_UP) {
        if hot - 3 < 2 { (Some(hot), 50) } else { (Some((hot - 2) as UIId), 0) }
    } else if pressed(input, BUTTON_DOWN) {
        if (hot - 3) / 2 >= 9 { (Some(hot), 2) } else { (Some(((hot - 3 + 2) % 52 + 3) as UIId), 0) }
    } else {
        (Some(hot), 0)
    }
}

fn edges_screen_nav(hot: UIId, input: Input) -> (r: (Option<UIId>, u8))
    ensures
        r == edges_nav(hot, input),
{
    let up = input.pressed_this_frame(Button(BUTTON_UP));
    let down = input.pressed_this_frame(Button(BUTTON_DOWN));
    let left = input.pressed_this_frame(Button(BUTTON_LEFT));
    let right = input.pressed_this_frame(Button(BUTTON_RIGHT));
    if hot < 3 {
        if hot == 0 {
            (Some(1), 0)
        } else if up {
            (Some(dice_mod(hot - 1, 2)), 0)
        } else if down {
            (Some(dice_mod(hot + 1, 2)), 0)
        } else if right {
            (Some(if hot == 1 { 3 } else { 9 }), 0)
        } else if left {
            (Some(if hot == 1 { 4 } else { 10 }), 0)
        } else {
            (None, 0)
        }
    } else if left {
        if hot % 2 == 1 {
            (Some(if hot > 9 { 2 } else { 1 }), 0)
        } else {
            (Some(hot - 1), 0)
        }
    } else if right {
        if hot % 2 == 1 {
            (Some(hot.saturating_add(1)), 0)
        } else {
            (Some(if hot > 9 { 2 } else { 1 }), 0)
        }
    } else if up {
        if hot - 3 < 2 { (Some(hot), DECK_SIZE - 2) } else { (Some(hot - 2), 0) }
    } else if down {
        if (hot - 3) / 2 >= 9 { (Some(hot), 2) } else { (Some((hot - 3 + 2) % DECK_SIZE + 3), 0) }
    } else {
        (Some(hot), 0)
    }
}

/// The number of checkboxes on the edge screen: ten rows of two.
pub const CHECKBOX_COUNT: u8 = 20;

/// The widgets of the edge screen: confirm, cancel, then the checkboxes.
pub open spec fn edges_screen_ids() -> Seq<UIId> {
    seq![1u8, 2u8] + id_range(3, CHECKBOX_COUNT as int)
}

/// What a frame of the edge screen does to the session.
pub open spec fn edges_screen(s: SessionView, ctx: UIContext, input: Input) -> SessionView {
    let a = ctx.active;
    let act = activates(ctx, input, a);
    let t = if act && a == 1 {
        confirm_edges(s)
    } else if act && a == 2 {
        cancel_edges(s)
    } else if act && 3 <= a < 3 + CHECKBOX_COUNT {
        toggle_edge(s, ((s.scroll_card + (a - 3)) % (DECK_SIZE as int)) as Card)
    } else {
        s
    };
    SessionView {
        scroll_card: ((t.scroll_card + edges_nav(ctx.hot, input).1) % (DECK_SIZE as int)) as Card,
        ..t
    }
}

/// The edge screen of the rule editor: tick the cards that the edited card
/// may be played on, then confirm or cancel.
fn can_play_graph_choose_edges(
    framebuffer: &mut Framebuffer,
    context: &mut UIContext,
    input: Input,
    speaker: &mut Speaker,
    choice_state: &mut ChoiceState,
)
    requires
        old(choice_state).wf(),
    ensures
        crate::render::extends(old(framebuffer).commands@, final(framebuffer).commands@),
        final(choice_state).wf(),
        final(choice_state)@ == edges_screen(old(choice_state)@, *old(context), input),
        old(context).active == 2 && activates(*old(context), input, 2) ==> final(choice_state)@.changes
            == old(choice_state)@.changes && final(choice_state)@.layer == Layer::Card,
        *final(context) == with_next(
            run_ids(*old(context), input, edges_screen_ids()),
            edges_nav(old(context).hot, input).0,
        ),
        final(speaker)@ == old(speaker)@ + sounds(*old(context), input, edges_screen_ids()),
{
    let ghost fb0 = framebuffer.commands@;
    let ghost ctx = *context;
    let ghost heard = speaker@;
    let ghost s = choice_state@;
    let ghost a = ctx.active;
    let ghost act = activates(ctx, input, a);
    framebuffer.push(Draw::Window);
    framebuffer.push(Draw::Text { text: Text::ChooseEdges(choice_state.card), x: SPRITE_SIZE, y: SPRITE_SIZE * 2 });
    let heading_bottom: u8 = SPRITE_SIZE * 2;
    let w = BUTTON_W;
    let h = BUTTON_H;
    let right_x = SCREEN_WIDTH - (w + SPRITE_SIZE);
    let ghost ids: Seq<UIId> = Seq::empty();
    proof {
        lemma_sounds_extend(heard, ctx, input, ids);
    }
    let ok_spec = ButtonSpec { x: right_x, y: SPRITE_SIZE * 4, w, h, id: 1, label: Label::Confirm };
    if dialog_button(framebuffer, context, input, speaker, &ok_spec, Ghost(ctx), Ghost(ids), Ghost(heard)) {
        let edges = choice_state.edges.copy();
        let ghost before = choice_state.changes@;
        choice_state.changes.push(Change::new(edges, choice_state.card));
        choice_state.layer = Layer::Card;
        proof {
            assert(change_views(choice_state.changes@) =~= change_views(before).push((s.edges, s.card)));
            assert(choice_state.changes@.last().wf());
            assert forall|k: int| 0 <= k < choice_state.changes@.len() implies #[trigger] choice_state.changes@[k].wf() by {
                if k < before.len() {
                    assert(choice_state.changes@[k] == before[k]);
                }
            }
        }
    }
    let ghost ids = seq![1u8];
    assert(Seq::<UIId>::empty().push(1u8) =~= ids);
    let cancel_spec = ButtonSpec { x: right_x, y: SPRITE_SIZE * 7, w, h, id: 2, label: Label::Cancel };
    if dialog_button(framebuffer, context, input, speaker, &cancel_spec, Ghost(ctx), Ghost(ids), Ghost(heard)) {
        choice_state.layer = Layer::Card;
    }
    let ghost head = seq![1u8, 2u8];
    assert(seq![1u8].push(2u8) =~= head);
    let ghost before_boxes = choice_state@;
    proof {
        assert(before_boxes == if act && a == 1 { confirm_edges(s) } else if act && a == 2 { cancel_edges(s) } else { s });
    }
    let scroll_card = choice_state.scroll_card;
    let mut i: u8 = 0;
    while i < CHECKBOX_COUNT
        invariant
            crate::render::extends(fb0, framebuffer.commands@),
            i <= CHECKBOX_COUNT,
            heading_bottom == 16,
            a == ctx.active,
            act == activates(ctx, input, a),
            scroll_card == before_boxes.scroll_card,
            scroll_card < DECK_SIZE,
            head == seq![1u8, 2u8],
            choice_state.wf(),
            *context == run_ids(ctx, input, head + id_range(3, i as int)),
            speaker@ == heard + sounds(ctx, input, head + id_range(3, i as int)),
            choice_state@ == if act && 3 <= a < 3 + i {
                toggle_edge(before_boxes, ((before_boxes.scroll_card + (a - 3)) % (DECK_SIZE as int)) as Card)
            } else {
                before_boxes
            },
        decreases CHECKBOX_COUNT - i,
    {
        let id: UIId = i + 3;
        let card = nth_next_card(scroll_card, i);
        let column = i % 2;
        let row = i / 2;
        let spec = CheckboxSpec {
            x: SPRITE_SIZE + 48 * column,
            y: heading_bottom + SPRITE_SIZE * (row + 1) + SPRITE_SIZE / 2,
            id,
            card,
            checked: choice_state.edges.has_card(card),
        };
        let ghost prefix = head + id_range(3, i as int);
        proof {
            lemma_id_range(3, i as int);
            lemma_id_range(3, i as int + 1);
            assert(prefix.push(id) =~= head + id_range(3, i as int + 1));
            assert forall|k: int| 0 <= k < prefix.len() implies #[trigger] prefix[k] != 0 by {
                if k >= 2 {
                    assert(prefix[k] == id_range(3, i as int)[k - 2]);
                }
            }
            assert(prefix.push(id).no_duplicates()) by {
                let all = prefix.push(id);
                assert forall|p: int, q: int| 0 <= p < all.len() && 0 <= q < all.len() && p != q implies all[p]
                    != all[q] by {
                    if p >= 2 {
                        assert(all[p] == (3 + p - 2) as UIId);
                    }
                    if q >= 2 {
                        assert(all[q] == (3 + q - 2) as UIId);
                    }
                }
            }
        }
        let ghost cs_before = choice_state@;
        if dialog_checkbox(framebuffer, context, input, speaker, &spec, Ghost(ctx), Ghost(prefix), Ghost(heard)) {
            choice_state.edges.toggle_card(card);
            proof {
                assert(cs_before == before_boxes);
                assert(choice_state@ == toggle_edge(before_boxes, card));
            }
        }
        i = i + 1;
    }
    proof {
        assert(head + id_range(3, CHECKBOX_COUNT as int) == edges_screen_ids());
        lemma_run_keeps_hot(ctx, input, edges_screen_ids());
    }
    let (next, scroll) = edges_screen_nav(context.hot, input);
    if let Some(id) = next {
        context.set_next_hot(id);
    }
    if scroll != 0 {
        choice_state.scroll_card = nth_next_card(choice_state.scroll_card, scroll);
    }
}

/// The edges that `card` has in the session: those of its last pending
/// change, or else those of the graph.
fn load_edges(graph: &CanPlayGraph, changes: &Vec<Change>, card: Card) -> (r: CardFlags)
    requires
        graph.wf(),
        card < DECK_SIZE,
        crate::graph::changes_wf(changes@),
    ensures
        r@ == latest_edges(graph@, change_views(changes@), card),
        r.wf(),
{
    let ghost all = change_views(changes@);
    let mut i: usize = changes.len();
    assert(all.subrange(0, i as int) =~= all);
    while i > 0
        invariant
            i <= changes@.len(),
            all == change_views(changes@),
            crate::graph::changes_wf(changes@),
            graph.wf(),
            card < DECK_SIZE,
            latest_edges(graph@, all, card) == latest_edges(graph@, all.subrange(0, i as int), card),
        decreases i,
    {
        let ghost sub = all.subrange(0, i as int);
        proof {
            assert(sub.drop_last() =~= all.subrange(0, i as int - 1));
            assert(sub.last() == all[i as int - 1]);
        }
        if changes[i - 1].card() == card {
            proof {
                assert(changes@[i as int - 1].wf());
            }
            return changes[i - 1].edges();
        }
        i = i - 1;
    }
    proof {
        assert(all.subrange(0, 0) =~= Seq::<crate::graph::ChangeView>::empty());
    }
    graph.get_edges(card)
}

/// What a frame of the rule editor does to its session: the card screen,
/// after which a card picked for editing has its edges loaded; or the edge
/// screen.
pub open spec fn editor_frame(s: SessionView, graph: Seq<Seq<bool>>, ctx: UIContext, input: Input) -> (SessionView, bool) {
    if s.layer == Layer::Card {
        let (t, cancelled) = card_screen(s, ctx, input);
        if t.layer == Layer::Edges {
            (pick_card(t, graph, t.card), cancelled)
        } else {
            (t, cancelled)
        }
    } else {
        (edges_screen(s, ctx, input), false)
    }
}

/// Puts the session back in the choice slot, or what it gave.
fn finish_editor_frame(state: &mut GameState, cs: ChoiceState, cancelled: bool)
    requires
        cs.wf(),
    ensures
        final(state).choice.wf(),
        *final(state) == (GameState { choice: final(state).choice, ..*old(state) }),
        if cancelled {
            final(state).choice is NoChoice
        } else if cs@.done {
            final(state).choice matches Choice::Already(Chosen::CanPlayGraph(changes)) && change_views(changes@)
                == cs@.changes
        } else {
            final(state).choice matches Choice::OfCanPlayGraph(cs2) && cs2@ == cs@
        },
{
    if cancelled {
        state.choice = Choice::NoChoice;
    } else if cs.done {
        state.choice = Choice::Already(Chosen::CanPlayGraph(cs.changes));
    } else {
        state.choice = Choice::OfCanPlayGraph(cs);
    }
}

/// The rule editor. Cancelling abandons the session and its pending
/// changes; finishing it hands the changes to whoever asked.
pub fn do_can_play_graph_choice(framebuffer: &mut Framebuffer, state: &mut GameState, input: Input, speaker: &mut Speaker)
    requires
        old(state).choice.wf(),
        old(state).can_play_graph.wf(),
    ensures
        crate::input::appended(old(speaker)@, final(speaker)@),
        crate::render::extends(old(framebuffer).commands@, final(framebuffer).commands@),
        final(state).choice.wf(),
        *final(state) == (GameState { context: final(state).context, choice: final(state).choice, ..*old(state) }),
        !(old(state).choice is OfCanPlayGraph) ==> final(state).choice is NoChoice && final(state).context
            == old(state).context && final(speaker)@ == old(speaker)@,
        old(state).choice matches Choice::OfCanPlayGraph(cs) ==> {
            let (t, cancelled) = editor_frame(cs@, old(state).can_play_graph@, old(state).context, input);
            if cancelled {
                final(state).choice is NoChoice
            } else if t.done {
                final(state).choice matches Choice::Already(Chosen::CanPlayGraph(changes)) && change_views(changes@)
                    == t.changes
            } else {
                final(state).choice matches Choice::OfCanPlayGraph(cs2) && cs2@ == t
            }
        },
{
    let ghost fb0 = framebuffer.commands@;
    let ghost ctx = state.context;
    let ghost graph = state.can_play_graph@;
    let mut choice = Choice::NoChoice;
    std::mem::swap(&mut choice, &mut state.choice);
    match choice {
        Choice::OfCanPlayGraph(mut cs) => {
            let ghost s0 = cs@;
            match cs.layer {
                Layer::Card => {
                    let cancelled = can_play_graph_choose_card(framebuffer, &mut state.context, input, speaker, &mut cs);
                    let ghost t = card_screen(s0, ctx, input).0;
                    assert(cs@ == t);
                    match cs.layer {
                        Layer::Edges => {
                            cs.edges = load_edges(&state.can_play_graph, &cs.changes, cs.card);
                            assert(cs@ == SessionView { edges: latest_edges(graph, t.changes, t.card), ..t });
                        },
                        Layer::Card => {},
                    }
                    assert(cs@ == editor_frame(s0, graph, ctx, input).0);
                    assert(cancelled == editor_frame(s0, graph, ctx, input).1);
                    finish_editor_frame(state, cs, cancelled);
                },
                Layer::Edges => {
                    can_play_graph_choose_edges(framebuffer, &mut state.context, input, speaker, &mut cs);
                    finish_editor_frame(state, cs, false);
                },
            }
        },
        _ => {},
    }
}

/// Navigation on the card screen never leaves its seven widgets, and the
/// card list scrolls one place back, one forward, or not at all.
pub proof fn lemma_card_nav_stays(hot: UIId, input: Input)
    requires
        1 <= hot <= 7,
    ensures
        card_nav(hot, input).0 matches Some(next) ==> 1 <= next <= 7,
        card_nav(hot, input).1 == 0 || card_nav(hot, input).1 == 1 || card_nav(hot, input).1 == DECK_SIZE - 1,
{
    if hot >= 2 {
        vstd::arithmetic::div_mod::lemma_mod_pos_bound(hot - 2, 3);
    }
    vstd::arithmetic::div_mod::lemma_mod_pos_bound(hot as int, 3);
    if 4 <= hot < 7 {
        vstd::arithmetic::div_mod::lemma_small_mod((hot - 4 + 1) as nat, 52);
    }
}

/// Navigation on the edge screen never leaves its two buttons and twenty
/// checkboxes, and the grid scrolls a row back, a row forward, or not at all.
pub proof fn lemma_edges_nav_stays(hot: UIId, input: Input)
    requires
        1 <= hot <= 2 + CHECKBOX_COUNT,
    ensures
        edges_nav(hot, input).0 matches Some(next) ==> 1 <= next <= 2 + CHECKBOX_COUNT,
        edges_nav(hot, input).1 == 0 || edges_nav(hot, input).1 == 2 || edges_nav(hot, input).1 == DECK_SIZE - 2,
{
    if hot >= 2 {
        vstd::arithmetic::div_mod::lemma_mod_pos_bound(hot - 2, 2);
    }
    vstd::arithmetic::div_mod::lemma_mod_pos_bound(hot as int, 2);
    if 3 <= hot {
        vstd::arithmetic::div_mod::lemma_small_mod((hot - 3 + 2) as nat, 52);
    }
}

} // verus!

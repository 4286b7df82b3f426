//! Laws relating several operations of the library.
use vstd::prelude::*;
use crate::anim::PlayerID;
use crate::cards::{Card, DECK_SIZE, Suit};
use crate::choice::{
    Choice, Chosen, cancel_edges, choose_suit_spec, confirm_edges, fresh_session, pick_card, toggle_edge,
};
use crate::game::{CPU_COUNT, GameState, arrivals, full_deck, lands_in_hand};
use crate::graph::{committed, latest_edges, toggled};
use crate::ui::dice_mod_spec;

verus! {

/// Moving to the next of `m` widgets, wrapping round past the last.
pub open spec fn advance_id(h: int, m: int) -> int {
    dice_mod_spec(h + 1, m)
}

/// Moving `n` times to the next of `m` widgets.
pub open spec fn advance_n(h: int, m: int, n: nat) -> int
    decreases n,
{
    if n == 0 {
        h
    } else {
        advance_id(advance_n(h, m, (n - 1) as nat), m)
    }
}

proof fn lemma_advance_n(h: int, m: int, n: nat)
    requires
        1 <= h <= m,
    ensures
        advance_n(h, m, n) == (h - 1 + n) % m + 1,
    decreases n,
{
    if n == 0 {
        vstd::arithmetic::div_mod::lemma_small_mod((h - 1) as nat, m as nat);
    } else {
        lemma_advance_n(h, m, (n - 1) as nat);
        let x = advance_n(h, m, (n - 1) as nat);
        vstd::arithmetic::div_mod::lemma_mod_pos_bound(h - 1 + n - 1, m);
        vstd::arithmetic::div_mod::lemma_add_mod_noop(h - 1 + n - 1, 1, m);
        if m > 1 {
            vstd::arithmetic::div_mod::lemma_small_mod(1nat, m as nat);
        }
        assert(x + 1 != 0);
        assert(advance_id(x, m) == (x + 1 - 1) % m + 1);
        assert((x + 1 - 1) % m == ((h - 1 + n - 1) % m + 1) % m);
        if m == 1 {
            assert((h - 1 + n) % 1 == 0);
            assert(((h - 1 + n - 1) % 1 + 1) % 1 == 0);
        } else {
            assert(((h - 1 + n - 1) % m + 1int % m) % m == (h - 1 + n - 1 + 1) % m);
            assert(1int % m == 1);
        }
    }
}

/// Dialog navigation wraps round: from any widget `h` of `m`, moving to
/// the next one `m` times comes back to `h`. Id zero, which stands for no
/// widget, maps to the last one and never to zero.
pub proof fn lemma_dice_mod_wraps(h: int, m: int)
    requires
        1 <= h <= m,
    ensures
        advance_n(h, m, m as nat) == h,
        dice_mod_spec(0, m) == m,
        forall|x: int| x > 0 ==> 1 <= #[trigger] dice_mod_spec(x, m) <= m,
{
    lemma_advance_n(h, m, m as nat);
    vstd::arithmetic::div_mod::lemma_mod_add_multiples_vanish(h - 1, m);
    vstd::arithmetic::div_mod::lemma_small_mod((h - 1) as nat, m as nat);
    assert forall|x: int| x > 0 implies 1 <= #[trigger] dice_mod_spec(x, m) <= m by {
        vstd::arithmetic::div_mod::lemma_mod_pos_bound(x - 1, m);
    }
}

/// The choice protocol for a suit: the first request starts waiting and
/// gives nothing; asking again before the answer still gives nothing; once
/// a dialog has put the answer in, the next request gives it and empties
/// the slot; a request after that starts waiting again and gives nothing.
pub proof fn lemma_suit_choice_protocol(suit: Suit)
    ensures
        ({
            let (waiting, first) = choose_suit_spec(Choice::NoChoice);
            let (still_waiting, second) = choose_suit_spec(waiting);
            let (emptied, answer) = choose_suit_spec(Choice::Already(Chosen::Suit(suit)));
            let (_, after) = choose_suit_spec(emptied);
            &&& waiting is OfSuit && first is None
            &&& still_waiting is OfSuit && second is None
            &&& emptied is NoChoice && answer == Some(suit)
            &&& after is None
        }),
{
}

pub open spec fn graph_wf(graph: Seq<Seq<bool>>) -> bool {
    &&& graph.len() == DECK_SIZE
    &&& forall|c: int| 0 <= c < DECK_SIZE ==> #[trigger] graph[c].len() == DECK_SIZE
}

/// Editing the rule of card `x` in a fresh session and ticking or unticking
/// card `y`: cancelling the edit leaves no pending change, so committing
/// leaves the rule of `x` as it was; confirming it and committing flips
/// exactly that edge of `x` and leaves every other card's rule alone.
pub proof fn lemma_edit_then_commit(graph: Seq<Seq<bool>>, x: Card, y: Card)
    requires
        graph_wf(graph),
        x < DECK_SIZE,
        y < DECK_SIZE,
    ensures
        ({
            let edited = toggle_edge(pick_card(fresh_session(), graph, x), y);
            &&& committed(graph, cancel_edges(edited).changes) == graph
            &&& committed(graph, confirm_edges(edited).changes)[x as int] == toggled(graph[x as int], y)
            &&& forall|c: int| 0 <= c < DECK_SIZE && c != x ==> #[trigger] committed(
                graph,
                confirm_edges(edited).changes,
            )[c] == graph[c]
        }),
{
    let picked = pick_card(fresh_session(), graph, x);
    assert(latest_edges(graph, fresh_session().changes, x) == graph[x as int]);
    let edited = toggle_edge(picked, y);
    let changes = confirm_edges(edited).changes;
    assert(fresh_session().changes.len() == 0);
    assert(edited.edges == toggled(graph[x as int], y));
    assert(changes =~= seq![(toggled(graph[x as int], y), x)]);
    assert(changes.drop_last() =~= Seq::<crate::graph::ChangeView>::empty());
    assert(committed(graph, changes.drop_last()) == graph);
    assert(committed(graph, changes) == graph.update(x as int, toggled(graph[x as int], y)));
    assert(cancel_edges(edited).changes.len() == 0);
}

/// How many of `anims` bring a card to `player`'s hand on this step.
pub open spec fn landing_count(anims: Seq<crate::anim::CardAnimation>, player: PlayerID) -> nat
    decreases anims.len(),
{
    if anims.len() == 0 {
        0
    } else {
        landing_count(anims.drop_first(), player) + if lands_in_hand(anims[0], player) { 1nat } else { 0nat }
    }
}

proof fn lemma_arrivals_len(anims: Seq<crate::anim::CardAnimation>, player: PlayerID)
    ensures
        arrivals(anims, player).len() == landing_count(anims, player),
    decreases anims.len(),
{
    if anims.len() > 0 {
        lemma_arrivals_len(anims.drop_first(), player);
    }
}

/// When cards in flight complete, each animation's action runs exactly
/// once: a hand that `advance_card_animations` turns `before` into `after`
/// grows by exactly the number of animations that land in it, and holds
/// each landing card.
pub proof fn lemma_animation_completion(before: GameState, after: GameState, player: PlayerID)
    requires
        player <= CPU_COUNT,
        forall|p: PlayerID| p <= CPU_COUNT ==> #[trigger] after.hand_of(p) == before.hand_of(p) + arrivals(
            before.card_animations@,
            p,
        ),
    ensures
        after.hand_of(player).len() == before.hand_of(player).len() + landing_count(before.card_animations@, player),
        forall|i: int| 0 <= i < before.card_animations@.len() && lands_in_hand(#[trigger] before.card_animations@[i], player)
            ==> after.hand_of(player).contains(before.card_animations@[i].card.card),
{
    lemma_arrivals_len(before.card_animations@, player);
    assert(after.hand_of(player) == before.hand_of(player) + arrivals(before.card_animations@, player));
    assert forall|i: int| 0 <= i < before.card_animations@.len() && lands_in_hand(#[trigger] before.card_animations@[i], player)
        implies after.hand_of(player).contains(before.card_animations@[i].card.card) by {
        lemma_arrival_present(before.card_animations@, player, i);
        let k = choose|k: int| 0 <= k < arrivals(before.card_animations@, player).len() && arrivals(
            before.card_animations@,
            player,
        )[k] == before.card_animations@[i].card.card;
        assert(after.hand_of(player)[before.hand_of(player).len() + k] == before.card_animations@[i].card.card);
    }
}

proof fn lemma_arrival_present(anims: Seq<crate::anim::CardAnimation>, player: PlayerID, i: int)
    requires
        0 <= i < anims.len(),
        lands_in_hand(anims[i], player),
    ensures
        arrivals(anims, player).contains(anims[i].card.card),
    decreases anims.len(),
{
    let rest = arrivals(anims.drop_first(), player);
    if i == 0 {
        assert(arrivals(anims, player)[rest.len() as int] == anims[0].card.card);
    } else {
        lemma_arrival_present(anims.drop_first(), player, i - 1);
        assert(anims.drop_first()[i - 1] == anims[i]);
        let k = choose|k: int| 0 <= k < rest.len() && rest[k] == anims[i].card.card;
        assert(arrivals(anims, player)[k] == anims[i].card.card);
    }
}

/// Each card of the deck is in exactly one place at a time: the deck, the
/// discard pile, a hand, or in flight; and nothing else is on the table.
pub proof fn lemma_each_card_once(state: GameState)
    requires
        state.wf(),
    ensures
        forall|c: Card| c < DECK_SIZE ==> #[trigger] state.table().count(c) == 1,
        forall|c: Card| c >= DECK_SIZE ==> #[trigger] state.table().count(c) == 0,
{
    let cards = Seq::new(DECK_SIZE as nat, |i: int| i as Card);
    assert(cards.no_duplicates());
    cards.lemma_multiset_has_no_duplicates();
    assert forall|c: Card| c < DECK_SIZE implies #[trigger] state.table().count(c) == 1 by {
        assert(cards[c as int] == c);
        vstd::seq_lib::to_multiset_contains(cards, c);
        assert(full_deck().contains(c));
    }
    assert forall|c: Card| c >= DECK_SIZE implies #[trigger] state.table().count(c) == 0 by {
        vstd::seq_lib::to_multiset_contains(cards, c);
    }
}

} // verus!

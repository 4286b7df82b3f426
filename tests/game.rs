use bartog::anim::{Action, CardAnimation, PositionedCard};
use bartog::cards::{get_rank, get_suit, is_wild, most_common_suit, nth_next_card};
use bartog::choice::{choose_can_play_graph, choose_play_again, choose_suit, Choice, Chosen, Layer};
use bartog::dialogs::{do_bool_choice, do_can_play_graph_choice, do_suit_choice, do_unit_choice};
use bartog::game::{
    LogHeading,
    advance_card_animations, can_play, commit_rule_edits, cpu_would_play, get_card_position,
    get_draw_animation, move_to_discard, take_turn, update_and_render, BartogState, GameState, Spread,
    CPU_COUNT, DISCARD_X, DISCARD_Y,
};
use bartog::graph::{CanPlayGraph, CardFlags, Change};
use bartog::input::{BUTTON_A, BUTTON_DOWN, BUTTON_LEFT, BUTTON_SELECT, BUTTON_UP};
use bartog::render::Framebuffer;
use bartog::ui::{dice_mod, do_widget, UIContext};
use bartog::{Button, Input, Speaker, SFX};

fn no_input() -> Input {
    Input { gamepad: Button(0), previous_gamepad: Button(0) }
}

fn press(bits: u8) -> Input {
    Input { gamepad: Button(bits), previous_gamepad: Button(0) }
}

fn release_a() -> Input {
    Input { gamepad: Button(0), previous_gamepad: Button(BUTTON_A) }
}

/// Runs a frame of the rule editor in which widget `id` is activated.
fn activate_in_editor(state: &mut GameState, id: u8) {
    state.context = UIContext { hot: id, active: id, next_hot: id };
    let mut framebuffer = Framebuffer::new();
    let mut speaker = Speaker::new();
    do_can_play_graph_choice(&mut framebuffer, state, release_a(), &mut speaker);
}

fn edges_of(graph: &CanPlayGraph, card: u8) -> Vec<bool> {
    let edges = graph.get_edges(card);
    (0..52).map(|c| edges.has_card(c)).collect()
}

fn all_cards(state: &GameState) -> Vec<u8> {
    let mut cards: Vec<u8> = Vec::new();
    cards.extend(state.deck.iter());
    cards.extend(state.discard.iter());
    cards.extend(state.hand.cards.iter());
    for hand in state.cpu_hands.iter() {
        cards.extend(hand.cards.iter());
    }
    for animation in state.card_animations.iter() {
        cards.push(animation.card.card);
    }
    cards.sort();
    cards
}

#[test]
fn dice_mod_wraps_round_and_maps_zero_to_the_count() {
    assert_eq!(dice_mod(0, 4), 4);
    assert_eq!(dice_mod(5, 4), 1);
    assert_eq!(dice_mod(4, 4), 4);
    assert_eq!(dice_mod(1, 3), 1);
    for m in 1u8..=10 {
        for h in 1..=m {
            let mut id = h;
            for _ in 0..m {
                id = dice_mod(id + 1, m);
                assert!(id >= 1 && id <= m);
            }
            assert_eq!(id, h);
        }
    }
}

#[test]
fn suit_choice_is_read_once() {
    let mut choice = Choice::NoChoice;
    assert_eq!(choose_suit(&mut choice), None);
    assert!(matches!(choice, Choice::OfSuit));
    assert_eq!(choose_suit(&mut choice), None);
    assert!(matches!(choice, Choice::OfSuit));
    choice = Choice::Already(Chosen::Suit(2));
    assert_eq!(choose_suit(&mut choice), Some(2));
    assert!(matches!(choice, Choice::NoChoice));
    assert_eq!(choose_suit(&mut choice), None);
    assert!(matches!(choice, Choice::OfSuit));
}

#[test]
fn asking_for_another_kind_resets_the_slot() {
    let mut choice = Choice::OfBool;
    assert_eq!(choose_suit(&mut choice), None);
    assert!(matches!(choice, Choice::NoChoice));
    let mut choice = Choice::Already(Chosen::Suit(1));
    assert_eq!(choose_play_again(&mut choice), None);
    assert!(matches!(choice, Choice::NoChoice));
}

#[test]
fn play_again_is_asked_then_read() {
    let mut choice = Choice::NoChoice;
    assert_eq!(choose_play_again(&mut choice), None);
    assert!(matches!(choice, Choice::OfUnit));
    choice = Choice::Already(Chosen::Unit);
    assert_eq!(choose_play_again(&mut choice), Some(()));
    assert!(matches!(choice, Choice::NoChoice));
}

#[test]
fn graph_edit_starts_fresh_and_hands_back_changes() {
    let mut choice = Choice::NoChoice;
    assert!(choose_can_play_graph(&mut choice).is_empty());
    match &choice {
        Choice::OfCanPlayGraph(session) => {
            assert!(session.changes.is_empty());
            assert_eq!(session.layer, Layer::Card);
            assert!(!session.done);
        }
        _ => panic!("no editing session started"),
    }
    assert!(choose_can_play_graph(&mut choice).is_empty());
    assert!(matches!(choice, Choice::OfCanPlayGraph(_)));
    let mut edges = CardFlags::new();
    edges.toggle_card(3);
    choice = Choice::Already(Chosen::CanPlayGraph(vec![Change::new(edges, 9)]));
    let changes = choose_can_play_graph(&mut choice);
    assert_eq!(changes.len(), 1);
    assert_eq!(changes[0].card(), 9);
    assert!(changes[0].edges().has_card(3));
    assert!(matches!(choice, Choice::NoChoice));
}

#[test]
fn default_rule_is_same_suit_or_same_rank() {
    let graph = CanPlayGraph::new();
    assert!(graph.is_playable_on(0, 5));
    assert!(graph.is_playable_on(0, 13));
    assert!(!graph.is_playable_on(0, 14));
    assert!(graph.is_playable_on(27, 1));
    assert!(!graph.is_playable_on(27, 2));
}

#[test]
fn changes_apply_in_order_and_the_last_one_wins() {
    let mut graph = CanPlayGraph::new();
    let mut first = CardFlags::new();
    first.toggle_card(40);
    let mut second = CardFlags::new();
    second.toggle_card(41);
    graph.apply_changes(&vec![Change::new(first, 2), Change::new(second, 2)]);
    assert!(graph.is_playable_on(2, 41));
    assert!(!graph.is_playable_on(2, 40));
    assert!(!graph.is_playable_on(2, 3));
    assert!(graph.is_playable_on(3, 4));
}

#[test]
fn edited_rule_is_kept_on_done_and_dropped_on_cancel() {
    let x: u8 = 0;
    let y: u8 = 5;

    let mut state = GameState::new(7);
    let before = edges_of(&state.can_play_graph, x);
    assert!(before[y as usize]);
    let _ = choose_can_play_graph(&mut state.choice);
    activate_in_editor(&mut state, 4);
    activate_in_editor(&mut state, 3 + y);
    activate_in_editor(&mut state, 2);
    activate_in_editor(&mut state, 2);
    assert!(matches!(state.choice, Choice::NoChoice));
    commit_rule_edits(&mut state);
    assert_eq!(edges_of(&state.can_play_graph, x), before);

    let _ = choose_can_play_graph(&mut state.choice);
    activate_in_editor(&mut state, 4);
    match &state.choice {
        Choice::OfCanPlayGraph(session) => {
            assert_eq!(session.layer, Layer::Edges);
            assert_eq!(session.card, x);
        }
        _ => panic!("the edge screen did not open"),
    }
    activate_in_editor(&mut state, 3 + y);
    activate_in_editor(&mut state, 1);
    activate_in_editor(&mut state, 3);
    assert!(matches!(state.choice, Choice::Already(Chosen::CanPlayGraph(_))));
    commit_rule_edits(&mut state);
    assert!(matches!(state.choice, Choice::NoChoice));
    let after = edges_of(&state.can_play_graph, x);
    assert!(!after[y as usize]);
    for c in 0..52 {
        if c != y as usize {
            assert_eq!(after[c], before[c]);
        }
    }
    assert_eq!(edges_of(&state.can_play_graph, 1), edges_of(&CanPlayGraph::new(), 1));
}

#[test]
fn two_animations_completing_together_both_land() {
    let mut state = GameState::new(3);
    let first = state.deck.pop().unwrap();
    let second = state.deck.pop().unwrap();
    let far = state.deck.pop().unwrap();
    state.card_animations.push(CardAnimation::new(
        PositionedCard { card: first, x: 10, y: 10 },
        12,
        10,
        Action::MoveToHand(CPU_COUNT),
    ));
    state.card_animations.push(CardAnimation::new(
        PositionedCard { card: second, x: 50, y: 50 },
        50,
        53,
        Action::MoveToHand(CPU_COUNT),
    ));
    state.card_animations.push(CardAnimation::new(
        PositionedCard { card: far, x: 0, y: 0 },
        100,
        0,
        Action::MoveToHand(1),
    ));
    let before = state.hand.cards.len();
    advance_card_animations(&mut state);
    assert_eq!(state.hand.cards.len(), before + 2);
    assert_eq!(&state.hand.cards[before..], &[second, first]);
    assert_eq!(state.card_animations.len(), 1);
    assert_eq!(state.card_animations[0].card, PositionedCard { card: far, x: 6, y: 0 });
    assert_eq!(state.cpu_hands[1].cards.len(), 8);
    assert_eq!(all_cards(&state), (0..52).collect::<Vec<u8>>());
}

#[test]
fn playing_a_card_sends_it_to_the_discard_pile() {
    let mut found = None;
    for seed in 0..500u64 {
        let state = GameState::new(seed);
        let playable = (0..state.hand.cards.len())
            .find(|&i| can_play(&state, &state.hand.cards[i]) && !is_wild(state.hand.cards[i]));
        if let Some(i) = playable {
            found = Some((state, i));
            break;
        }
    }
    let (mut state, index) = found.expect("some deal gives the human player a legal play");
    assert!(!state.deck.is_empty());
    state.current_player = CPU_COUNT;
    state.hand_index = index;
    let card = state.hand.cards[index];
    let discard_before = state.discard.len();
    let mut framebuffer = Framebuffer::new();
    let mut speaker = Speaker::new();

    update_and_render(&mut framebuffer, &mut state, press(BUTTON_A), &mut speaker);
    assert_eq!(state.card_animations.len(), 1);
    let animation = state.card_animations[0];
    assert_eq!(animation.card.card, card);
    assert_eq!((animation.x, animation.y), (DISCARD_X, DISCARD_Y));
    assert_eq!(animation.completion_action, Action::MoveToDiscard);
    assert_eq!(state.hand.cards.len(), 7);
    assert_eq!(state.discard.len(), discard_before);
    assert_eq!(state.current_player, 0);

    let mut frames = 0;
    while !state.card_animations.is_empty() {
        update_and_render(&mut framebuffer, &mut state, no_input(), &mut speaker);
        frames += 1;
        assert!(frames < 100);
    }
    assert_eq!(state.hand.cards.len(), 7);
    assert_eq!(state.discard.len(), discard_before + 1);
    assert_eq!(*state.discard.last().unwrap(), card);
    assert_eq!(all_cards(&state), (0..52).collect::<Vec<u8>>());
}

#[test]
fn fresh_deal_holds_every_card_once_in_shuffled_order() {
    let state = GameState::new(11);
    assert_eq!(all_cards(&state), (0..52).collect::<Vec<u8>>());
    assert_eq!(state.deck.len(), 19);
    assert_eq!(state.discard.len(), 1);
    for hand in state.cpu_hands.iter() {
        assert_eq!(hand.cards.len(), 8);
    }
    assert_eq!(state.hand.cards.len(), 8);
    let mut dealt: Vec<u8> = Vec::new();
    for hand in state.cpu_hands.iter() {
        dealt.extend(hand.cards.iter());
    }
    dealt.extend(state.hand.cards.iter());
    let unshuffled: Vec<u8> = (44..52).chain(36..44).chain(28..36).chain(20..28).collect();
    assert_ne!(dealt, unshuffled);
}

#[test]
fn drawing_from_an_empty_deck_reshuffles_the_discard_pile() {
    let mut state = GameState::new(5);
    let moved: Vec<u8> = state.deck.drain(..).collect();
    state.discard.extend(moved.iter());
    let top = *state.discard.last().unwrap();
    let under: Vec<u8> = state.discard[..state.discard.len() - 1].to_vec();
    let animation = get_draw_animation(&mut state, 0).expect("a card to draw");
    assert_eq!(state.discard, vec![top]);
    assert_eq!(state.deck.len(), under.len() - 1);
    assert!(under.contains(&animation.card.card));
    assert_eq!(animation.completion_action, Action::MoveToHand(0));
    let mut rest = state.deck.clone();
    rest.push(animation.card.card);
    rest.sort();
    let mut expected = under.clone();
    expected.sort();
    assert_eq!(rest, expected);
}

#[test]
fn nothing_to_draw_gives_no_animation() {
    let mut state = GameState::new(5);
    state.deck.clear();
    state.discard.truncate(1);
    assert!(get_draw_animation(&mut state, 2).is_none());
    assert_eq!(state.discard.len(), 1);
}

#[test]
fn simulated_player_plays_only_a_playable_card() {
    let mut state = GameState::new(9);
    state.discard = vec![1];
    state.top_wild_declared_as = None;
    state.cpu_hands[0].cards = vec![15, 28, 42];
    assert_eq!(cpu_would_play(&mut state, 0), None);
    state.cpu_hands[0].cards = vec![15, 5, 28];
    assert_eq!(cpu_would_play(&mut state, 0), Some(1));
    state.cpu_hands[0].cards = vec![15, 20, 28];
    assert_eq!(cpu_would_play(&mut state, 0), Some(1));
}

#[test]
fn on_a_wild_card_only_the_declared_suit_or_a_wild_plays() {
    let mut state = GameState::new(2);
    state.discard = vec![7];
    state.top_wild_declared_as = Some(2);
    assert!(can_play(&state, &27));
    assert!(!can_play(&state, &1));
    assert!(can_play(&state, &20));
    state.top_wild_declared_as = None;
    assert!(!can_play(&state, &27));
    move_to_discard(&mut state, 3);
    assert_eq!(state.top_wild_declared_as, None);
    assert!(can_play(&state, &4));
}

#[test]
fn simulated_player_turn_passes_play_on() {
    let mut state = GameState::new(13);
    state.current_player = 0;
    let mut speaker = Speaker::new();
    let anims = state.card_animations.len();
    take_turn(&mut state, no_input(), &mut speaker);
    assert_eq!(state.current_player, 1);
    assert_eq!(state.card_animations.len(), anims + 1);
    assert_eq!(all_cards(&state), (0..52).collect::<Vec<u8>>());
}

#[test]
fn empty_hands_win() {
    let mut state = GameState::new(21);
    let cards: Vec<u8> = state.cpu_hands[1].cards.drain(..).collect();
    state.deck.extend(cards.iter());
    state.current_player = CPU_COUNT;
    let mut speaker = Speaker::new();
    take_turn(&mut state, no_input(), &mut speaker);
    assert_eq!(state.winners, vec![1]);
}

#[test]
fn cards_and_suits_by_number() {
    assert!(is_wild(7));
    assert!(is_wild(20));
    assert!(!is_wild(8));
    assert_eq!(get_suit(27), 2);
    assert_eq!(get_rank(27), 1);
    assert_eq!(nth_next_card(51, 1), 0);
    assert_eq!(nth_next_card(10, 50), 8);
    assert_eq!(most_common_suit(&vec![]), None);
    assert_eq!(most_common_suit(&vec![13, 0]), Some(0));
    assert_eq!(most_common_suit(&vec![13, 0, 14, 40]), Some(1));
}

#[test]
fn cards_in_flight_move_a_fixed_step() {
    let mut animation = CardAnimation::new(PositionedCard { card: 3, x: 0, y: 10 }, 20, 7, Action::MoveToDiscard);
    animation.approach_target();
    assert_eq!((animation.card.x, animation.card.y), (6, 7));
    assert!(!animation.is_complete());
    animation.approach_target();
    animation.approach_target();
    animation.approach_target();
    assert_eq!((animation.card.x, animation.card.y), (20, 7));
    assert!(animation.is_complete());
}

#[test]
fn hand_layout_shares_out_the_span() {
    let spread = Spread::LTR { min: 8, max: 120, y: 97 };
    assert_eq!(get_card_position(spread, 8, 0), (8, 97));
    assert_eq!(get_card_position(spread, 8, 2), (34, 97));
    assert_eq!(get_card_position(spread, 2, 1), (28, 97));
    let column = Spread::TTB { min: 32, max: 94, x: 0 };
    assert_eq!(get_card_position(column, 1, 0), (0, 32));
    assert_eq!(get_card_position(column, 3, 2), (0, 64));
}

#[test]
fn widget_press_then_release_activates() {
    let mut context = UIContext { hot: 1, active: 0, next_hot: 1 };
    let mut speaker = Speaker::new();
    assert!(!do_widget(&mut context, press(BUTTON_A), &mut speaker, 1));
    assert_eq!(context.active, 1);
    assert!(matches!(speaker.slice(), [SFX::ButtonPress]));
    assert!(!do_widget(&mut context, Input { gamepad: Button(BUTTON_A), previous_gamepad: Button(BUTTON_A) }, &mut speaker, 1));
    assert!(do_widget(&mut context, release_a(), &mut speaker, 1));
    assert_eq!(context.active, 0);
    assert!(!do_widget(&mut context, release_a(), &mut speaker, 2));
}

#[test]
fn next_hot_takes_effect_on_the_next_frame() {
    let mut context = UIContext { hot: 1, active: 0, next_hot: 1 };
    context.set_next_hot(3);
    assert_eq!(context.hot, 1);
    context.frame_init();
    assert_eq!(context.hot, 3);
}

#[test]
fn dialogs_produce_their_values() {
    let mut state = GameState::new(4);
    let mut framebuffer = Framebuffer::new();
    let mut speaker = Speaker::new();

    state.choice = Choice::OfBool;
    state.context = UIContext { hot: 2, active: 2, next_hot: 2 };
    do_bool_choice(&mut framebuffer, &mut state, release_a(), &mut speaker);
    assert!(matches!(state.choice, Choice::Already(Chosen::Bool(false))));

    state.choice = Choice::OfSuit;
    state.context = UIContext { hot: 3, active: 3, next_hot: 3 };
    do_suit_choice(&mut framebuffer, &mut state, release_a(), &mut speaker);
    assert!(matches!(state.choice, Choice::Already(Chosen::Suit(2))));

    state.choice = Choice::OfSuit;
    state.context = UIContext { hot: 4, active: 0, next_hot: 4 };
    do_suit_choice(&mut framebuffer, &mut state, press(BUTTON_DOWN), &mut speaker);
    assert_eq!(state.context.next_hot, 1);
    do_suit_choice(&mut framebuffer, &mut state, press(BUTTON_UP), &mut speaker);
    assert_eq!(state.context.next_hot, 3);

    state.choice = Choice::OfUnit;
    state.context = UIContext { hot: 0, active: 0, next_hot: 0 };
    do_unit_choice(&mut framebuffer, &mut state, no_input(), &mut speaker);
    assert_eq!(state.context.next_hot, 1);
    assert!(matches!(state.choice, Choice::OfUnit));
    state.context = UIContext { hot: 1, active: 1, next_hot: 1 };
    do_unit_choice(&mut framebuffer, &mut state, release_a(), &mut speaker);
    assert!(matches!(state.choice, Choice::Already(Chosen::Unit)));
}

#[test]
fn card_list_scrolls_past_its_top() {
    let mut state = GameState::new(4);
    let _ = choose_can_play_graph(&mut state.choice);
    state.context = UIContext { hot: 4, active: 0, next_hot: 4 };
    let mut framebuffer = Framebuffer::new();
    let mut speaker = Speaker::new();
    do_can_play_graph_choice(&mut framebuffer, &mut state, press(BUTTON_UP), &mut speaker);
    match &state.choice {
        Choice::OfCanPlayGraph(session) => assert_eq!(session.card, 51),
        _ => panic!("the editor closed"),
    }
    assert_eq!(state.context.next_hot, 4);
    state.context.frame_init();
    do_can_play_graph_choice(&mut framebuffer, &mut state, press(BUTTON_LEFT), &mut speaker);
    assert_eq!(state.context.next_hot, 1);
}

#[test]
fn key_repeat_counts_as_a_fresh_press() {
    let mut game = BartogState::new(1);
    game.press(Button(BUTTON_A));
    game.frame();
    assert!(game.input.previous_gamepad.contains(Button(BUTTON_A)));
    game.press(Button(BUTTON_A));
    assert!(game.input.pressed_this_frame(Button(BUTTON_A)));
    game.release(Button(BUTTON_A));
    assert!(!game.input.gamepad.contains(Button(BUTTON_A)));
    game.frame();
    assert!(!game.get_frame_buffer().is_empty());
}

#[test]
fn open_log_panel_freezes_the_game() {
    let mut state = GameState::new(8);
    state.current_player = CPU_COUNT;
    state.log_height = 16;
    state.log_heading = LogHeading::Down;
    let mut framebuffer = Framebuffer::new();
    let mut speaker = Speaker::new();
    update_and_render(&mut framebuffer, &mut state, press(BUTTON_A), &mut speaker);
    assert_eq!(state.log_height, 24);
    assert!(state.card_animations.is_empty());
    assert_eq!(state.hand.cards.len(), 8);
    assert!(matches!(state.choice, Choice::NoChoice));
    update_and_render(&mut framebuffer, &mut state, press(BUTTON_SELECT), &mut speaker);
    assert!(matches!(state.choice, Choice::NoChoice));
}

#[test]
fn select_opens_the_rule_editor() {
    let mut state = GameState::new(8);
    state.current_player = CPU_COUNT;
    let mut framebuffer = Framebuffer::new();
    let mut speaker = Speaker::new();
    update_and_render(&mut framebuffer, &mut state, press(BUTTON_SELECT), &mut speaker);
    assert!(matches!(state.choice, Choice::OfCanPlayGraph(_)));
    let hand = state.hand.cards.clone();
    update_and_render(&mut framebuffer, &mut state, press(BUTTON_A), &mut speaker);
    assert_eq!(state.hand.cards, hand);
    assert!(state.card_animations.is_empty());
}

#[test]
fn finished_edits_are_committed_by_the_frame() {
    let mut state = GameState::new(12);
    state.current_player = CPU_COUNT;
    let mut edges = CardFlags::new();
    edges.toggle_card(30);
    state.choice = Choice::Already(Chosen::CanPlayGraph(vec![Change::new(edges, 4)]));
    let mut framebuffer = Framebuffer::new();
    let mut speaker = Speaker::new();
    update_and_render(&mut framebuffer, &mut state, no_input(), &mut speaker);
    assert!(state.can_play_graph.is_playable_on(4, 30));
    assert!(!state.can_play_graph.is_playable_on(4, 5));
    assert!(state.can_play_graph.is_playable_on(5, 6));
}

#[test]
fn human_wild_card_waits_for_a_suit() {
    let mut state = GameState::new(6);
    let wild = state.deck.iter().position(|&c| is_wild(c)).map(|i| state.deck.remove(i));
    let wild = match wild {
        Some(card) => card,
        None => return,
    };
    let start = PositionedCard { card: wild, x: DISCARD_X - 2, y: DISCARD_Y };
    let animation = CardAnimation::new(start, DISCARD_X, DISCARD_Y, Action::SelectWild(CPU_COUNT));
    state.card_animations.push(animation);
    let discard = state.discard.clone();
    advance_card_animations(&mut state);
    assert!(matches!(state.choice, Choice::OfSuit));
    assert_eq!(state.card_animations, vec![animation]);
    assert_eq!(state.discard, discard);

    state.choice = Choice::Already(Chosen::Suit(3));
    advance_card_animations(&mut state);
    assert!(state.card_animations.is_empty());
    assert_eq!(*state.discard.last().unwrap(), wild);
    assert_eq!(state.top_wild_declared_as, Some(3));
    assert!(matches!(state.choice, Choice::NoChoice));
}

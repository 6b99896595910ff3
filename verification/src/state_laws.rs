//! What holds of the orientation whatever the buttons do.
use crate::state::{Button, ImageState};
use vstd::prelude::*;

verus! {

/// How many of the presses in `presses` were of `button`.
pub open spec fn press_count(presses: Seq<Button>, button: Button) -> nat
    decreases presses.len(),
{
    if presses.len() == 0 {
        0
    } else {
        let earlier = press_count(presses.drop_last(), button);
        if presses.last() == button {
            earlier + 1
        } else {
            earlier
        }
    }
}

/// Whether `n` is odd.
pub open spec fn is_odd(n: nat) -> bool {
    n % 2 == 1
}

/// A state is the pair of its two flips, and nothing more.
pub proof fn lemma_state_is_its_flips(state: ImageState)
    ensures
        state == ImageState::with_flips(state.flipped_vertically(), state.flipped_horizontally()),
{
}

/// For every pair of flips there is a state with exactly these flips.
pub proof fn lemma_flips_of_state(vertically: bool, horizontally: bool)
    ensures
        ImageState::with_flips(vertically, horizontally).flipped_vertically() == vertically,
        ImageState::with_flips(vertically, horizontally).flipped_horizontally() == horizontally,
{
}

/// Button A toggles the vertical flip and button B the horizontal one; each
/// leaves the other flip as it is.
pub proof fn lemma_press_toggles_one_flip(state: ImageState, button: Button)
    ensures
        state.pressed(button).flipped_vertically() == (state.flipped_vertically() != (button
            == Button::A)),
        state.pressed(button).flipped_horizontally() == (state.flipped_horizontally() != (button
            == Button::B)),
{
}

/// Pressing the same button twice leads back to the state before.
pub proof fn lemma_press_twice(state: ImageState, button: Button)
    ensures
        state.pressed(button).pressed(button) == state,
{
}

/// Two presses lead to the same state in either order.
pub proof fn lemma_presses_commute(state: ImageState, first: Button, second: Button)
    ensures
        state.pressed(first).pressed(second) == state.pressed(second).pressed(first),
{
}

/// The state reached by a sequence of presses depends only on where it
/// started and on whether each button was pressed an odd number of times:
/// a flip has changed if and only if its button was.
pub proof fn lemma_state_after_presses(start: ImageState, presses: Seq<Button>)
    ensures
        start.after(presses).flipped_vertically() == (start.flipped_vertically() != is_odd(
            press_count(presses, Button::A),
        )),
        start.after(presses).flipped_horizontally() == (start.flipped_horizontally() != is_odd(
            press_count(presses, Button::B),
        )),
    decreases presses.len(),
{
    if presses.len() > 0 {
        lemma_state_after_presses(start, presses.drop_last());
        lemma_press_toggles_one_flip(start.after(presses.drop_last()), presses.last());
    }
}

/// Starting from the original image, the state after any sequence of presses
/// is the pair of the parities of the two press counts.
pub proof fn lemma_state_is_parity_of_presses(presses: Seq<Button>)
    ensures
        ImageState::Original.after(presses) == ImageState::with_flips(
            is_odd(press_count(presses, Button::A)),
            is_odd(press_count(presses, Button::B)),
        ),
{
    lemma_state_after_presses(ImageState::Original, presses);
    lemma_state_is_its_flips(ImageState::Original.after(presses));
}

/// Every one of the four states is reached from the original image, by at
/// most one press of each button.
pub proof fn lemma_every_state_is_reached(state: ImageState) -> (presses: Seq<Button>)
    ensures
        ImageState::Original.after(presses) == state,
        presses.len() <= 2,
{
    let presses = match state {
        ImageState::Original => Seq::<Button>::empty(),
        ImageState::FlippedVertically => seq![Button::A],
        ImageState::FlippedHorizontally => seq![Button::B],
        ImageState::FlippedVerticallyAndHorizontally => seq![Button::A, Button::B],
    };
    reveal_with_fuel(ImageState::after, 3);
    assert(presses.len() == 2 ==> presses.drop_last() =~= seq![Button::A]);
    assert(presses.len() == 1 ==> presses.drop_last() =~= Seq::<Button>::empty());
    presses
}

} // verus!

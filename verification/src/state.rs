//! The orientation of the displayed image and the two toggles that change it.
//!
//! An orientation is a pair of independent flips, one per axis. Each button
//! toggles one flip and leaves the other alone, so the four states form the
//! Klein four-group acting on itself.
use vstd::prelude::*;

verus! {

/// Which of the four views of the image is shown.
#[derive(Clone, Copy, Debug, PartialEq, Eq, Hash, Structural)]
pub enum ImageState {
    Original,
    FlippedVertically,
    FlippedHorizontally,
    FlippedVerticallyAndHorizontally,
}

/// One of the two buttons that change the orientation.
#[derive(Clone, Copy, Debug, PartialEq, Eq, Hash, Structural)]
pub enum Button {
    /// Toggles the vertical flip.
    A,
    /// Toggles the horizontal flip.
    B,
}

impl ImageState {
    /// Whether the image is flipped across the vertical axis in this state.
    pub open spec fn flipped_vertically(self) -> bool {
        self is FlippedVertically || self is FlippedVerticallyAndHorizontally
    }

    /// Whether the image is flipped across the horizontal axis in this state.
    pub open spec fn flipped_horizontally(self) -> bool {
        self is FlippedHorizontally || self is FlippedVerticallyAndHorizontally
    }

    /// The state with the given pair of flips.
    pub open spec fn with_flips(vertically: bool, horizontally: bool) -> ImageState {
        if vertically {
            if horizontally {
                ImageState::FlippedVerticallyAndHorizontally
            } else {
                ImageState::FlippedVertically
            }
        } else {
            if horizontally {
                ImageState::FlippedHorizontally
            } else {
                ImageState::Original
            }
        }
    }

    /// The state that button A leads to from this one.
    pub open spec fn toggled_vertically(self) -> ImageState {
        match self {
            ImageState::Original => ImageState::FlippedVertically,
            ImageState::FlippedVertically => ImageState::Original,
            ImageState::FlippedHorizontally => ImageState::FlippedVerticallyAndHorizontally,
            ImageState::FlippedVerticallyAndHorizontally => ImageState::FlippedHorizontally,
        }
    }

    /// The state that button B leads to from this one.
    pub open spec fn toggled_horizontally(self) -> ImageState {
        match self {
            ImageState::Original => ImageState::FlippedHorizontally,
            ImageState::FlippedVertically => ImageState::FlippedVerticallyAndHorizontally,
            ImageState::FlippedHorizontally => ImageState::Original,
            ImageState::FlippedVerticallyAndHorizontally => ImageState::FlippedVertically,
        }
    }

    /// The state that one press of `button` leads to from this one.
    pub open spec fn pressed(self, button: Button) -> ImageState {
        match button {
            Button::A => self.toggled_vertically(),
            Button::B => self.toggled_horizontally(),
        }
    }

    /// The state reached from this one by the presses in `presses`, in order.
    pub open spec fn after(self, presses: Seq<Button>) -> ImageState
        decreases presses.len(),
    {
        if presses.len() == 0 {
            self
        } else {
            self.after(presses.drop_last()).pressed(presses.last())
        }
    }

    /// The state in which the image is shown as it was loaded.
    pub fn new() -> (state: ImageState)
        ensures
            state == ImageState::Original,
    {
        ImageState::Original
    }

    /// Reports whether the image is flipped across the vertical axis.
    pub fn is_flipped_vertically(self) -> (flipped: bool)
        ensures
            flipped == self.flipped_vertically(),
    {
        match self {
            ImageState::FlippedVertically | ImageState::FlippedVerticallyAndHorizontally => true,
            ImageState::Original | ImageState::FlippedHorizontally => false,
        }
    }

    /// Reports whether the image is flipped across the horizontal axis.
    pub fn is_flipped_horizontally(self) -> (flipped: bool)
        ensures
            flipped == self.flipped_horizontally(),
    {
        match self {
            ImageState::FlippedHorizontally | ImageState::FlippedVerticallyAndHorizontally => true,
            ImageState::Original | ImageState::FlippedVertically => false,
        }
    }

    /// Builds the state that has the given pair of flips.
    pub fn from_flips(vertically: bool, horizontally: bool) -> (state: ImageState)
        ensures
            state == ImageState::with_flips(vertically, horizontally),
            state.flipped_vertically() == vertically,
            state.flipped_horizontally() == horizontally,
    {
        match (vertically, horizontally) {
            (false, false) => ImageState::Original,
            (true, false) => ImageState::FlippedVertically,
            (false, true) => ImageState::FlippedHorizontally,
            (true, true) => ImageState::FlippedVerticallyAndHorizontally,
        }
    }

    /// Toggles the vertical flip and keeps the horizontal one.
    pub fn toggle_vertically(self) -> (next: ImageState)
        ensures
            next == self.toggled_vertically(),
            next.flipped_vertically() == !self.flipped_vertically(),
            next.flipped_horizontally() == self.flipped_horizontally(),
    {
        match self {
            ImageState::Original => ImageState::FlippedVertically,
            ImageState::FlippedVertically => ImageState::Original,
            ImageState::FlippedHorizontally => ImageState::FlippedVerticallyAndHorizontally,
            ImageState::FlippedVerticallyAndHorizontally => ImageState::FlippedHorizontally,
        }
    }

    /// Toggles the horizontal flip and keeps the vertical one.
    pub fn toggle_horizontally(self) -> (next: ImageState)
        ensures
            next == self.toggled_horizontally(),
            next.flipped_horizontally() == !self.flipped_horizontally(),
            next.flipped_vertically() == self.flipped_vertically(),
    {
        match self {
            ImageState::Original => ImageState::FlippedHorizontally,
            ImageState::FlippedVertically => ImageState::FlippedVerticallyAndHorizontally,
            ImageState::FlippedHorizontally => ImageState::Original,
            ImageState::FlippedVerticallyAndHorizontally => ImageState::FlippedVertically,
        }
    }

    /// Applies one press of `button`.
    pub fn press(self, button: Button) -> (next: ImageState)
        ensures
            next == self.pressed(button),
    {
        match button {
            Button::A => self.toggle_vertically(),
            Button::B => self.toggle_horizontally(),
        }
    }
}

impl Default for ImageState {
    fn default() -> (state: ImageState)
        ensures
            state == ImageState::Original,
    {
        ImageState::Original
    }
}

/// Toggles the vertical flip of `image_state` if button A went down in this
/// tick, and leaves the state alone otherwise.
pub fn keypad_handle_if_a_pressed(a_pressed: bool, image_state: &mut ImageState)
    ensures
        a_pressed ==> *final(image_state) == old(image_state).toggled_vertically(),
        !a_pressed ==> *final(image_state) == *old(image_state),
{
    // If the A button is not pressed, we don't do anything.
    if !a_pressed {
        return ;
    }
    *image_state = image_state.toggle_vertically();
}

/// Toggles the horizontal flip of `image_state` if button B went down in this
/// tick, and leaves the state alone otherwise.
pub fn keypad_handle_if_b_pressed(b_pressed: bool, image_state: &mut ImageState)
    ensures
        b_pressed ==> *final(image_state) == old(image_state).toggled_horizontally(),
        !b_pressed ==> *final(image_state) == *old(image_state),
{
    // If the B button is not pressed, we don't do anything.
    if !b_pressed {
        return ;
    }
    *image_state = image_state.toggle_horizontally();
}

/// Handles one tick of input: button A first, then button B. Both may have
/// gone down in the same tick; each toggles its own flip, so the order in
/// which they are handled does not show in the result.
pub fn keypad_handle_tick(a_pressed: bool, b_pressed: bool, image_state: &mut ImageState)
    ensures
        *final(image_state) == ImageState::with_flips(
            old(image_state).flipped_vertically() != a_pressed,
            old(image_state).flipped_horizontally() != b_pressed,
        ),
        !a_pressed && !b_pressed ==> *final(image_state) == *old(image_state),
        a_pressed && !b_pressed ==> *final(image_state) == old(image_state).toggled_vertically(),
        !a_pressed && b_pressed ==> *final(image_state) == old(image_state).toggled_horizontally(),
        a_pressed && b_pressed ==> *final(image_state) == old(
            image_state,
        ).toggled_vertically().toggled_horizontally(),
        a_pressed && b_pressed ==> *final(image_state) == old(
            image_state,
        ).toggled_horizontally().toggled_vertically(),
{
    keypad_handle_if_a_pressed(a_pressed, image_state);
    keypad_handle_if_b_pressed(b_pressed, image_state);
}

/// The states that the image passes through when the presses in `presses`
/// arrive in order, starting from `start`: one state after each press.
pub fn states_visited(start: ImageState, presses: &[Button]) -> (visited: Vec<ImageState>)
    ensures
        visited@.len() == presses@.len(),
        forall|i: int|
            0 <= i < visited@.len() ==> visited@[i] == start.after(#[trigger] presses@.take(i + 1)),
{
    let mut visited: Vec<ImageState> = Vec::with_capacity(presses.len());
    let mut state: ImageState = start;
    let mut done: usize = 0;
    while done < presses.len()
        invariant
            done <= presses@.len(),
            visited@.len() == done,
            state == start.after(presses@.take(done as int)),
            forall|i: int|
                0 <= i < visited@.len() ==> visited@[i] == start.after(
                    #[trigger] presses@.take(i + 1),
                ),
        decreases presses@.len() - done,
    {
        assert(presses@.take(done + 1).drop_last() =~= presses@.take(done as int));
        state = state.press(presses[done]);
        visited.push(state);
        done += 1;
    }
    visited
}

} // verus!

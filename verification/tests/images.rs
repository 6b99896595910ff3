use bitmap_flip::images::{check_geometry, image_state_to_image_bytes, GeometryError, ImageSet};
use bitmap_flip::mirror::{mirror_both, mirror_pixels, mirror_rows};
use bitmap_flip::state::{keypad_handle_tick, ImageState};

fn six_pixels() -> Vec<u8> {
    vec![0, 1, 2, 10, 11, 12, 20, 21, 22, 30, 31, 32, 40, 41, 42, 50, 51, 52]
}

#[test]
fn geometry_of_whole_rows_is_accepted() {
    assert_eq!(check_geometry(12, 2), Ok(()));
    assert_eq!(check_geometry(12, 4), Ok(()));
    assert_eq!(check_geometry(12, 1), Ok(()));
    assert_eq!(check_geometry(3, 1), Ok(()));
    assert_eq!(check_geometry(230400, 240), Ok(()));
    assert_eq!(check_geometry(230400, 320), Ok(()));
}

#[test]
fn geometry_of_an_empty_image_is_accepted_for_any_height_but_zero() {
    assert_eq!(check_geometry(0, 1), Ok(()));
    assert_eq!(check_geometry(0, 240), Ok(()));
    assert_eq!(check_geometry(0, usize::MAX), Ok(()));
    assert_eq!(check_geometry(0, 0), Err(GeometryError::ZeroHeight));
}

#[test]
fn geometry_with_height_zero_is_refused() {
    assert_eq!(check_geometry(12, 0), Err(GeometryError::ZeroHeight));
    assert_eq!(check_geometry(13, 0), Err(GeometryError::ZeroHeight));
}

#[test]
fn geometry_with_a_partial_pixel_is_refused() {
    assert_eq!(check_geometry(13, 2), Err(GeometryError::PartialPixel));
    assert_eq!(check_geometry(14, 1), Err(GeometryError::PartialPixel));
    assert_eq!(check_geometry(1, 1), Err(GeometryError::PartialPixel));
    assert_eq!(check_geometry(usize::MAX - 1, usize::MAX), Err(GeometryError::PartialPixel));
}

#[test]
fn geometry_with_a_partial_row_is_refused() {
    assert_eq!(check_geometry(9, 2), Err(GeometryError::PartialRow));
    assert_eq!(check_geometry(12, 3), Err(GeometryError::PartialRow));
    assert_eq!(check_geometry(12, 5), Err(GeometryError::PartialRow));
    assert_eq!(check_geometry(3, 2), Err(GeometryError::PartialRow));
    assert_eq!(check_geometry(230400, 241), Err(GeometryError::PartialRow));
    assert_eq!(check_geometry(3, usize::MAX), Err(GeometryError::PartialRow));
}

#[test]
fn a_malformed_image_gives_no_image_set() {
    assert_eq!(ImageSet::new(six_pixels(), 0).err(), Some(GeometryError::ZeroHeight));
    assert_eq!(ImageSet::new(six_pixels(), 4).err(), Some(GeometryError::PartialRow));
    assert_eq!(ImageSet::new(six_pixels(), 7).err(), Some(GeometryError::PartialRow));
    assert_eq!(ImageSet::new(vec![1, 2, 3, 4], 1).err(), Some(GeometryError::PartialPixel));
    assert_eq!(ImageSet::new(vec![1, 2], 2).err(), Some(GeometryError::PartialPixel));
}

#[test]
fn an_image_set_keeps_what_it_was_made_from() {
    let images: ImageSet = ImageSet::new(six_pixels(), 3).unwrap();
    assert_eq!(images.original(), &six_pixels()[..]);
    assert_eq!(images.height(), 3);
    assert_eq!(images.width(), 2);
    assert_eq!(images.len(), 18);
}

#[test]
fn a_screen_sized_image_has_the_width_of_the_screen() {
    let images: ImageSet = ImageSet::new(vec![0; 230400], 240).unwrap();
    assert_eq!(images.height(), 240);
    assert_eq!(images.width(), 320);
    assert_eq!(images.len(), 320 * 240 * 3);
}

#[test]
fn an_image_set_holds_the_three_mirror_images() {
    let images: ImageSet = ImageSet::new(six_pixels(), 3).unwrap();
    assert_eq!(images.image(ImageState::Original), &six_pixels()[..]);
    assert_eq!(
        images.image(ImageState::FlippedVertically),
        &[50, 51, 52, 40, 41, 42, 30, 31, 32, 20, 21, 22, 10, 11, 12, 0, 1, 2][..]
    );
    assert_eq!(
        images.image(ImageState::FlippedHorizontally),
        &[30, 31, 32, 40, 41, 42, 50, 51, 52, 0, 1, 2, 10, 11, 12, 20, 21, 22][..]
    );
    assert_eq!(
        images.image(ImageState::FlippedVerticallyAndHorizontally),
        &[20, 21, 22, 10, 11, 12, 0, 1, 2, 50, 51, 52, 40, 41, 42, 30, 31, 32][..]
    );
}

#[test]
fn an_image_set_agrees_with_the_mirror_functions() {
    let original: Vec<u8> = six_pixels();
    let images: ImageSet = ImageSet::new(original.clone(), 2).unwrap();
    assert_eq!(images.image(ImageState::FlippedVertically), &mirror_pixels(&original)[..]);
    assert_eq!(images.image(ImageState::FlippedHorizontally), &mirror_rows(&original, 2)[..]);
    assert_eq!(
        images.image(ImageState::FlippedVerticallyAndHorizontally),
        &mirror_both(&original, 2)[..]
    );
}

#[test]
fn all_views_of_an_image_have_its_length() {
    let images: ImageSet = ImageSet::new(six_pixels(), 2).unwrap();
    assert_eq!(images.image(ImageState::Original).len(), 18);
    assert_eq!(images.image(ImageState::FlippedVertically).len(), 18);
    assert_eq!(images.image(ImageState::FlippedHorizontally).len(), 18);
    assert_eq!(images.image(ImageState::FlippedVerticallyAndHorizontally).len(), 18);
}

#[test]
fn an_empty_image_has_four_empty_views() {
    let images: ImageSet = ImageSet::new(Vec::new(), 240).unwrap();
    assert_eq!(images.len(), 0);
    assert_eq!(images.height(), 240);
    assert_eq!(images.width(), 0);
    assert!(images.image(ImageState::Original).is_empty());
    assert!(images.image(ImageState::FlippedVertically).is_empty());
    assert!(images.image(ImageState::FlippedHorizontally).is_empty());
    assert!(images.image(ImageState::FlippedVerticallyAndHorizontally).is_empty());
}

#[test]
fn the_state_picks_among_the_four_buffers() {
    let image: [u8; 3] = [1, 1, 1];
    let vertically: [u8; 3] = [2, 2, 2];
    let horizontally: [u8; 3] = [3, 3, 3];
    let both: [u8; 3] = [4, 4, 4];
    assert_eq!(
        image_state_to_image_bytes(
            &ImageState::Original,
            &image,
            &vertically,
            &horizontally,
            &both
        ),
        &image[..]
    );
    assert_eq!(
        image_state_to_image_bytes(
            &ImageState::FlippedVertically,
            &image,
            &vertically,
            &horizontally,
            &both
        ),
        &vertically[..]
    );
    assert_eq!(
        image_state_to_image_bytes(
            &ImageState::FlippedHorizontally,
            &image,
            &vertically,
            &horizontally,
            &both
        ),
        &horizontally[..]
    );
    assert_eq!(
        image_state_to_image_bytes(
            &ImageState::FlippedVerticallyAndHorizontally,
            &image,
            &vertically,
            &horizontally,
            &both
        ),
        &both[..]
    );
}

#[test]
fn toggling_a_flip_mirrors_the_view_that_is_shown() {
    let images: ImageSet = ImageSet::new(six_pixels(), 3).unwrap();
    let states: [ImageState; 4] = [
        ImageState::Original,
        ImageState::FlippedVertically,
        ImageState::FlippedHorizontally,
        ImageState::FlippedVerticallyAndHorizontally,
    ];
    for state in states {
        let shown: &[u8] = images.image(state);
        assert_eq!(images.image(state.toggle_vertically()), &mirror_pixels(shown)[..]);
        assert_eq!(images.image(state.toggle_horizontally()), &mirror_rows(shown, 3)[..]);
    }
}

#[test]
fn a_session_of_ticks_shows_the_expected_views() {
    let images: ImageSet = ImageSet::new(six_pixels(), 3).unwrap();
    let mut state: ImageState = ImageState::new();
    assert_eq!(images.image(state), images.original());
    keypad_handle_tick(true, false, &mut state);
    assert_eq!(images.image(state), &mirror_pixels(&six_pixels())[..]);
    keypad_handle_tick(false, true, &mut state);
    assert_eq!(images.image(state), &mirror_both(&six_pixels(), 3)[..]);
    keypad_handle_tick(false, false, &mut state);
    assert_eq!(images.image(state), &mirror_both(&six_pixels(), 3)[..]);
    keypad_handle_tick(true, true, &mut state);
    assert_eq!(images.image(state), images.original());
}

#[test]
fn next_frame_moves_the_state_and_hands_out_its_view() {
    let images: ImageSet = ImageSet::new(six_pixels(), 3).unwrap();
    let mut state: ImageState = ImageState::new();
    assert_eq!(images.next_frame(false, false, &mut state), images.original());
    assert_eq!(state, ImageState::Original);
    assert_eq!(images.next_frame(false, true, &mut state), &mirror_rows(&six_pixels(), 3)[..]);
    assert_eq!(state, ImageState::FlippedHorizontally);
    assert_eq!(images.next_frame(true, false, &mut state), &mirror_both(&six_pixels(), 3)[..]);
    assert_eq!(state, ImageState::FlippedVerticallyAndHorizontally);
    assert_eq!(images.next_frame(true, true, &mut state), images.original());
    assert_eq!(state, ImageState::Original);
    assert_eq!(images.next_frame(true, false, &mut state), &mirror_pixels(&six_pixels())[..]);
    assert_eq!(state, ImageState::FlippedVertically);
}

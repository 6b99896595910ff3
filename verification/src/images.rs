//! The four views of one image, made once and looked up by orientation.
use crate::mirror::{
    lemma_whole_rows_are_whole_pixels, mirror_pixels, mirror_rows, mirrored_both,
    mirrored_pixels, mirrored_rows, whole_pixels, whole_rows, BYTES_PER_PIXEL,
};
use crate::mirror_laws::{
    lemma_mirrored_pixels_involution, lemma_mirrored_rows_involution, lemma_mirrors_commute,
};
use crate::state::{keypad_handle_tick, ImageState};
use vstd::arithmetic::div_mod::{lemma_fundamental_div_mod, lemma_mod_breakdown};
use vstd::prelude::*;

verus! {

/// Why a buffer and a height do not describe an image.
#[derive(Clone, Copy, Debug, PartialEq, Eq, Hash, Structural)]
pub enum GeometryError {
    /// The height is zero.
    ZeroHeight,
    /// The buffer does not end on a pixel boundary.
    PartialPixel,
    /// The buffer is made of whole pixels, which do not fill whole rows.
    PartialRow,
}

/// What is wrong with a buffer of `len` bytes as an image with rows of
/// `height` pixels, if anything is.
pub open spec fn geometry_fault(len: int, height: int) -> Option<GeometryError> {
    if height <= 0 {
        Some(GeometryError::ZeroHeight)
    } else if !whole_pixels(len) {
        Some(GeometryError::PartialPixel)
    } else if !whole_rows(len, height) {
        Some(GeometryError::PartialRow)
    } else {
        None
    }
}

/// The view of `buffer`, an image with rows of `height` pixels, that is
/// shown in `state`.
pub open spec fn oriented(buffer: Seq<u8>, height: int, state: ImageState) -> Seq<u8> {
    match state {
        ImageState::Original => buffer,
        ImageState::FlippedVertically => mirrored_pixels(buffer),
        ImageState::FlippedHorizontally => mirrored_rows(buffer, height),
        ImageState::FlippedVerticallyAndHorizontally => mirrored_both(buffer, height),
    }
}

/// A buffer is a whole number of rows exactly if it is a whole number of
/// pixels and these pixels fill whole rows.
pub proof fn lemma_rows_of_pixels(len: int, height: int)
    requires
        0 <= len,
        0 < height,
    ensures
        whole_rows(len, height) <==> whole_pixels(len) && (len / (BYTES_PER_PIXEL as int)) % height
            == 0,
{
    lemma_mod_breakdown(len, BYTES_PER_PIXEL as int, height);
}

/// Tells whether a buffer of `len` bytes is an image with rows of `height`
/// pixels, and if it is not, why.
pub fn check_geometry(len: usize, height: usize) -> (result: Result<(), GeometryError>)
    ensures
        result is Ok <==> whole_rows(len as int, height as int),
        geometry_fault(len as int, height as int) == match result {
            Ok(_) => None,
            Err(fault) => Some(fault),
        },
{
    if height == 0 {
        return Err(GeometryError::ZeroHeight);
    }
    if len % BYTES_PER_PIXEL != 0 {
        proof {
            if whole_rows(len as int, height as int) {
                lemma_whole_rows_are_whole_pixels(len as int, height as int);
            }
        }
        return Err(GeometryError::PartialPixel);
    }
    proof {
        lemma_rows_of_pixels(len as int, height as int);
    }
    if (len / BYTES_PER_PIXEL) % height != 0 {
        return Err(GeometryError::PartialRow);
    }
    Ok(())
}

/// Picks the view that `image_state` selects among the image as it was
/// loaded and its three mirror images.
pub fn image_state_to_image_bytes<'a>(
    image_state: &ImageState,
    image: &'a [u8],
    image_flipped_vertically: &'a [u8],
    image_flipped_horizontally: &'a [u8],
    image_flipped_vertically_and_horizontally: &'a [u8],
) -> (image_bytes: &'a [u8])
    ensures
        image_bytes@ == match *image_state {
            ImageState::Original => image@,
            ImageState::FlippedVertically => image_flipped_vertically@,
            ImageState::FlippedHorizontally => image_flipped_horizontally@,
            ImageState::FlippedVerticallyAndHorizontally => {
                image_flipped_vertically_and_horizontally@
            },
        },
{
    match image_state {
        ImageState::Original => image,
        ImageState::FlippedVertically => image_flipped_vertically,
        ImageState::FlippedHorizontally => image_flipped_horizontally,
        ImageState::FlippedVerticallyAndHorizontally => image_flipped_vertically_and_horizontally,
    }
}

/// An image is described by its bytes and the number of pixels in a row.
pub struct ImageSetView {
    pub original: Seq<u8>,
    pub height: nat,
}

/// An image together with its three mirror images.
pub struct ImageSet {
    original: Vec<u8>,
    flipped_vertically: Vec<u8>,
    flipped_horizontally: Vec<u8>,
    flipped_vertically_and_horizontally: Vec<u8>,
    height: usize,
}

impl View for ImageSet {
    type V = ImageSetView;

    closed spec fn view(&self) -> ImageSetView {
        ImageSetView { original: self.original@, height: self.height as nat }
    }
}

impl ImageSet {
    /// The image is a whole number of rows, and each mirror image is the
    /// mirror image of the original that its name says.
    #[verifier::type_invariant]
    spec fn well_formed(&self) -> bool {
        &&& whole_rows(self.original@.len() as int, self.height as int)
        &&& self.flipped_vertically@ == mirrored_pixels(self.original@)
        &&& self.flipped_horizontally@ == mirrored_rows(self.original@, self.height as int)
        &&& self.flipped_vertically_and_horizontally@ == mirrored_both(
            self.original@,
            self.height as int,
        )
    }

    /// Takes `original` as an image with rows of `height` pixels and makes
    /// its three mirror images. A buffer that is not such an image is
    /// refused, and no mirror image of it is made.
    pub fn new(original: Vec<u8>, height: usize) -> (result: Result<ImageSet, GeometryError>)
        ensures
            result is Ok <==> whole_rows(original@.len() as int, height as int),
            geometry_fault(original@.len() as int, height as int) == match result {
                Ok(_) => None,
                Err(fault) => Some(fault),
            },
            result matches Ok(images) ==> images@.original == original@ && images@.height
                == height,
    {
        match check_geometry(original.len(), height) {
            Err(fault) => Err(fault),
            Ok(_) => {
                proof {
                    lemma_whole_rows_are_whole_pixels(original@.len() as int, height as int);
                }
                let flipped_vertically: Vec<u8> = mirror_pixels(original.as_slice());
                // What we do is take the rows and reverse them.
                let flipped_horizontally: Vec<u8> = mirror_rows(original.as_slice(), height);
                let flipped_vertically_and_horizontally: Vec<u8> = mirror_pixels(
                    flipped_horizontally.as_slice(),
                );
                Ok(
                    ImageSet {
                        original,
                        flipped_vertically,
                        flipped_horizontally,
                        flipped_vertically_and_horizontally,
                        height,
                    },
                )
            },
        }
    }

    /// The image as it was loaded.
    pub fn original(&self) -> (bytes: &[u8])
        ensures
            bytes@ == self@.original,
    {
        self.original.as_slice()
    }

    /// The number of pixels in a row. The image is a whole number of such
    /// rows.
    pub fn height(&self) -> (height: usize)
        ensures
            height == self@.height,
            whole_rows(self@.original.len() as int, height as int),
    {
        proof {
            use_type_invariant(self);
        }
        self.height
    }

    /// The number of rows. The image holds `width` rows of `height` pixels,
    /// and nothing else.
    pub fn width(&self) -> (width: usize)
        ensures
            self@.original.len() == width * self@.height * BYTES_PER_PIXEL,
    {
        proof {
            use_type_invariant(self);
            lemma_rows_of_pixels(self.original@.len() as int, self.height as int);
            let pixels = self.original@.len() as int / (BYTES_PER_PIXEL as int);
            lemma_fundamental_div_mod(pixels, self.height as int);
            assert((pixels / (self.height as int)) * self.height == self.height * (pixels / (
                self.height as int))) by (nonlinear_arith);
        }
        self.original.len() / BYTES_PER_PIXEL / self.height
    }

    /// The number of bytes in the image, and in each of its views.
    pub fn len(&self) -> (len: usize)
        ensures
            len == self@.original.len(),
    {
        self.original.len()
    }

    /// The view of the image that is shown in `state`.
    pub fn image(&self, state: ImageState) -> (bytes: &[u8])
        ensures
            bytes@ == oriented(self@.original, self@.height as int, state),
            bytes@.len() == self@.original.len(),
    {
        proof {
            use_type_invariant(self);
        }
        image_state_to_image_bytes(
            &state,
            self.original.as_slice(),
            self.flipped_vertically.as_slice(),
            self.flipped_horizontally.as_slice(),
            self.flipped_vertically_and_horizontally.as_slice(),
        )
    }

    /// Handles one tick of input and picks the view to show after it: button
    /// A toggles the vertical flip of `image_state` and button B the
    /// horizontal one, and the view that the new state selects is handed
    /// out.
    pub fn next_frame<'a>(
        &'a self,
        a_pressed: bool,
        b_pressed: bool,
        image_state: &mut ImageState,
    ) -> (image_bytes: &'a [u8])
        ensures
            *final(image_state) == ImageState::with_flips(
                old(image_state).flipped_vertically() != a_pressed,
                old(image_state).flipped_horizontally() != b_pressed,
            ),
            image_bytes@ == oriented(self@.original, self@.height as int, *final(image_state)),
            image_bytes@.len() == self@.original.len(),
    {
        keypad_handle_tick(a_pressed, b_pressed, image_state);
        self.image(*image_state)
    }
}

/// Every view of an image is as long as the image.
pub proof fn lemma_oriented_length(buffer: Seq<u8>, height: int, state: ImageState)
    ensures
        oriented(buffer, height, state).len() == buffer.len(),
{
}

/// Toggling a flip mirrors the view that is shown: the vertical flip
/// mirrors its pixels, the horizontal flip its rows.
pub proof fn lemma_toggle_mirrors_view(buffer: Seq<u8>, height: int, state: ImageState)
    requires
        whole_rows(buffer.len() as int, height),
    ensures
        oriented(buffer, height, state.toggled_vertically()) == mirrored_pixels(
            oriented(buffer, height, state),
        ),
        oriented(buffer, height, state.toggled_horizontally()) == mirrored_rows(
            oriented(buffer, height, state),
            height,
        ),
{
    let len = buffer.len() as int;
    lemma_whole_rows_are_whole_pixels(len, height);
    lemma_mirrors_commute(buffer, height);
    lemma_mirrored_pixels_involution(buffer);
    lemma_mirrored_rows_involution(buffer, height);
    lemma_mirrored_pixels_involution(mirrored_rows(buffer, height));
    lemma_mirrored_rows_involution(mirrored_pixels(buffer), height);
}

} // verus!

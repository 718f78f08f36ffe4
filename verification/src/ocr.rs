//! The recognition capability: anything that can turn a bitmap into text.
//! Implementations live with the embedding program (a real model) or with
//! tests (a stub); the scanner promises nothing about the text they
//! return, and its logic is verified for every possible outcome.

use vstd::prelude::*;

verus! {

/// Image-to-text recognition over some image type.  The error is carried
/// as a plain message.
pub trait ImageToText<ImageType> {
    /// Recognize one line of text in the image.
    fn image_to_text(&self, image: &ImageType, is_preprocessed: bool) -> Result<String, String>;

    /// Same, with preprocessing tuned for a low-contrast pending sub-stat
    /// line; by default, ordinary recognition of the unpreprocessed image.
    fn image_to_text_pending_line(&self, image: &ImageType) -> Result<String, String> {
        self.image_to_text(image, false)
    }

    /// Average inference time so far, in milliseconds, when known.
    fn get_average_inference_time(&self) -> Option<u64>;
}

} // verus!

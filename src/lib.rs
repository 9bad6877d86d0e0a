//! Capture a display, upscale the captured pixels by a factor in `[1, 5]`,
//! and hand the result to the caller to be written out.
//!
//! Everything that touches the operating system (enumerating displays,
//! grabbing a framebuffer, writing a file) is performed by the caller; the
//! library decides what to do next and computes what is to be written.

mod display;
mod error;
mod pipeline;
mod pixels;
mod scale;

pub use display::{
    at_origin, decimal, describe_screens, describes, digit_char, display_label, display_name,
    first_at_origin, first_flagged, first_with_id, has_choice, index_of_id, is_choice,
    is_primary_choice, lemma_no_displays, lemma_primary_at_origin, lemma_primary_choice_unique,
    lemma_primary_fallback, lemma_unknown_id, missing_error, primary_index, select_screen,
    Display, ScreenInfo, Selector,
};
pub use error::CaptureError;
pub use pipeline::{
    default_file_name, lemma_finished_job_is_idle, Action, CaptureJob, Event, Stage,
    SCALE_TWO_BITS,
};
pub use pixels::PixelBuffer;
pub use scale::{
    f64_exponent_field, f64_fraction_field, f64_is_finite, f64_magnitude_units, f64_negative,
    f64_units, fits_target, lemma_scaled_round_at_least, lemma_scaled_round_exact,
    scale_in_range, scaled_length, scaled_round, target_dimensions, valid_scale,
};

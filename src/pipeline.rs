//! A capture, step by step. The job decides; the caller performs each
//! action it asks for (query the displays, capture one, write a file) and
//! reports back with an event, until the job finishes.
use vstd::prelude::*;

use crate::display::{has_choice, is_choice, missing_error, select_screen, ScreenInfo, Selector};
use crate::error::CaptureError;
use crate::pixels::{resize_lanczos3, PixelBuffer};
use crate::scale::{
    fits_target, lemma_scaled_round_at_least, lemma_scaled_round_exact, lemma_valid_scale_fields,
    scale_in_range, scaled_round, target_dimensions, valid_scale,
};

verus! {

/// What a job waits for.
#[derive(Clone, Copy, Debug, PartialEq, Eq, Structural)]
pub enum Stage {
    AwaitDisplays,
    AwaitCapture,
    AwaitSave,
    Done,
}

/// What the caller has to do next.
#[derive(Debug, PartialEq, Eq)]
pub enum Action {
    /// List the attached displays.
    QueryDisplays,
    /// Capture the framebuffer of this display.
    Capture(ScreenInfo),
    /// Encode `image` and write it to `path`, replacing any file there.
    Save { image: PixelBuffer, path: String },
    /// The job is over: the absolute path written, or why it failed.
    Finish(Result<String, CaptureError>),
}

/// What the caller reports after performing an action.
#[derive(Debug, PartialEq, Eq)]
pub enum Event {
    /// The displays, in the order the operating system lists them.
    Displays(Vec<ScreenInfo>),
    DisplayQueryFailed,
    /// The captured framebuffer.
    Captured(PixelBuffer),
    CaptureFailed,
    /// The absolute path of the file written.
    Saved(String),
    SaveFailed,
}

/// One capture: which display, by what factor (the bits of an IEEE-754
/// binary64 number), and where the result goes.
#[derive(Clone, Debug)]
pub struct CaptureJob {
    pub selector: Selector,
    pub scale_bits: u64,
    pub destination: String,
    pub stage: Stage,
}

/// The bits of the binary64 number `2.0`.
pub const SCALE_TWO_BITS: u64 = 0x4000_0000_0000_0000;

impl CaptureJob {
    /// A job that still has work to do holds a scale in `[1, 5]`.
    pub open spec fn wf(&self) -> bool {
        self.stage != Stage::Done ==> valid_scale(self.scale_bits)
    }

    /// `e` answers the action that the job is waiting on.
    pub open spec fn awaits(&self, e: Event) -> bool {
        match self.stage {
            Stage::AwaitDisplays => e is Displays || e is DisplayQueryFailed,
            Stage::AwaitCapture => e is Captured || e is CaptureFailed,
            Stage::AwaitSave => e is Saved || e is SaveFailed,
            Stage::Done => false,
        }
    }

    /// Starts a capture. A scale that is not a number in `[1, 5]` ends the
    /// job at once with `InvalidScaleFactor`; otherwise the first action is
    /// to list the displays.
    pub fn new(selector: Selector, scale_bits: u64, destination: String) -> (r: (
        CaptureJob,
        Action,
    ))
        ensures
            r.0.wf(),
            r.0.selector == selector,
            r.0.scale_bits == scale_bits,
            r.0.destination@ == destination@,
            valid_scale(scale_bits) ==> r.0.stage == Stage::AwaitDisplays && r.1
                is QueryDisplays,
            !valid_scale(scale_bits) ==> r.0.stage == Stage::Done && r.1 == Action::Finish(
                Err(CaptureError::InvalidScaleFactor),
            ),
    {
        if scale_in_range(scale_bits) {
            (
                CaptureJob { selector, scale_bits, destination, stage: Stage::AwaitDisplays },
                Action::QueryDisplays,
            )
        } else {
            (
                CaptureJob { selector, scale_bits, destination, stage: Stage::Done },
                Action::Finish(Err(CaptureError::InvalidScaleFactor)),
            )
        }
    }

    /// The primary display, scaled by two, written to `destination`.
    pub fn primary_doubled(destination: String) -> (r: (CaptureJob, Action))
        ensures
            r.0.wf(),
            r.0.selector == Selector::Primary,
            r.0.scale_bits == SCALE_TWO_BITS,
            r.0.destination@ == destination@,
            r.0.stage == Stage::AwaitDisplays,
            r.1 is QueryDisplays,
    {
        proof {
            lemma_valid_scale_fields(SCALE_TWO_BITS);
            assert((0x4000_0000_0000_0000u64 >> 63u64) == 0) by (bit_vector);
            assert((0x4000_0000_0000_0000u64 >> 52u64) & 0x7ff == 1024) by (bit_vector);
        }
        CaptureJob::new(Selector::Primary, SCALE_TWO_BITS, destination)
    }

    /// Whether `step` may be given `e` now.
    pub fn accepts(&self, e: &Event) -> (r: bool)
        ensures
            r == (self.wf() && self.awaits(*e)),
    {
        let waiting = match self.stage {
            Stage::AwaitDisplays => matches!(e, Event::Displays(_) | Event::DisplayQueryFailed),
            Stage::AwaitCapture => matches!(e, Event::Captured(_) | Event::CaptureFailed),
            Stage::AwaitSave => matches!(e, Event::Saved(_) | Event::SaveFailed),
            Stage::Done => false,
        };
        waiting && (self.stage == Stage::Done || scale_in_range(self.scale_bits))
    }

    /// Takes the caller's report on the last action and says what to do
    /// next.
    ///
    /// - Displays listed: the display that the selector picks is to be
    ///   captured; if it picks none, the job fails with `NoDisplaysFound`
    ///   (primary display) or `MonitorNotFound` (an id).
    /// - Captured `w` by `h`: the image is resampled to `round(w * s)` by
    ///   `round(h * s)` and is to be saved at the destination; a size that
    ///   rounds to zero or cannot be held fails with `DegenerateTargetSize`.
    ///   A buffer whose bytes do not match its size is `CaptureFailed`.
    /// - Saved: the job finishes with the path written.
    /// - A failure reported by the caller finishes the job with the
    ///   matching error.
    pub fn step(&mut self, event: Event) -> (a: Action)
        requires
            old(self).wf(),
            old(self).awaits(event),
        ensures
            final(self).wf(),
            final(self).selector == old(self).selector,
            final(self).scale_bits == old(self).scale_bits,
            final(self).destination@ == old(self).destination@,
            // after listing the displays
            event is DisplayQueryFailed ==> final(self).stage == Stage::Done && a == Action::Finish(
                Err(CaptureError::DisplayQueryFailed),
            ),
            event matches Event::Displays(ds) ==> if has_choice(ds@, old(self).selector) {
                &&& final(self).stage == Stage::AwaitCapture
                &&& (a matches Action::Capture(s) && exists|i: int|
                    is_choice(ds@, old(self).selector, i) && s == ds@[i])
            } else {
                &&& final(self).stage == Stage::Done
                &&& a == Action::Finish(Err(missing_error(old(self).selector)))
            },
            // after capturing
            event is CaptureFailed ==> final(self).stage == Stage::Done && a == Action::Finish(
                Err(CaptureError::CaptureFailed),
            ),
            event matches Event::Captured(img) ==> if !img.wf() {
                &&& final(self).stage == Stage::Done
                &&& a == Action::Finish(Err(CaptureError::CaptureFailed))
            } else if !fits_target(
                scaled_round(img.width as nat, old(self).scale_bits),
                scaled_round(img.height as nat, old(self).scale_bits),
            ) {
                &&& final(self).stage == Stage::Done
                &&& a == Action::Finish(Err(CaptureError::DegenerateTargetSize))
            } else {
                &&& final(self).stage == Stage::AwaitSave
                &&& (a matches Action::Save { image, path } && {
                    &&& image.wf()
                    &&& image.width == scaled_round(img.width as nat, old(self).scale_bits)
                    &&& image.height == scaled_round(img.height as nat, old(self).scale_bits)
                    &&& (image.width == img.width && image.height == img.height
                        ==> image.pixels@ == img.pixels@)
                    &&& path@ == old(self).destination@
                })
            },
            // after saving
            event is SaveFailed ==> final(self).stage == Stage::Done && a == Action::Finish(
                Err(CaptureError::SaveFailed),
            ),
            event matches Event::Saved(p) ==> final(self).stage == Stage::Done && (a matches Action::Finish(
                Ok(q),
            ) && q@ == p@),
    {
        match event {
            Event::DisplayQueryFailed => {
                self.stage = Stage::Done;
                Action::Finish(Err(CaptureError::DisplayQueryFailed))
            },
            Event::Displays(ds) => match select_screen(&ds, self.selector) {
                Ok(s) => {
                    self.stage = Stage::AwaitCapture;
                    Action::Capture(s)
                },
                Err(e) => {
                    self.stage = Stage::Done;
                    Action::Finish(Err(e))
                },
            },
            Event::CaptureFailed => {
                self.stage = Stage::Done;
                Action::Finish(Err(CaptureError::CaptureFailed))
            },
            Event::Captured(img) => {
                assert(4 * (img.width as int) * (img.height as int) < 0x10_0000_0000_0000_0000)
                    by (nonlinear_arith)
                    requires
                        img.width <= u32::MAX,
                        img.height <= u32::MAX,
                ;
                let bytes: u128 = 4 * (img.width as u128) * (img.height as u128);
                if img.pixels.len() as u128 != bytes {
                    self.stage = Stage::Done;
                    return Action::Finish(Err(CaptureError::CaptureFailed));
                }
                match target_dimensions(img.width, img.height, self.scale_bits) {
                    Err(e) => {
                        self.stage = Stage::Done;
                        Action::Finish(Err(e))
                    },
                    Ok((tw, th)) => {
                        proof {
                            lemma_scaled_round_at_least(img.width as nat, self.scale_bits);
                            lemma_scaled_round_at_least(img.height as nat, self.scale_bits);
                            lemma_scaled_round_exact(0, self.scale_bits, 0);
                            assert(img.width > 0);
                            assert(img.height > 0);
                            assert(16 * img.width * th <= 16 * tw * th) by (nonlinear_arith)
                                requires
                                    img.width <= tw,
                            ;
                        }
                        let image = resize_lanczos3(img, tw, th);
                        self.stage = Stage::AwaitSave;
                        Action::Save { image, path: self.destination.clone() }
                    },
                }
            },
            Event::SaveFailed => {
                self.stage = Stage::Done;
                Action::Finish(Err(CaptureError::SaveFailed))
            },
            Event::Saved(p) => {
                self.stage = Stage::Done;
                Action::Finish(Ok(p))
            },
        }
    }
}

/// A finished job takes no further event, so it asks for no capture and no
/// write: whatever ended it, invalid scale, missing display or a failure,
/// ended the work.
pub proof fn lemma_finished_job_is_idle(job: CaptureJob, e: Event)
    requires
        job.stage == Stage::Done,
    ensures
        !job.awaits(e),
{
}

/// The name of the file that a capture of the primary display is written
/// to, in the working directory.
pub fn default_file_name() -> (r: &'static str)
    ensures
        r@ == "screenshot_scaled.png"@,
{
    "screenshot_scaled.png"
}

} // verus!

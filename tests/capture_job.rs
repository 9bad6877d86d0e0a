use screen_scale::{
    default_file_name, Action, CaptureError, CaptureJob, Event, PixelBuffer, ScreenInfo, Selector,
    Stage, SCALE_TWO_BITS,
};

fn screens() -> Vec<ScreenInfo> {
    vec![
        ScreenInfo { id: 1, x: 1920, y: 0, width: 3, height: 2, is_primary: false },
        ScreenInfo { id: 2, x: 0, y: 0, width: 2, height: 2, is_primary: false },
    ]
}

fn image(width: u32, height: u32) -> PixelBuffer {
    let mut pixels = Vec::new();
    for i in 0..(width * height) {
        pixels.extend_from_slice(&[(i * 40) as u8, 100, 200, 255]);
    }
    PixelBuffer { width, height, pixels }
}

fn started(sel: Selector, scale: f64) -> CaptureJob {
    let (job, action) = CaptureJob::new(sel, scale.to_bits(), "/tmp/out.png".to_string());
    assert_eq!(action, Action::QueryDisplays);
    assert_eq!(job.stage, Stage::AwaitDisplays);
    job
}

#[test]
fn invalid_scale_finishes_before_any_capture() {
    for scale in [0.5, 5.01, -1.0, f64::NAN] {
        let (job, action) =
            CaptureJob::new(Selector::Primary, scale.to_bits(), "/tmp/out.png".to_string());
        assert_eq!(action, Action::Finish(Err(CaptureError::InvalidScaleFactor)));
        assert_eq!(job.stage, Stage::Done);
        assert!(!job.accepts(&Event::Displays(screens())));
        assert!(!job.accepts(&Event::Captured(image(2, 2))));
    }
}

#[test]
fn full_run_doubles_the_primary_display() {
    let (mut job, action) = CaptureJob::primary_doubled("/work/screenshot_scaled.png".to_string());
    assert_eq!(action, Action::QueryDisplays);
    assert_eq!(job.scale_bits, 2.0f64.to_bits());
    assert_eq!(job.scale_bits, SCALE_TWO_BITS);
    let ev = Event::Displays(screens());
    assert!(job.accepts(&ev));
    assert_eq!(job.step(ev), Action::Capture(screens()[1]));
    let ev = Event::Captured(image(2, 2));
    assert!(job.accepts(&ev));
    match job.step(ev) {
        Action::Save { image, path } => {
            assert_eq!((image.width, image.height), (4, 4));
            assert_eq!(image.pixels.len(), 64);
            assert_eq!(path, "/work/screenshot_scaled.png");
        }
        other => panic!("unexpected action {:?}", other),
    }
    assert_eq!(job.stage, Stage::AwaitSave);
    let ev = Event::Saved("/work/screenshot_scaled.png".to_string());
    assert!(job.accepts(&ev));
    assert_eq!(job.step(ev), Action::Finish(Ok("/work/screenshot_scaled.png".to_string())));
    assert_eq!(job.stage, Stage::Done);
}

#[test]
fn produced_size_is_rounded_product() {
    let mut job = started(Selector::ById(1), 1.5);
    assert_eq!(job.step(Event::Displays(screens())), Action::Capture(screens()[0]));
    match job.step(Event::Captured(image(3, 2))) {
        Action::Save { image, .. } => {
            assert_eq!((image.width, image.height), (5, 3));
            assert_eq!(image.pixels.len(), 60);
        }
        other => panic!("unexpected action {:?}", other),
    }
}

#[test]
fn unit_scale_keeps_the_pixels() {
    let mut job = started(Selector::Primary, 1.0);
    job.step(Event::Displays(screens()));
    let captured = image(2, 2);
    match job.step(Event::Captured(captured.clone())) {
        Action::Save { image, .. } => assert_eq!(image, captured),
        other => panic!("unexpected action {:?}", other),
    }
}

#[test]
fn unknown_id_is_not_captured() {
    let mut job = started(Selector::ById(99), 2.0);
    assert_eq!(
        job.step(Event::Displays(screens())),
        Action::Finish(Err(CaptureError::MonitorNotFound))
    );
    assert_eq!(job.stage, Stage::Done);
    assert!(!job.accepts(&Event::Captured(image(2, 2))));
}

#[test]
fn no_displays_for_primary() {
    let mut job = started(Selector::Primary, 2.0);
    assert_eq!(
        job.step(Event::Displays(Vec::new())),
        Action::Finish(Err(CaptureError::NoDisplaysFound))
    );
}

#[test]
fn query_failure_is_reported() {
    let mut job = started(Selector::Primary, 2.0);
    assert_eq!(
        job.step(Event::DisplayQueryFailed),
        Action::Finish(Err(CaptureError::DisplayQueryFailed))
    );
}

#[test]
fn empty_capture_is_degenerate_and_not_saved() {
    let mut job = started(Selector::Primary, 2.0);
    job.step(Event::Displays(screens()));
    let empty = PixelBuffer { width: 0, height: 5, pixels: Vec::new() };
    assert_eq!(
        job.step(Event::Captured(empty)),
        Action::Finish(Err(CaptureError::DegenerateTargetSize))
    );
    assert!(!job.accepts(&Event::Saved("/tmp/out.png".to_string())));
}

#[test]
fn capture_failures_are_reported() {
    let mut job = started(Selector::Primary, 2.0);
    job.step(Event::Displays(screens()));
    assert_eq!(job.step(Event::CaptureFailed), Action::Finish(Err(CaptureError::CaptureFailed)));

    let mut job = started(Selector::Primary, 2.0);
    job.step(Event::Displays(screens()));
    let short = PixelBuffer { width: 2, height: 2, pixels: vec![0; 15] };
    assert_eq!(job.step(Event::Captured(short)), Action::Finish(Err(CaptureError::CaptureFailed)));
}

#[test]
fn save_failure_is_reported() {
    let mut job = started(Selector::Primary, 2.0);
    job.step(Event::Displays(screens()));
    job.step(Event::Captured(image(2, 2)));
    assert_eq!(job.step(Event::SaveFailed), Action::Finish(Err(CaptureError::SaveFailed)));
}

#[test]
fn events_out_of_turn_are_not_accepted() {
    let job = started(Selector::Primary, 2.0);
    assert!(!job.accepts(&Event::Captured(image(2, 2))));
    assert!(!job.accepts(&Event::SaveFailed));
    assert!(job.accepts(&Event::DisplayQueryFailed));
    let forged = CaptureJob {
        selector: Selector::Primary,
        scale_bits: 0.5f64.to_bits(),
        destination: String::new(),
        stage: Stage::AwaitDisplays,
    };
    assert!(!forged.accepts(&Event::DisplayQueryFailed));
}

#[test]
fn repeated_jobs_ask_for_the_same_work() {
    let run = || {
        let mut job = started(Selector::Primary, 2.0);
        job.step(Event::Displays(screens()));
        job.step(Event::Captured(image(2, 2)))
    };
    assert_eq!(run(), run());
}

#[test]
fn default_output_name() {
    assert_eq!(default_file_name(), "screenshot_scaled.png");
}

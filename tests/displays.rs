use screen_scale::{
    describe_screens, display_label, index_of_id, primary_index, select_screen, CaptureError,
    ScreenInfo, Selector,
};

fn screen(id: u32, x: i32, y: i32, width: u32, height: u32, is_primary: bool) -> ScreenInfo {
    ScreenInfo { id, x, y, width, height, is_primary }
}

#[test]
fn label_of_primary_and_other() {
    assert_eq!(display_label(1, 1920, 1080, true), "Display 1: 1920x1080 (primary)");
    assert_eq!(display_label(0, 800, 600, false), "Display 0: 800x600");
    assert_eq!(
        display_label(4294967295, 10, 0, false),
        "Display 4294967295: 10x0"
    );
}

#[test]
fn primary_prefers_origin_wherever_listed() {
    let ds = vec![
        screen(7, 1920, 0, 1280, 1024, false),
        screen(3, -1280, 0, 1280, 1024, false),
        screen(9, 0, 0, 1920, 1080, false),
    ];
    assert_eq!(primary_index(&ds), Some(2));
    assert_eq!(select_screen(&ds, Selector::Primary), Ok(ds[2]));
}

#[test]
fn primary_falls_back_to_first_listed() {
    let ds = vec![
        screen(7, 1920, 0, 1280, 1024, false),
        screen(3, -1280, 0, 1280, 1024, false),
    ];
    assert_eq!(primary_index(&ds), Some(0));
}

#[test]
fn primary_prefers_platform_flag() {
    let ds = vec![
        screen(1, 0, 0, 1920, 1080, false),
        screen(2, 1920, 0, 2560, 1440, true),
    ];
    assert_eq!(primary_index(&ds), Some(1));
}

#[test]
fn primary_of_nothing() {
    let ds: Vec<ScreenInfo> = Vec::new();
    assert_eq!(primary_index(&ds), None);
    assert_eq!(select_screen(&ds, Selector::Primary), Err(CaptureError::NoDisplaysFound));
}

#[test]
fn select_by_id() {
    let ds = vec![
        screen(10, 0, 0, 1920, 1080, true),
        screen(11, 1920, 0, 1280, 1024, false),
    ];
    assert_eq!(index_of_id(&ds, 11), Some(1));
    assert_eq!(select_screen(&ds, Selector::ById(11)), Ok(ds[1]));
    assert_eq!(index_of_id(&ds, 12), None);
    assert_eq!(select_screen(&ds, Selector::ById(12)), Err(CaptureError::MonitorNotFound));
    let none: Vec<ScreenInfo> = Vec::new();
    assert_eq!(select_screen(&none, Selector::ById(10)), Err(CaptureError::MonitorNotFound));
}

#[test]
fn listing_of_nothing_fails() {
    let ds: Vec<ScreenInfo> = Vec::new();
    assert_eq!(describe_screens(&ds), Err(CaptureError::NoDisplaysFound));
}

#[test]
fn listing_marks_one_primary() {
    let ds = vec![
        screen(5, 1920, 0, 1280, 1024, false),
        screen(6, 0, 0, 1920, 1080, false),
        screen(8, 0, 0, 800, 600, false),
    ];
    let listed = describe_screens(&ds).unwrap();
    assert_eq!(listed.len(), 3);
    assert_eq!(listed[0].id, 5);
    assert_eq!(listed[0].name, "Display 5: 1280x1024");
    assert!(!listed[0].is_primary);
    assert_eq!(listed[1].name, "Display 6: 1920x1080 (primary)");
    assert!(listed[1].is_primary);
    assert_eq!((listed[1].width, listed[1].height), (1920, 1080));
    assert!(!listed[2].is_primary);
    assert_eq!(listed[2].name, "Display 8: 800x600");
}

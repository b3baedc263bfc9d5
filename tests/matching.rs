use eve_reporting::clients::is_client_title;
use eve_reporting::config::Character;
use eve_reporting::event::Event;
use eve_reporting::frame::Frame;
use eve_reporting::image_checker::ImageChecker;
use eve_reporting::monitor::Monitor;
use eve_reporting::region::Region;
use eve_reporting::reminder::{advance_reminder, ReminderRegions};

/// A `width` x `height` black frame with the given pixels painted.
fn frame_with(width: u32, height: u32, painted: &[([u32; 2], [u8; 3])]) -> Frame {
    let mut data = vec![0u8; (width * height * 4) as usize];
    for (p, rgb) in painted {
        let i = ((p[1] * width + p[0]) * 4) as usize;
        data[i] = rgb[0];
        data[i + 1] = rgb[1];
        data[i + 2] = rgb[2];
        data[i + 3] = 255;
    }
    Frame::from_raw(width, height, data).unwrap()
}

fn region(start: [u32; 2], end: [u32; 2], rgb: Vec<[u8; 3]>) -> Region {
    Region { start, end, rgb }
}

fn collect(r: &Region) -> Vec<[u32; 2]> {
    let mut it = r.iter();
    let mut out = Vec::new();
    while let Some(p) = it.next() {
        out.push(p);
    }
    out
}

#[test]
fn frame_from_raw_checks_length() {
    assert!(Frame::from_raw(2, 2, vec![0; 15]).is_none());
    assert!(Frame::from_raw(2, 2, vec![0; 16]).is_some());
    assert!(Frame::from_raw(2, 2, vec![0; 20]).is_some());
    assert!(Frame::from_raw(0, 7, Vec::new()).is_some());
    let f = Frame::from_raw(3, 1, vec![0; 12]).unwrap();
    assert_eq!(f.width(), 3);
    assert_eq!(f.height(), 1);
}

#[test]
fn pixel_checks_ignore_alpha_and_bounds() {
    let f = frame_with(2, 2, &[([1, 0], [10, 20, 30])]);
    assert!(f.pixel_is(1, 0, [10, 20, 30]));
    assert!(!f.pixel_is(0, 1, [10, 20, 30]));
    assert!(!f.pixel_is(2, 0, [0, 0, 0]));
    assert!(!f.pixel_is(0, 2, [0, 0, 0]));
    assert!(f.check_point_rgb([0, 0], [0, 0, 0]));
    assert!(f.check_point_rgb_list([1, 0], &[[1, 1, 1], [10, 20, 30]]));
    assert!(!f.check_point_rgb_list([1, 0], &[]));
}

#[test]
fn points_are_column_major_and_inclusive() {
    let r = region([1, 5], [2, 7], vec![]);
    assert_eq!(
        collect(&r),
        vec![[1, 5], [1, 6], [1, 7], [2, 5], [2, 6], [2, 7]]
    );
}

#[test]
fn reversed_axes_still_visit_the_start() {
    assert_eq!(collect(&region([4, 4], [4, 4], vec![])), vec![[4, 4]]);
    assert_eq!(collect(&region([3, 9], [1, 2], vec![])), vec![[3, 9]]);
    assert_eq!(collect(&region([1, 9], [3, 2], vec![])), vec![[1, 9], [2, 9], [3, 9]]);
    assert_eq!(collect(&region([3, 1], [1, 2], vec![])), vec![[3, 1], [3, 2]]);
}

#[test]
fn iterator_stays_finished() {
    let r = region([0, 0], [0, 1], vec![]);
    let mut it = r.iter();
    assert_eq!(it.next(), Some([0, 0]));
    assert_eq!(it.next(), Some([0, 1]));
    assert_eq!(it.next(), None);
    assert_eq!(it.next(), None);
}

#[test]
fn region_matches_any_point_any_color() {
    let f = frame_with(4, 4, &[([2, 3], [9, 9, 9])]);
    assert!(region([0, 0], [3, 3], vec![[1, 1, 1], [9, 9, 9]]).check_in_image(&f));
    assert!(!region([0, 0], [3, 2], vec![[9, 9, 9]]).check_in_image(&f));
    assert!(!region([0, 0], [3, 3], vec![]).check_in_image(&f));
}

#[test]
fn single_point_region_depends_on_that_point() {
    let f = frame_with(3, 3, &[([1, 2], [5, 6, 7])]);
    assert!(region([1, 2], [1, 2], vec![[5, 6, 7]]).check_in_image(&f));
    assert!(!region([1, 2], [1, 2], vec![[5, 6, 8]]).check_in_image(&f));
    assert!(!region([1, 1], [1, 1], vec![[5, 6, 7]]).check_in_image(&f));
}

#[test]
fn points_outside_the_frame_never_match() {
    let f = frame_with(2, 2, &[]);
    // black is present everywhere inside the frame, but not outside it
    assert!(!region([2, 0], [5, 5], vec![[0, 0, 0]]).check_in_image(&f));
    assert!(!region([0, 2], [1, 9], vec![[0, 0, 0], [1, 2, 3]]).check_in_image(&f));
    assert!(region([1, 1], [5, 5], vec![[0, 0, 0]]).check_in_image(&f));
}

#[test]
fn reminder_fires_once_after_enemy_leaves() {
    let mut state = (false, false);
    assert!(!advance_reminder(&mut state, true, false));
    assert_eq!(state, (true, false));
    assert!(!advance_reminder(&mut state, false, true));
    assert_eq!(state, (true, true));
    assert!(advance_reminder(&mut state, false, false));
    assert_eq!(state, (false, false));
}

#[test]
fn reminder_without_enemy_stays_armed() {
    let mut state = (false, false);
    assert!(!advance_reminder(&mut state, true, false));
    assert!(!advance_reminder(&mut state, false, false));
    assert!(!advance_reminder(&mut state, false, false));
    assert_eq!(state, (true, false));
}

#[test]
fn reminder_transition_table() {
    let cases = [
        ((false, false), false, true, (false, false), false),
        ((false, false), true, true, (true, false), false),
        ((true, false), true, false, (true, false), false),
        ((true, true), false, true, (true, true), false),
        ((true, true), true, false, (false, false), true),
        ((false, true), true, false, (false, true), false),
    ];
    for (start, now, enemy, next, fired) in cases {
        let mut state = start;
        assert_eq!(advance_reminder(&mut state, now, enemy), fired);
        assert_eq!(state, next);
    }
}

fn character() -> Character {
    Character {
        title: "EVE - A".to_string(),
        warn_region: region([0, 0], [0, 0], vec![[255, 0, 0]]),
        reminder_regions: ReminderRegions {
            reminder_now_region: region([1, 0], [1, 0], vec![[0, 255, 0]]),
            reminder_enemy_region: region([2, 0], [2, 0], vec![[0, 0, 255]]),
        },
    }
}

#[test]
fn check_reminder_reads_the_frame() {
    let regions = character().reminder_regions;
    let now = frame_with(3, 1, &[([1, 0], [0, 255, 0])]);
    let enemy = frame_with(3, 1, &[([2, 0], [0, 0, 255])]);
    let blank = frame_with(3, 1, &[]);
    let mut state = (false, false);
    assert!(!regions.check_reminder(&enemy, &mut state));
    assert_eq!(state, (false, false));
    assert!(!regions.check_reminder(&now, &mut state));
    assert!(!regions.check_reminder(&enemy, &mut state));
    assert_eq!(state, (true, true));
    assert!(regions.check_reminder(&blank, &mut state));
    assert_eq!(state, (false, false));
}

#[test]
fn monitor_emits_warn_then_reminder() {
    let mut m = Monitor::new(character());
    let warn_now = frame_with(3, 1, &[([0, 0], [255, 0, 0]), ([1, 0], [0, 255, 0])]);
    let warn_enemy = frame_with(3, 1, &[([0, 0], [255, 0, 0]), ([2, 0], [0, 0, 255])]);
    let warn_only = frame_with(3, 1, &[([0, 0], [255, 0, 0])]);
    let blank = frame_with(3, 1, &[]);
    let warn = Event::Warn { title: "EVE - A".to_string() };
    let reminder = Event::Reminder { title: "EVE - A".to_string() };
    assert_eq!(m.on_frame(&warn_now), vec![warn.clone()]);
    assert_eq!(m.on_frame(&warn_enemy), vec![warn.clone()]);
    assert_eq!(m.reminder_state, (true, true));
    assert_eq!(m.on_frame(&warn_only), vec![warn.clone(), reminder.clone()]);
    assert_eq!(m.on_frame(&blank), Vec::<Event>::new());
    assert_eq!(m.reminder_state, (false, false));
}

#[test]
fn warn_fires_on_every_matching_frame() {
    let mut m = Monitor::new(character());
    let warn_only = frame_with(3, 1, &[([0, 0], [255, 0, 0])]);
    for _ in 0..3 {
        assert_eq!(m.on_frame(&warn_only).len(), 1);
    }
}

#[test]
fn client_titles_need_the_prefix() {
    assert!(is_client_title("EVE - Pilot"));
    assert!(is_client_title("EVE - "));
    assert!(!is_client_title("EVE -"));
    assert!(!is_client_title("eve - Pilot"));
    assert!(!is_client_title("Notepad"));
    assert!(!is_client_title(""));
}

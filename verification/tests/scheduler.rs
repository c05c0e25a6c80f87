use gpaper::application::Application;
use gpaper::config::{Accuracy, Config, DebugMode};
use gpaper::errors::Error;
use gpaper::image::{Image, ImageLocation, ImageStartTime};

fn entry(hour: u8, minute: u8, location: &str) -> Image {
    let start = ImageStartTime::from_hm(hour, minute).expect("valid time of day");
    Image::new(start, ImageLocation::new(String::from(location)))
}

fn at(hour: u8, minute: u8) -> ImageStartTime {
    ImageStartTime::from_hm(hour, minute).expect("valid time of day")
}

#[test]
fn attach_zero_descriptors_fails() {
    let app = Application::default();
    let r = app.set_images(Vec::new());
    assert_eq!(r.err(), Some(Error::TooImagesLoaded));
}

#[test]
fn attach_exactly_max_descriptors_fails() {
    let mut images = Vec::new();
    for i in 0..1440u32 {
        images.push(entry((i / 60) as u8, (i % 60) as u8, "/tmp/images/a.jpg"));
    }
    let app = Application::default();
    let r = app.set_images(images);
    assert_eq!(r.err(), Some(Error::TooImagesLoaded));
}

#[test]
fn attach_max_minus_one_descriptors_succeeds() {
    let mut images = Vec::new();
    for i in 0..1439u32 {
        images.push(entry((i / 60) as u8, (i % 60) as u8, "/tmp/images/a.jpg"));
    }
    let app = Application::default();
    let loaded = app.set_images(images).expect("one short of capacity is accepted");
    let exec = loaded.check().expect("non-empty schedule is accepted");
    assert_eq!(exec.images_len(), 1439);
}

#[test]
fn finalization_sorts_ascending() {
    let images = vec![
        entry(20, 0, "/tmp/images/evening.jpg"),
        entry(8, 0, "/tmp/images/morning.jpg"),
        entry(14, 0, "/tmp/images/afternoon.jpg"),
    ];
    let exec = Application::default()
        .set_images(images)
        .expect("accepted")
        .check()
        .expect("accepted");
    assert_eq!(exec.images_len(), 3);
    assert_eq!(exec.image(0).start().hour(), 8);
    assert_eq!(exec.image(1).start().hour(), 14);
    assert_eq!(exec.image(2).start().hour(), 20);
}

#[test]
fn finalization_keeps_insertion_order_of_equal_starts() {
    let images = vec![
        entry(12, 30, "/tmp/images/first.jpg"),
        entry(6, 0, "/tmp/images/dawn.jpg"),
        entry(12, 30, "/tmp/images/second.jpg"),
    ];
    let exec = Application::default()
        .set_images(images)
        .expect("accepted")
        .check()
        .expect("accepted");
    assert_eq!(exec.image(0).location().as_str(), "/tmp/images/dawn.jpg");
    assert_eq!(exec.image(1).location().as_str(), "/tmp/images/first.jpg");
    assert_eq!(exec.image(2).location().as_str(), "/tmp/images/second.jpg");
}

#[test]
fn single_entry_selected_regardless_of_now() {
    let images = vec![entry(12, 0, "/tmp/images/only.jpg")];
    let mut exec = Application::default()
        .set_images(images)
        .expect("accepted")
        .check()
        .expect("accepted");
    for &(h, m) in &[(0u8, 0u8), (11, 59), (12, 0), (23, 59)] {
        let plan = exec.plan(at(h, m));
        assert_eq!(plan.fast_apply, None);
        assert_eq!(plan.scan_apply, 0);
        assert_eq!(plan.new_cache, 0);
        exec.commit_selection(plan.new_cache);
    }
    // A cached selection changes nothing: the single entry stays selected.
    let plan = exec.plan(at(3, 3));
    assert_eq!(plan.fast_apply, None);
    assert_eq!(plan.scan_apply, 0);
}

#[test]
fn two_entries_morning_and_evening() {
    let images = vec![
        entry(8, 0, "/tmp/images/day.jpg"),
        entry(20, 0, "/tmp/images/night.jpg"),
    ];
    let exec = Application::default()
        .set_images(images)
        .expect("accepted")
        .check()
        .expect("accepted");

    let plan = exec.plan(at(9, 0));
    assert_eq!(plan.scan_apply, 0);
    assert_eq!(plan.new_cache, 0);

    let plan = exec.plan(at(21, 0));
    assert_eq!(plan.scan_apply, 1);
    assert_eq!(plan.new_cache, 1);

    // Before both starts: yesterday's final entry is applied, yet the cache
    // is set to index 0 - the recorded index/entry discrepancy, preserved.
    let plan = exec.plan(at(7, 0));
    assert_eq!(plan.scan_apply, 1);
    assert_eq!(plan.new_cache, 0);
}

#[test]
fn wraparound_to_first_entry() {
    let images = vec![
        entry(6, 0, "/tmp/images/sunrise.jpg"),
        entry(22, 0, "/tmp/images/night.jpg"),
    ];
    let mut exec = Application::default()
        .set_images(images)
        .expect("accepted")
        .check()
        .expect("accepted");
    // The previous evening's poll cached the 22:00 entry.
    exec.commit_selection(1);
    assert_eq!(exec.last_index(), Some(1));

    let plan = exec.plan(at(6, 30));
    // The fast branch crosses midnight to the 06:00 entry, and the full scan
    // does not revert the selection; the entry is applied twice in one poll.
    assert_eq!(plan.fast_apply, Some(0));
    assert_eq!(plan.scan_apply, 0);
    assert_eq!(plan.new_cache, 0);
}

#[test]
fn repeated_polls_in_same_window_are_idempotent() {
    let images = vec![
        entry(6, 0, "/tmp/images/sunrise.jpg"),
        entry(22, 0, "/tmp/images/night.jpg"),
    ];
    let mut exec = Application::default()
        .set_images(images)
        .expect("accepted")
        .check()
        .expect("accepted");

    let first = exec.plan(at(7, 0));
    assert_eq!(first.scan_apply, 0);
    exec.commit_selection(first.new_cache);

    // Later polls inside the same window select the same entry, and their
    // fast branch applies nothing, so the entry is applied exactly once.
    for &(h, m) in &[(7u8, 30u8), (12, 15), (21, 59)] {
        let again = exec.plan(at(h, m));
        assert_eq!(again.fast_apply, None);
        assert_eq!(again.scan_apply, first.scan_apply);
        assert_eq!(again.new_cache, first.new_cache);
        exec.commit_selection(again.new_cache);
    }
}

#[test]
fn poll_reads_a_valid_wall_clock_time() {
    let images = vec![entry(0, 0, "/tmp/images/always.jpg")];
    let exec = Application::default()
        .set_images(images)
        .expect("accepted")
        .check()
        .expect("accepted");
    let (now, plan) = exec.poll();
    assert!(now.hour() <= 23);
    assert!(now.minute() <= 59);
    assert_eq!(plan.scan_apply, 0);
    assert_eq!(plan.new_cache, 0);
}

#[test]
fn set_config_replaces_the_configuration() {
    let mut app = Application::default();
    let config = Config { debug_mode: DebugMode::Off, accuracy: Accuracy::Hourly, is_active: false };
    app.set_config(config);
    assert_eq!(*app.config(), config);
}

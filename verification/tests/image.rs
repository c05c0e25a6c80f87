use gpaper::errors::Error;
use gpaper::image::{Image, ImageLocation, ImageStartTime};

#[test]
fn parse_accepts_well_formed_times() {
    let t = ImageStartTime::parse("20:00").expect("well-formed time");
    assert_eq!(t.hour(), 20);
    assert_eq!(t.minute(), 0);

    let t = ImageStartTime::parse("00:00").expect("well-formed time");
    assert_eq!((t.hour(), t.minute()), (0, 0));

    let t = ImageStartTime::parse("23:59").expect("well-formed time");
    assert_eq!((t.hour(), t.minute()), (23, 59));
    assert_eq!(t.minutes_of_day(), 23 * 60 + 59);
}

#[test]
fn parse_rejects_malformed_times() {
    for s in ["", "8:00", "08:0", "080:0", "08-00", "ab:cd", "0800", "08:00 ", "24:00", "23:60"] {
        assert_eq!(ImageStartTime::parse(s).err(), Some(Error::ParseError), "input: {:?}", s);
    }
}

#[test]
fn from_hm_checks_both_bounds() {
    assert!(ImageStartTime::from_hm(23, 59).is_some());
    assert!(ImageStartTime::from_hm(0, 0).is_some());
    assert!(ImageStartTime::from_hm(24, 0).is_none());
    assert!(ImageStartTime::from_hm(0, 60).is_none());
}

#[test]
fn expand_replaces_the_home_prefix() {
    let home = String::from("/home/user");
    let r = ImageLocation::expand("~/pics/a.png", Some(&home)).expect("home is set");
    assert_eq!(r, "/home/user/pics/a.png");
}

#[test]
fn expand_without_home_fails_only_for_prefixed_locations() {
    assert_eq!(
        ImageLocation::expand("~/pics/a.png", None).err(),
        Some(Error::NoHomeVar)
    );
    let r = ImageLocation::expand("/tmp/pics/a.png", None).expect("no home needed");
    assert_eq!(r, "/tmp/pics/a.png");
}

#[test]
fn expand_leaves_plain_locations_unchanged() {
    let home = String::from("/home/user");
    let r = ImageLocation::expand("relative/pics/a.png", Some(&home)).expect("accepted");
    assert_eq!(r, "relative/pics/a.png");
}

#[test]
fn image_exposes_start_and_location() {
    let start = ImageStartTime::parse("20:00").expect("well-formed time");
    let location = ImageLocation::new(String::from("/tmp/images/mizo.jpeg"));
    let image = Image::new(start, location.clone());
    assert_eq!(image.start(), start);
    assert_eq!(*image.location(), location);
    assert_eq!(image.location().as_str(), "/tmp/images/mizo.jpeg");
}

use cuyat::catalog::{convert_line, convert_lines, greek_names_map, LineError};
use cuyat::fov::display_intensity_of;
use cuyat::sky::{Brightness, Sky, StarEntry};
use cuyat::vec3::Vec3;

const BET_LINE: &str = "2061 58Alp OriBD+07 1055  39801113271 224I   4506  Alp Ori  054945.4+072319055510.3+072425199.79-08.96 0.50  +1.85 +2.06 +1.28   M1-2Ia-Iab        e+0.026+0.009 +.005+021SB         9.9 174.4AE   6*";
const SIR_LINE: &str = "2491  9Alp CMaBD-16 1591  48915151881 257I   5423           064044.6-163444064508.9-164258227.22-08.88-1.46   0.00 -0.05 -0.03   A1Vm               -0.553-1.205 +.375-008SBO    13 10.3  11.2AB   4*";

fn entry(b: u32, name: &str) -> StarEntry {
    StarEntry {
        pos: Vec3::new(0, 0, 1_000_000),
        brightness: Brightness::new(b),
        name: String::from(name),
    }
}

fn names(sky: &Sky) -> Vec<&str> {
    sky.stars.iter().map(|e| e.name.as_str()).collect()
}

#[test]
fn test_convert_line() {
    let map = greek_names_map();
    assert_eq!(
        convert_line(&map, BET_LINE, 6500),
        Ok(Some(String::from("α Ori,055510.3,+072425,0.50")))
    );
    assert_eq!(
        convert_line(&map, SIR_LINE, 6500),
        Ok(Some(String::from("α CMa,064508.9,-164258,-1.46")))
    );
    // A star fainter than the cutoff is dropped, not an error.
    assert_eq!(convert_line(&map, BET_LINE, 400), Ok(None));
    assert_eq!(convert_line(&map, "not a catalog line", 6500), Err(LineError::Layout));
}

#[test]
fn test_convert_lines() {
    let map = greek_names_map();
    let lines = vec![String::from(BET_LINE), String::from(SIR_LINE)];
    let out = convert_lines(&map, &lines, 6500).unwrap();
    assert_eq!(out, vec![
        String::from("α Ori,055510.3,+072425,0.50"),
        String::from("α CMa,064508.9,-164258,-1.46"),
    ]);
    // With a cutoff between the two magnitudes only the brighter star
    // is kept.
    let out = convert_lines(&map, &lines, 0).unwrap();
    assert_eq!(out, vec![String::from("α CMa,064508.9,-164258,-1.46")]);
    // A malformed line stops the conversion with its index.
    let lines = vec![String::from(BET_LINE), String::from("broken")];
    assert_eq!(convert_lines(&map, &lines, 6500), Err((1, LineError::Layout)));
}

#[test]
fn test_from_entries_filter() {
    let sky = Sky::from_entries(vec![
        entry(10_000, "at the floor"),
        entry(10_001, "just above"),
        entry(0, "dark"),
        entry(500_000, "bright"),
    ]);
    assert_eq!(names(&sky), vec!["just above", "bright"]);
}

#[test]
fn test_brightest_downsampling() {
    let entries = || {
        vec![entry(300_000, "c"), entry(100_000, "a1"), entry(900_000, "d"), entry(100_000, "a2")]
    };
    // Ascending by brightness; entries of equal brightness keep their
    // relative order.
    let all = Sky::from(entries()).brightest(10);
    assert_eq!(names(&all), vec!["a1", "a2", "c", "d"]);
    // The two brightest, still ascending.
    let two = Sky::from(entries()).brightest(2);
    assert_eq!(names(&two), vec!["c", "d"]);
    // The selection is deterministic: the same input twice gives the
    // same result.
    let again = Sky::from(entries()).brightest(2);
    assert_eq!(two.stars, again.stars);
    // Asking for more stars than exist returns them all.
    let more = Sky::from(entries()).brightest(100);
    assert_eq!(names(&more), vec!["a1", "a2", "c", "d"]);
}

#[test]
fn test_display_intensity() {
    assert_eq!(display_intensity_of(&Brightness::new(0)), 128);
    assert_eq!(display_intensity_of(&Brightness::new(500_000)), 191);
    assert_eq!(display_intensity_of(&Brightness::new(1_000_000)), 255);
    // Brightness above one saturates instead of wrapping.
    assert_eq!(display_intensity_of(&Brightness::new(1_200_000)), 255);
}

#[test]
fn test_random_sky() {
    let sky = Sky::random_with_stars(30);
    assert_eq!(sky.len(), 30);
    for e in &sky.stars {
        assert!(-5_000_000 <= e.pos.x && e.pos.x < 5_000_000);
        assert!(-5_000_000 <= e.pos.y && e.pos.y < 5_000_000);
        assert!(-5_000_000 <= e.pos.z && e.pos.z < 5_000_000);
        assert!(e.brightness.micros < 1_000_000);
        assert!(!e.name.is_empty());
    }
    // The name sequence is deterministic: blank-or-Greek prefix crossed
    // with a Latin letter, the prefix cycling fastest.
    assert_eq!(sky.stars[0].name, " a");
    assert_eq!(sky.stars[1].name, "αa");
    assert_eq!(sky.stars[2].name, "βa");
    assert_eq!(sky.stars[24].name, "χa");
    assert_eq!(sky.stars[25].name, " b");
    assert_eq!(sky.stars[26].name, "αb");
    let other = Sky::random_with_stars(30);
    for (a, b) in sky.stars.iter().zip(other.stars.iter()) {
        assert_eq!(a.name, b.name);
    }
}

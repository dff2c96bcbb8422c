use cuyat::fixed::MICRO;
use cuyat::options::{get_help_lines, Options};
use cuyat::catalog::greek_names_map;
use cuyat::quat::Quat;
use cuyat::vec3::Vec3;

/// Micro-unit fixed-point value for a float, rounded to nearest.
fn micro(v: f64) -> i64 {
    (v * MICRO as f64).round() as i64
}

#[test]
fn test_help_lines() {
    let lines = get_help_lines();
    assert_eq!(lines.len(), 13);
    assert_eq!(lines[0], "y/Y  : yaw");
    assert_eq!(lines[12], "q    : end playing the game");
}

#[test]
fn test_greek_names_map() {
    let map = greek_names_map();
    assert_eq!(map.len(), 25);
    assert!(map.iter().any(|(abbr, glyph)| abbr == "Alp" && glyph == "α"));
    assert!(map.iter().any(|(abbr, glyph)| abbr == "   " && glyph == " "));
    assert!(map.iter().any(|(abbr, glyph)| abbr == "Chi" && glyph == "χ"));
}

#[test]
fn test_options_fields() {
    let options = Options {
        show_distance: false,
        show_star_names: true,
        catalog_filename: None,
        nstars: 400,
        show_help: false,
        only_target: false,
    };
    let copy = options.clone();
    assert!(copy.show_star_names);
    assert_eq!(copy.nstars, 400);
    assert!(copy.catalog_filename.is_none());
}

#[test]
fn test_rotate_quarter_turn_about_z() {
    // A 90-degree roll about the z axis maps (1,3,5) to (-3,1,5) and
    // (4,6,8) to (-6,4,8), within 1e-5.
    let half = (std::f64::consts::PI / 4.0).cos();
    let q = Quat::new(micro(half), 0, 0, micro(half));
    let check = |input: (f64, f64, f64), expect: (f64, f64, f64)| {
        let v = Vec3::new(micro(input.0), micro(input.1), micro(input.2));
        let r = q.rotate(&v);
        let dx = r.x as f64 / MICRO as f64 - expect.0;
        let dy = r.y as f64 / MICRO as f64 - expect.1;
        let dz = r.z as f64 / MICRO as f64 - expect.2;
        assert!((dx * dx + dy * dy + dz * dz).sqrt() < 1e-5);
    };
    check((1.0, 3.0, 5.0), (-3.0, 1.0, 5.0));
    check((4.0, 6.0, 8.0), (-6.0, 4.0, 8.0));
}

#[test]
fn test_rotate_roundtrip() {
    // Rotating by an attitude and then by its conjugate reproduces the
    // vector within the fixed-point tolerance.
    let q = Quat::new(600_000, 800_000, 0, 0);
    let v = Vec3::new(1_000_000, 3_000_000, 5_000_000);
    let there = q.rotate(&v);
    let back = q.conjugate().rotate(&there);
    assert!((back.x - v.x).abs() <= 4);
    assert!((back.y - v.y).abs() <= 4);
    assert!((back.z - v.z).abs() <= 4);
}

#[test]
fn test_sub_translation() {
    let v = Vec3::new(0, 1_000_000, 2_000_000);
    let p = Vec3::new(-1_000_000, -2_000_000, -3_000_000);
    let r = v.sub(&p);
    assert_eq!((r.x, r.y, r.z), (1_000_000, 3_000_000, 5_000_000));
}

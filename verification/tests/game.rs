use cuyat::catalog::{
    from_line, parse_converted_line, parse_original_line, CatalogFormat, CatalogRecord, LineError,
};
use cuyat::fixed::MICRO;
use cuyat::fov::{FoV, ScreenStar};
use cuyat::quat::Quat;
use cuyat::sky::{Brightness, Sky, StarEntry};
use cuyat::vec3::Vec3;

const BET_LINE: &str = "2061 58Alp OriBD+07 1055  39801113271 224I   4506  Alp Ori  054945.4+072319055510.3+072425199.79-08.96 0.50  +1.85 +2.06 +1.28   M1-2Ia-Iab        e+0.026+0.009 +.005+021SB         9.9 174.4AE   6*";
const SIR_LINE: &str = "2491  9Alp CMaBD-16 1591  48915151881 257I   5423           064044.6-163444064508.9-164258227.22-08.88-1.46   0.00 -0.05 -0.03   A1Vm               -0.553-1.205 +.375-008SBO    13 10.3  11.2AB   4*";
const BET_LINE_CONV: &str = "α Ori,055510.3,+072425,0.50";
const SIR_LINE_CONV: &str = "α CMa,064508.9,-164258,-1.46";

fn micro(v: f64) -> i64 {
    (v * MICRO as f64).round() as i64
}

fn star(x: f64, y: f64, z: f64, b: f64, name: &str) -> StarEntry {
    StarEntry {
        pos: Vec3::new(micro(x), micro(y), micro(z)),
        brightness: Brightness::new((b * MICRO as f64).round() as u32),
        name: String::from(name),
    }
}

fn stars() -> Vec<StarEntry> {
    vec![star(0.0, 1.0, 2.0, 0.5, "a"), star(3.0, 4.0, 5.0, 0.25, "b")]
}

fn euler_z(angle: f32) -> Quat {
    let (s, c) = ((angle / 2.0).sin(), (angle / 2.0).cos());
    Quat::new(micro(c as f64), 0, 0, micro(s as f64))
}

fn assert_close(v: Vec3, expect: (f64, f64, f64), tolerance: f64) {
    let dx = v.x as f64 / MICRO as f64 - expect.0;
    let dy = v.y as f64 / MICRO as f64 - expect.1;
    let dz = v.z as f64 / MICRO as f64 - expect.2;
    assert!((dx * dx + dy * dy + dz * dz).sqrt() < tolerance);
}

fn run_test_sky() {
    let sky = Sky::from(stars());
    assert_eq!(sky.len(), 2);
    let pos = Vec3::new(micro(-1.0), micro(-2.0), micro(-3.0));
    let from_pos = sky.seen_from(pos);
    assert_eq!(from_pos.len(), 2);
    assert_eq!(
        from_pos.stars,
        vec![star(1.0, 3.0, 5.0, 0.5, "a"), star(4.0, 6.0, 8.0, 0.25, "b")]
    );
    let q = euler_z(std::f32::consts::PI / 2.0);
    let rotated = from_pos.with_attitude(&q);
    assert_eq!(rotated.len(), 2);
    assert_close(rotated.stars[0].pos, (-3.0, 1.0, 5.0), 1e-5);
    assert_close(rotated.stars[1].pos, (-6.0, 4.0, 8.0), 1e-5);
}

#[test]
fn lib_test_sky() {
    run_test_sky();
}

#[test]
fn sky_test_sky() {
    run_test_sky();
}

fn run_test_fov() {
    let fov = FoV::new(micro(1.0), micro(2.5));
    let proj_stars = fov.project_sky(&Sky::from(stars()));
    assert_eq!((proj_stars[0].0.x, proj_stars[0].0.y), (0, micro(0.2)));
    assert_eq!((proj_stars[1].0.x, proj_stars[1].0.y), (micro(0.6), micro(0.32)));
}

#[test]
fn lib_test_fov() {
    run_test_fov();
}

#[test]
fn sky_test_fov() {
    run_test_fov();
}

fn visible(screen: Vec<ScreenStar>) -> Vec<(u8, u8)> {
    screen
        .into_iter()
        .filter_map(|s| match s {
            ScreenStar::Visible { x, y, .. } => Some((x, y)),
            ScreenStar::Hidden => None,
        })
        .collect()
}

#[test]
fn test_project() {
    let sky = Sky::from(stars());
    let fov = FoV::new(micro(1.0), micro(1.0));
    let p = visible(fov.project_sky_to_screen(sky.clone(), 60, 60));
    assert_eq!(p.len(), 2);
    assert_eq!(p[0], (30, 45));
    assert_eq!(p[1], (48, 54));

    let p = visible(FoV::new(micro(0.5), micro(0.51)).project_sky_to_screen(sky.clone(), 60, 60));
    assert_eq!(p.len(), 1);
    assert_eq!(p[0], (30, 59));

    let p = visible(FoV::new(micro(0.5), micro(0.5)).project_sky_to_screen(sky.clone(), 60, 60));
    assert_eq!(p.len(), 0);

    let p = visible(
        FoV::new(micro(0.5), micro(0.5)).project_sky_to_screen(
            sky.with_attitude(&euler_z(std::f32::consts::PI)),
            60,
            60,
        ),
    );
    assert_eq!(p.len(), 1);
    assert_eq!(p[0], (30, 0));
}

/// The reference brightness formula on floats, as a front-end computes
/// it before handing fixed-point values to the library.
fn brightness_for_magnitude(m: f32) -> f32 {
    0.01f32.powf((m - (-1.46f32)) / 5.0)
}

/// The reference direction-vector formula on floats.
fn direction_of(rec: &CatalogRecord) -> [f32; 3] {
    let rass = rec.ra_ds as f32 / 10.0;
    let ra = ((rec.ra_h as f32) * 15.0 + (rec.ra_m as f32) / 4.0 + rass / 240.0).to_radians();
    let sgn: f32 = if rec.dec_neg { -1.0 } else { 1.0 };
    let dec = sgn
        * ((rec.dec_d as f32) + (rec.dec_m as f32) / 60.0 + (rec.dec_s as f32) / 3600.0)
            .to_radians();
    [ra.cos() * dec.cos(), ra.sin() * dec.cos(), dec.sin()]
}

fn assert_relative_close(a: f32, b: f32) {
    let scale = a.abs().max(b.abs()).max(1.0);
    assert!((a - b).abs() <= f32::EPSILON * scale);
}

#[test]
fn lib_test_from_line() {
    let betelgeuse = parse_original_line(BET_LINE).unwrap();
    assert_eq!(betelgeuse.name, "Alp Ori");
    let exp_bet = [0.0208902f32, 0.9914355, 0.1289158];
    let dir = direction_of(&betelgeuse);
    for i in 0..3 {
        assert_relative_close(dir[i], exp_bet[i]);
    }
    assert_eq!(betelgeuse.mag_milli, 500);
    assert_eq!(
        brightness_for_magnitude(betelgeuse.mag_milli as f32 / 1000.0),
        brightness_for_magnitude(0.5)
    );

    let sirius = parse_original_line(SIR_LINE).unwrap();
    assert_eq!(sirius.name, "Alp CMa");
    let exp_sir = [-0.18745413f32, 0.93921775, -0.2876299];
    let dir = direction_of(&sirius);
    for i in 0..3 {
        assert_relative_close(dir[i], exp_sir[i]);
    }
    assert_eq!(sirius.mag_milli, -1460);
    assert_eq!(
        brightness_for_magnitude(sirius.mag_milli as f32 / 1000.0),
        brightness_for_magnitude(-1.46)
    );
}

#[test]
fn sky_test_from_line() {
    let betelgeuse = from_line(BET_LINE, CatalogFormat::Original).unwrap();
    let bet_conv = from_line(BET_LINE_CONV, CatalogFormat::Converted).unwrap();
    assert_eq!(betelgeuse.name, "Alp Ori");
    assert_eq!(bet_conv.name, "α Ori");
    assert_eq!((betelgeuse.ra_h, betelgeuse.ra_m, betelgeuse.ra_ds), (5, 55, 103));
    assert_eq!(
        (betelgeuse.dec_neg, betelgeuse.dec_d, betelgeuse.dec_m, betelgeuse.dec_s),
        (false, 7, 24, 25)
    );
    // The two formats decode the same physical star to the same record.
    assert_eq!(
        (bet_conv.ra_h, bet_conv.ra_m, bet_conv.ra_ds, bet_conv.dec_neg, bet_conv.dec_d,
            bet_conv.dec_m, bet_conv.dec_s, bet_conv.mag_milli),
        (betelgeuse.ra_h, betelgeuse.ra_m, betelgeuse.ra_ds, betelgeuse.dec_neg, betelgeuse.dec_d,
            betelgeuse.dec_m, betelgeuse.dec_s, betelgeuse.mag_milli),
    );

    let sirius = from_line(SIR_LINE, CatalogFormat::Original).unwrap();
    let sir_conv = from_line(SIR_LINE_CONV, CatalogFormat::Converted).unwrap();
    assert_eq!(sirius.name, "Alp CMa");
    assert_eq!(sir_conv.name, "α CMa");
    assert_eq!((sirius.ra_h, sirius.ra_m, sirius.ra_ds), (6, 45, 89));
    assert_eq!((sirius.dec_neg, sirius.dec_d, sirius.dec_m, sirius.dec_s), (true, 16, 42, 58));
    assert_eq!(sirius.mag_milli, -1460);
    assert_eq!(
        (sir_conv.ra_h, sir_conv.ra_m, sir_conv.ra_ds, sir_conv.dec_neg, sir_conv.dec_d,
            sir_conv.dec_m, sir_conv.dec_s, sir_conv.mag_milli),
        (sirius.ra_h, sirius.ra_m, sirius.ra_ds, sirius.dec_neg, sirius.dec_d, sirius.dec_m,
            sirius.dec_s, sirius.mag_milli),
    );
}

#[test]
fn test_brightness_monotonicity() {
    assert_eq!(brightness_for_magnitude(-1.46), 1.0);
    let samples = [-1.46f32, -1.0, 0.0, 0.5, 1.0, 3.54, 6.0];
    for pair in samples.windows(2) {
        assert!(brightness_for_magnitude(pair[0]) > brightness_for_magnitude(pair[1]));
    }
}

#[test]
fn test_parse_errors() {
    assert_eq!(parse_original_line("too short"), Err(LineError::Layout));
    assert_eq!(parse_converted_line("α Ori;055510.3,+072425,0.50"), Err(LineError::Layout));
    // A magnitude field of allowed characters that does not read as a
    // number.
    let mut bad = String::from(&BET_LINE[..103]);
    bad.push_str("..50");
    bad.push_str(&BET_LINE[107..]);
    assert_eq!(parse_original_line(&bad), Err(LineError::Magnitude));
}

use raytracing::camera::{Bounce, Camera, Radiance};
use raytracing::color::{level, linear_to_gamma};
use raytracing::scalar::Scalar;
use raytracing::text::push_decimal;
use raytracing::vec3::Vec3;

fn s(x: f64) -> Scalar {
    Scalar::from_bits(x.to_bits())
}

fn v(x: f64, y: f64, z: f64) -> Vec3 {
    Vec3 { x: s(x), y: s(y), z: s(z) }
}

fn camera(width: i32, height: i32) -> Camera {
    Camera {
        image_width: width,
        image_height: height,
        cam_center: v(0.0, 0.0, 0.0),
        pixel00_loc: v(-1.0, 1.0, -1.0),
        pixel_delta_u: v(0.01, 0.0, 0.0),
        pixel_delta_v: v(0.0, -0.01, 0.0),
        samples_per_pixel: 1,
        pixel_samples_scale: s(1.0),
        max_depth: 1,
        defocus_angle: s(0.0),
        defocus_disc_u: v(0.0, 0.0, 0.0),
        defocus_disc_v: v(0.0, 0.0, 0.0),
    }
}

fn gamma(x: f64) -> Scalar {
    linear_to_gamma(s(x))
}

#[test]
fn gamma_of_zero_and_below_is_zero() {
    assert_eq!(gamma(0.0).to_bits(), 0.0f64.to_bits());
    assert_eq!(gamma(-0.0).to_bits(), 0.0f64.to_bits());
    assert_eq!(gamma(-4.0).to_bits(), 0.0f64.to_bits());
    assert_eq!(gamma(f64::NAN).to_bits(), 0.0f64.to_bits());
}

#[test]
fn gamma_of_a_positive_channel_is_its_root() {
    assert_eq!(gamma(1.0), s(1.0));
    assert_eq!(gamma(0.25), s(0.5));
    assert_eq!(gamma(4.0), s(2.0));
    assert_eq!(gamma(2.0), s(std::f64::consts::SQRT_2));
    assert_eq!(gamma(f64::INFINITY), s(f64::INFINITY));
    assert_eq!(gamma(5e-324), s(2.2227587494850775e-162));
}

#[test]
fn gamma_agrees_with_the_numbers() {
    let mut x = 1.0e-3f64;
    while x < 1.5 {
        assert_eq!(gamma(x).to_bits(), x.sqrt().to_bits(), "{x}");
        x += 0.000937;
    }
}

#[test]
fn full_intensity_is_level_255() {
    assert_eq!(level(gamma(1.0)), 255);
    assert_eq!(level(s(0.999)), 255);
    assert_eq!(level(s(37.0)), 255);
    assert_eq!(level(s(f64::INFINITY)), 255);
}

#[test]
fn level_is_the_floor_of_256_times_the_channel() {
    assert_eq!(level(s(0.0)), 0);
    assert_eq!(level(s(-0.0)), 0);
    assert_eq!(level(s(-1.0)), 0);
    assert_eq!(level(s(f64::NAN)), 0);
    assert_eq!(level(s(5e-324)), 0);
    assert_eq!(level(s(0.00390624)), 0);
    assert_eq!(level(s(0.00390625)), 1);
    assert_eq!(level(s(0.0078125)), 2);
    assert_eq!(level(s(0.25)), 64);
    assert_eq!(level(s(0.5)), 128);
    assert_eq!(level(s(0.7)), 179);
    assert_eq!(level(s(0.99609375)), 255);
    assert_eq!(level(s(0.9960937)), 254);
}

#[test]
fn level_agrees_with_the_numbers() {
    let intensity = (0.0f64, 0.999f64);
    let mut x = -0.01f64;
    while x < 1.02 {
        let clamped = if x < intensity.0 {
            intensity.0
        } else if x > intensity.1 {
            intensity.1
        } else {
            x
        };
        assert_eq!(level(s(x)) as i32, (256.0 * clamped) as i32, "{x}");
        x += 0.000173;
    }
    for k in 0..256 {
        let edge = k as f64 / 256.0;
        assert_eq!(level(s(edge)) as i32, k.min(255));
        let below = f64::from_bits(edge.to_bits().wrapping_sub(1));
        if k > 0 {
            assert_eq!(level(s(below)) as i32, k - 1);
        }
    }
}

#[test]
fn decimal_is_written_without_leading_zeros() {
    for n in [0u32, 7, 9, 10, 11, 99, 100, 255, 256, 1000, 65535, 4294967295] {
        let mut text = String::from("x");
        push_decimal(&mut text, n);
        assert_eq!(text, format!("x{n}"));
    }
}

#[test]
fn pixel_becomes_a_line_of_three_levels() {
    assert_eq!(v(1.0, 0.5, 0.0).to_string(), "255 181 0\n");
    assert_eq!(v(0.25, 0.04, 2.0).to_string(), "128 51 255\n");
    assert_eq!(v(0.0625, 0.7, 0.001).to_string(), "64 214 8\n");
    assert_eq!(v(-1.0, f64::NAN, 0.999).to_string(), "0 0 255\n");
}

#[test]
fn header_names_the_format_and_the_size() {
    assert_eq!(camera(3, 2).header(), "P3\n3 2\n255\n");
    assert_eq!(camera(1200, 675).header(), "P3\n1200 675\n255\n");
}

#[test]
fn row_is_written_from_left_to_right() {
    let row = Camera::render_row(&vec![v(0.0, 0.0, 0.0), v(0.5, 0.5, 0.5), v(1.0, 0.0, 1.0)]);
    assert_eq!(row, "0 0 0\n181 181 181\n255 0 255\n");
    assert_eq!(Camera::render_row(&vec![]), "");
}

#[test]
fn image_is_the_header_and_the_rows_from_the_top() {
    let top = Camera::render_row(&vec![v(0.0, 0.0, 0.0), v(0.25, 0.25, 0.25)]);
    let bottom = Camera::render_row(&vec![v(0.5, 0.5, 0.5), v(1.0, 1.0, 1.0)]);
    let text = camera(2, 2).render(&vec![top, bottom]);
    assert_eq!(text, "P3\n2 2\n255\n0 0 0\n128 128 128\n181 181 181\n255 255 255\n");
}

#[test]
fn image_has_one_valid_line_for_each_pixel() {
    let (w, h) = (5usize, 3usize);
    let mut rows = Vec::new();
    for j in 0..h {
        let mut pixels = Vec::new();
        for i in 0..w {
            let c = s(0.5 * (i as f64 / w as f64 + j as f64 / h as f64));
            pixels.push(Vec3 { x: c, y: c, z: c });
        }
        rows.push(Camera::render_row(&pixels));
    }
    let text = camera(w as i32, h as i32).render(&rows);
    assert!(text.starts_with("P3\n5 3\n255\n"));
    let body: Vec<&str> = text["P3\n5 3\n255\n".len()..].lines().collect();
    assert_eq!(body.len(), w * h);
    for line in body {
        let levels: Vec<i32> = line.split(' ').map(|n| n.parse().unwrap()).collect();
        assert_eq!(levels.len(), 3);
        assert!(levels.iter().all(|n| (0..=255).contains(n)));
    }
    assert!(text.ends_with('\n'));
}

#[test]
fn path_without_bounces_is_black() {
    let black = Radiance::Fixed(v(0.0, 0.0, 0.0));
    for bounce in [Bounce::Miss, Bounce::Absorbed, Bounce::Scattered] {
        assert_eq!(Camera::ray_color(0, bounce), black);
        assert_eq!(Camera::ray_color(-3, bounce), black);
    }
    assert!(Camera::exhausted(0));
    assert!(Camera::exhausted(-1));
    assert!(!Camera::exhausted(1));
}

#[test]
fn absorbed_ray_is_black() {
    assert_eq!(Camera::ray_color(5, Bounce::Absorbed), Radiance::Fixed(v(0.0, 0.0, 0.0)));
}

#[test]
fn missed_ray_shows_the_sky() {
    assert_eq!(Camera::ray_color(1, Bounce::Miss), Radiance::Sky);
    assert_eq!(Camera::ray_color(50, Bounce::Miss), Radiance::Sky);
}

#[test]
fn scattered_ray_is_followed_with_one_bounce_less() {
    assert_eq!(Camera::ray_color(50, Bounce::Scattered), Radiance::Attenuated { depth: 49 });
    assert_eq!(Camera::ray_color(1, Bounce::Scattered), Radiance::Attenuated { depth: 0 });
    assert_eq!(
        Camera::ray_color(i32::MAX, Bounce::Scattered),
        Radiance::Attenuated { depth: i32::MAX - 1 }
    );
}

#[test]
fn ray_starts_at_the_centre_without_defocus() {
    let mut cam = camera(4, 4);
    let sample = v(0.1, 0.2, 0.0);
    assert_eq!(cam.ray_origin(sample), cam.cam_center);
    cam.defocus_angle = s(-1.0);
    assert_eq!(cam.ray_origin(sample), cam.cam_center);
    cam.defocus_angle = s(0.6);
    assert_eq!(cam.ray_origin(sample), sample);
}

#[test]
fn image_height_follows_the_aspect_ratio() {
    assert_eq!(Camera::image_height(s(1920.0 / (16.0 / 9.0))), 1080);
    assert_eq!(Camera::image_height(s(400.0 / (16.0 / 9.0))), 225);
    assert_eq!(Camera::image_height(s(100.0 / 3.0)), 33);
    assert_eq!(Camera::image_height(s(1.0)), 1);
    assert_eq!(Camera::image_height(s(1.999)), 1);
}

#[test]
fn image_height_is_at_least_one() {
    assert_eq!(Camera::image_height(s(10.0 / 100.0)), 1);
    assert_eq!(Camera::image_height(s(0.0)), 1);
    assert_eq!(Camera::image_height(s(-7.0)), 1);
    assert_eq!(Camera::image_height(s(f64::NAN)), 1);
    assert_eq!(Camera::image_height(s(f64::INFINITY)), i32::MAX);
    for q in [0.3, 1.0, 2.5, 224.99999, 1e12, f64::NAN] {
        assert_eq!(Camera::image_height(s(q)), f64::max(q, 1.0) as i32);
    }
}

#[test]
fn scene_is_seen_from_a_thousandth_on() {
    let range = Camera::visible_range();
    assert_eq!(range.min, s(0.001));
    assert_eq!(range.max, s(f64::INFINITY));
    assert!(!range.surrounds(s(0.001)));
    assert!(range.surrounds(s(0.0010000000000000002)));
    assert!(range.surrounds(s(1e300)));
}

#[test]
fn progress_is_due_every_tenth_row_and_at_the_end() {
    let cam = camera(4, 25);
    assert!(cam.progress_due(10));
    assert!(cam.progress_due(20));
    assert!(cam.progress_due(25));
    assert!(!cam.progress_due(1));
    assert!(!cam.progress_due(24));
    assert!(!cam.progress_due(19));
}

#[test]
fn camera_needs_pixels_and_samples() {
    assert!(camera(3, 2).is_well_formed());
    assert!(!camera(0, 2).is_well_formed());
    assert!(!camera(3, 0).is_well_formed());
    let mut cam = camera(3, 2);
    cam.samples_per_pixel = 0;
    assert!(!cam.is_well_formed());
    cam.samples_per_pixel = 1;
    cam.max_depth = -1;
    assert!(!cam.is_well_formed());
    cam.max_depth = 0;
    assert!(cam.is_well_formed());
}

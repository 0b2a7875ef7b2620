use fractal_render::escape::{
    Event, FractalType, Magnitude, Orbit, Request, JULIA_INTERIOR, JULIA_OFFSET,
    MANDELBROT_INTERIOR, MAX_ITERATIONS,
};
use num::complex::Complex;

fn compare_with_radius(magnitude: f64) -> Magnitude {
    if magnitude > 2.0 {
        Magnitude::Above
    } else if magnitude == 2.0 {
        Magnitude::Equal
    } else if magnitude < 2.0 {
        Magnitude::Below
    } else {
        Magnitude::Undefined
    }
}

fn smoothing_term(magnitude: f64) -> i64 {
    magnitude.ln().log2().floor() as i64
}

/// Runs the recurrence on `f64` and lets the tracker decide. Returns the
/// brightness and the number of steps that were applied.
fn classify(kind: FractalType, z0: Complex<f64>, c: Complex<f64>) -> (u8, u32) {
    let (mut v, constant) = match kind {
        FractalType::Mandelbrot => (Complex::new(0.0, 0.0), z0),
        FractalType::Julia => (z0, c),
    };
    let mut orbit = Orbit::start(kind);
    let mut steps: u32 = 0;
    loop {
        match orbit.request() {
            Request::Iterate => {
                v = v.powu(2) + constant;
                steps += 1;
                orbit = orbit.observe(Event::Magnitude(compare_with_radius(v.norm())));
            }
            Request::Measure => {
                orbit = orbit.observe(Event::Smoothing {
                    start_term: smoothing_term(z0.norm()),
                    escape_term: smoothing_term(v.norm()),
                });
            }
            Request::Finished { brightness } => return (brightness, steps),
        }
    }
}

/// The escape count by the recurrence written out on two floats.
fn direct_julia_count(re0: f64, im0: f64, cr: f64, ci: f64) -> Option<u32> {
    let (mut re, mut im) = (re0, im0);
    let mut n: u32 = 0;
    while n < 200 {
        let next_re = re * re - im * im + cr;
        let next_im = 2.0 * re * im + ci;
        re = next_re;
        im = next_im;
        if (re * re + im * im).sqrt() >= 2.0 {
            return Some(n);
        }
        n += 1;
    }
    None
}

fn feed(mut orbit: Orbit, magnitude: Magnitude, times: u32) -> Orbit {
    let mut i: u32 = 0;
    while i < times {
        orbit = orbit.observe(Event::Magnitude(magnitude));
        i += 1;
    }
    orbit
}

#[test]
fn constants_are_the_documented_ones() {
    assert_eq!(MAX_ITERATIONS, 200);
    assert_eq!(JULIA_OFFSET, 8);
    assert_eq!(MANDELBROT_INTERIOR, 255);
    assert_eq!(JULIA_INTERIOR, 0);
}

#[test]
fn mandelbrot_escapes_strictly_beyond_the_radius() {
    let kind = FractalType::Mandelbrot;
    assert!(kind.escapes(Magnitude::Above));
    assert!(!kind.escapes(Magnitude::Equal));
    assert!(!kind.escapes(Magnitude::Below));
    assert!(!kind.escapes(Magnitude::Undefined));
}

#[test]
fn julia_escapes_on_the_radius() {
    let kind = FractalType::Julia;
    assert!(kind.escapes(Magnitude::Above));
    assert!(kind.escapes(Magnitude::Equal));
    assert!(!kind.escapes(Magnitude::Below));
    assert!(!kind.escapes(Magnitude::Undefined));
}

#[test]
fn interior_brightness_differs_by_family() {
    assert_eq!(FractalType::Mandelbrot.interior(), 255);
    assert_eq!(FractalType::Julia.interior(), 0);
}

#[test]
fn escaped_brightness_uses_the_family_offset() {
    assert_eq!(FractalType::Julia.escaped_brightness(5, 100, 1), 12);
    assert_eq!(FractalType::Julia.escaped_brightness(0, -50, 0), 8);
    assert_eq!(FractalType::Julia.escaped_brightness(0, 0, 9), 0);
    assert_eq!(FractalType::Mandelbrot.escaped_brightness(5, 2, 1), 6);
    assert_eq!(FractalType::Mandelbrot.escaped_brightness(5, -1, -1), 5);
    assert_eq!(FractalType::Mandelbrot.escaped_brightness(0, 0, 1), 0);
    assert_eq!(FractalType::Mandelbrot.escaped_brightness(199, 100, 0), 255);
}

#[test]
fn a_new_orbit_asks_to_iterate() {
    assert_eq!(Orbit::start(FractalType::Mandelbrot).request(), Request::Iterate);
    assert_eq!(Orbit::start(FractalType::Julia).request(), Request::Iterate);
}

#[test]
fn bounded_orbit_settles_after_the_cap() {
    let orbit = feed(Orbit::start(FractalType::Mandelbrot), Magnitude::Below, 199);
    assert_eq!(orbit.request(), Request::Iterate);
    let orbit = feed(orbit, Magnitude::Below, 1);
    assert_eq!(orbit.request(), Request::Finished { brightness: 255 });

    let orbit = feed(Orbit::start(FractalType::Julia), Magnitude::Below, 199);
    assert_eq!(orbit.request(), Request::Iterate);
    let orbit = feed(orbit, Magnitude::Below, 1);
    assert_eq!(orbit.request(), Request::Finished { brightness: 0 });
}

#[test]
fn undefined_magnitude_never_escapes() {
    let orbit = feed(Orbit::start(FractalType::Mandelbrot), Magnitude::Undefined, 200);
    assert_eq!(orbit.request(), Request::Finished { brightness: 255 });
    let orbit = feed(Orbit::start(FractalType::Julia), Magnitude::Undefined, 200);
    assert_eq!(orbit.request(), Request::Finished { brightness: 0 });
}

#[test]
fn escape_count_is_the_index_of_the_first_escaping_step() {
    let mut n: u32 = 0;
    while n < 200 {
        let orbit = feed(Orbit::start(FractalType::Julia), Magnitude::Below, n);
        let orbit = orbit.observe(Event::Magnitude(Magnitude::Above));
        assert_eq!(orbit.request(), Request::Measure);
        let orbit = orbit.observe(Event::Smoothing { start_term: 0, escape_term: 8 });
        assert_eq!(orbit.request(), Request::Finished { brightness: n as u8 });
        n += 1;
    }
}

#[test]
fn escape_on_the_last_step_still_counts() {
    let orbit = feed(Orbit::start(FractalType::Mandelbrot), Magnitude::Equal, 199);
    let orbit = orbit.observe(Event::Magnitude(Magnitude::Above));
    assert_eq!(orbit.request(), Request::Measure);
    let orbit = orbit.observe(Event::Smoothing { start_term: 1, escape_term: 0 });
    assert_eq!(orbit.request(), Request::Finished { brightness: 200 });
}

#[test]
fn events_that_were_not_asked_for_change_nothing() {
    let orbit = Orbit::start(FractalType::Julia);
    let orbit = orbit.observe(Event::Smoothing { start_term: 3, escape_term: 4 });
    assert_eq!(orbit.request(), Request::Iterate);
    let orbit = orbit.observe(Event::Magnitude(Magnitude::Equal));
    assert_eq!(orbit.request(), Request::Measure);
    let orbit = orbit.observe(Event::Magnitude(Magnitude::Above));
    assert_eq!(orbit.request(), Request::Measure);
    let orbit = orbit.observe(Event::Smoothing { start_term: 3, escape_term: 4 });
    assert_eq!(orbit.request(), Request::Finished { brightness: 4 });
}

#[test]
fn a_settled_orbit_stays_settled() {
    let orbit = feed(Orbit::start(FractalType::Mandelbrot), Magnitude::Below, 200);
    let orbit = orbit.observe(Event::Magnitude(Magnitude::Above));
    let orbit = orbit.observe(Event::Smoothing { start_term: 1, escape_term: 2 });
    let orbit = feed(orbit, Magnitude::Above, 300);
    assert_eq!(orbit.request(), Request::Finished { brightness: 255 });
}

#[test]
fn a_responsive_caller_is_done_within_the_cap() {
    let (_, steps) = classify(FractalType::Mandelbrot, Complex::new(0.0, 0.0), Complex::new(0.0, 0.0));
    assert_eq!(steps, 200);
    let (_, steps) = classify(FractalType::Julia, Complex::new(0.1, 0.1), Complex::new(0.0, 0.0));
    assert_eq!(steps, 200);
}

#[test]
fn mandelbrot_origin_never_escapes() {
    let (brightness, steps) =
        classify(FractalType::Mandelbrot, Complex::new(0.0, 0.0), Complex::new(0.0, 0.0));
    assert_eq!(brightness, 255);
    assert_eq!(steps, 200);
}

#[test]
fn mandelbrot_far_point_escapes_at_once() {
    let (brightness, steps) =
        classify(FractalType::Mandelbrot, Complex::new(3.0, 3.0), Complex::new(0.0, 0.0));
    assert_eq!(steps, 1);
    assert_eq!(brightness, 0);
    assert!(brightness <= 1);
}

#[test]
fn mandelbrot_point_beyond_the_radius_is_dark_whatever_the_term() {
    // At step 0 the orbit value is the starting point: one term for both.
    for term in [i64::MIN, -1000, -1, 0, 1, 2, 255, 1000, i64::MAX] {
        let orbit = Orbit::start(FractalType::Mandelbrot);
        let orbit = orbit.observe(Event::Magnitude(Magnitude::Above));
        assert_eq!(orbit.request(), Request::Measure);
        let orbit = orbit.observe(Event::Smoothing { start_term: term, escape_term: term });
        assert_eq!(orbit.request(), Request::Finished { brightness: 0 });
    }
}

#[test]
fn mandelbrot_points_beyond_the_radius_escape_at_once() {
    for (re, im) in [(3.0, 3.0), (2.0, 0.1), (-2.5, 0.0), (0.0, 2.000001), (1e9, -1e9), (-1.5, 1.5)] {
        let (brightness, steps) =
            classify(FractalType::Mandelbrot, Complex::new(re, im), Complex::new(0.0, 0.0));
        assert_eq!(steps, 1);
        assert!(brightness <= 1);
        assert_eq!(brightness, 0);
    }
}

#[test]
fn mandelbrot_correction_does_not_underflow() {
    // The step with index 0 escapes and the correction exceeds the offset.
    let orbit = Orbit::start(FractalType::Mandelbrot);
    let orbit = orbit.observe(Event::Magnitude(Magnitude::Above));
    let orbit = orbit.observe(Event::Smoothing { start_term: 0, escape_term: 3 });
    assert_eq!(orbit.request(), Request::Finished { brightness: 0 });
}

#[test]
fn julia_count_matches_direct_recurrence() {
    let direct = direct_julia_count(0.0, 0.0, -0.8, 0.156);
    let (mut v, c) = (Complex::new(0.0, 0.0), Complex::new(-0.8, 0.156));
    let mut orbit = Orbit::start(FractalType::Julia);
    let mut steps: u32 = 0;
    while orbit.request() == Request::Iterate {
        v = v.powu(2) + c;
        steps += 1;
        orbit = orbit.observe(Event::Magnitude(compare_with_radius(v.norm())));
    }
    match direct {
        Some(n) => {
            assert_eq!(orbit.request(), Request::Measure);
            assert_eq!(steps, n + 1);
            let orbit = orbit.observe(Event::Smoothing { start_term: 0, escape_term: 8 });
            assert_eq!(orbit.request(), Request::Finished { brightness: n as u8 });
        }
        None => {
            assert_eq!(steps, 200);
            assert_eq!(orbit.request(), Request::Finished { brightness: 0 });
        }
    }
}

#[test]
fn julia_far_point_escapes_at_once() {
    let (brightness, steps) =
        classify(FractalType::Julia, Complex::new(2.0, 0.0), Complex::new(0.0, 0.0));
    // |v| = 4 after one step: ln 4 = 1.386.., log2 of that is 0.47.., whose floor is 0.
    assert_eq!(steps, 1);
    assert_eq!(brightness, 8);
}

#[test]
fn julia_on_the_radius_escapes() {
    // z0 = 0 and c = 2 put the first orbit value exactly on the radius.
    let (brightness, steps) =
        classify(FractalType::Julia, Complex::new(0.0, 0.0), Complex::new(2.0, 0.0));
    // |v| = 2: ln 2 = 0.693.., log2 of that is -0.52.., whose floor is -1.
    assert_eq!(steps, 1);
    assert_eq!(brightness, 9);
}

#[test]
fn mandelbrot_on_the_radius_goes_on() {
    // z0 = -2 gives the orbit -2, 2, 2, ...: never strictly beyond the radius.
    let (brightness, steps) =
        classify(FractalType::Mandelbrot, Complex::new(-2.0, 0.0), Complex::new(0.0, 0.0));
    assert_eq!(steps, 200);
    assert_eq!(brightness, 255);
}

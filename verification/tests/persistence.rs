use minivector::color::Color;
use minivector::gfx::Point;
use minivector::persistence::{
    blend, blend_channel, persistence_step, DisplayColors, ElectronParams, ElectronRenderer,
};

fn params(radius: u32, dim_factor: u32) -> ElectronParams {
    ElectronParams { radius, dim_factor, screen_w: 1920, screen_h: 1080 }
}

#[test]
fn glow_falls_off_with_squared_distance() {
    // One lit point at (0, 0), radius 2, on a 4x1 strip of dark pixels:
    // contributions are (r2 - d2) * 255 / r2 with r2 = 4.
    let prev = vec![0u32; 4];
    let points = vec![Point { x: 0, y: 0, power: 1 }];
    let next = persistence_step(&prev, &points, 4, 1, &params(2, 0));
    assert_eq!(next, vec![255, 191, 0, 0]);
}

#[test]
fn unlit_points_contribute_nothing() {
    let prev = vec![0u32; 4];
    let points = vec![Point { x: 0, y: 0, power: 0 }];
    let next = persistence_step(&prev, &points, 4, 1, &params(2, 0));
    assert_eq!(next, vec![0, 0, 0, 0]);
}

#[test]
fn previous_frame_decays_by_the_dim_factor() {
    // A dim factor of half the scale halves the previous intensity
    // (rounding down), with no points contributing.
    let prev = vec![65535u32, 40000, 2, 0];
    let next = persistence_step(&prev, &Vec::new(), 4, 1, &params(2, 32768));
    assert_eq!(next, vec![32767, 20000, 1, 0]);
}

#[test]
fn full_dim_factor_wipes_the_previous_frame() {
    let prev = vec![65535u32, 12345, 1, 7];
    let next = persistence_step(&prev, &Vec::new(), 4, 1, &params(2, 65536));
    assert_eq!(next, vec![0, 0, 0, 0]);
}

#[test]
fn intensity_clamps_at_the_maximum() {
    // A bright pixel that does not decay still takes a glow hit but must
    // clamp at the maximum intensity.
    let prev = vec![65535u32];
    let points = vec![Point { x: 0, y: 0, power: 1 }];
    let next = persistence_step(&prev, &points, 1, 1, &params(2, 0));
    assert_eq!(next, vec![65535]);
}

#[test]
fn glow_accumulates_over_points_and_frames() {
    // The same lit point twice contributes twice.
    let prev = vec![0u32];
    let points = vec![Point { x: 0, y: 0, power: 1 }, Point { x: 0, y: 0, power: 1 }];
    let next = persistence_step(&prev, &points, 1, 1, &params(2, 0));
    assert_eq!(next, vec![510]);
    // With no decay, a held beam brightens frame over frame.
    let after = persistence_step(&next, &points, 1, 1, &params(2, 0));
    assert_eq!(after, vec![1020]);
}

#[test]
fn pixels_are_addressed_row_by_row() {
    // A 2x2 buffer with a lit point at (1, 1): the farthest pixel is the
    // origin (d2 = 2), the neighbours are at d2 = 1.
    let prev = vec![0u32; 4];
    let points = vec![Point { x: 1, y: 1, power: 1 }];
    let next = persistence_step(&prev, &points, 2, 2, &params(2, 0));
    // r2 = 4: d2=2 -> 2*255/4 = 127; d2=1 -> 3*255/4 = 191; d2=0 -> 255.
    assert_eq!(next, vec![127, 191, 191, 255]);
}

#[test]
fn renderer_starts_dark_and_accumulates_glow() {
    let colors = DisplayColors {
        primary: Color::new(40, 40, 40),
        secondary: Color::new(51, 255, 100),
    };
    let mut renderer = ElectronRenderer::new(4, 1, params(2, 0), colors);
    assert_eq!(renderer.framebuffer(), &vec![0, 0, 0, 0]);
    renderer.set_points(vec![Point { x: 0, y: 0, power: 1 }]);
    renderer.process();
    assert_eq!(renderer.framebuffer(), &vec![255, 191, 0, 0]);
    renderer.process();
    assert_eq!(renderer.framebuffer(), &vec![510, 382, 0, 0]);
    renderer.clear();
    assert_eq!(renderer.framebuffer(), &vec![0, 0, 0, 0]);
}

#[test]
fn renderer_params_are_tunable_at_runtime() {
    let colors = DisplayColors {
        primary: Color::new(0, 0, 0),
        secondary: Color::new(255, 255, 255),
    };
    let mut renderer = ElectronRenderer::new(1, 1, params(2, 0), colors);
    renderer.set_points(vec![Point { x: 0, y: 0, power: 1 }]);
    renderer.process();
    assert_eq!(renderer.framebuffer(), &vec![255]);
    // Full dim now: the next step wipes the old value before the glow.
    renderer.update_params(params(2, 65536));
    renderer.process();
    assert_eq!(renderer.framebuffer(), &vec![255]);
}

#[test]
fn renderer_pixel_color_blends_by_intensity() {
    let colors = DisplayColors {
        primary: Color::new(0, 0, 0),
        secondary: Color::new(255, 255, 255),
    };
    let mut renderer = ElectronRenderer::new(1, 1, params(2, 0), colors);
    assert_eq!(renderer.pixel_color(0), Color::new(0, 0, 0));
    renderer.set_display_colors(Color::new(10, 10, 10), Color::new(20, 20, 20));
    assert_eq!(renderer.pixel_color(0), Color::new(10, 10, 10));
}

#[test]
fn blend_runs_from_background_to_beam_color() {
    let colors = DisplayColors {
        primary: Color::new(40, 40, 40),
        secondary: Color::new(51, 255, 100),
    };
    assert_eq!(blend(&colors, 0), Color::new(40, 40, 40));
    assert_eq!(blend(&colors, 65535), Color::new(51, 255, 100));
}

#[test]
fn blend_channel_interpolates_and_handles_either_direction() {
    assert_eq!(blend_channel(40, 255, 32768) as u64, 40 + (215u64 * 32768) / 65535);
    assert_eq!(blend_channel(255, 40, 32768) as u64, 255 - (215u64 * 32768) / 65535);
    assert_eq!(blend_channel(10, 10, 12345), 10);
}

use sand_game::cell::Cell;
use sand_game::error::ConfigError;
use sand_game::frame::{fits, surface_size, FrameAction, FrameDriver, FrameEvent};
use sand_game::rules::RuleSet;
use sand_game::world_view::{Config, Palette, ResizeOutcome, ScreenSize, SeedRegion};

fn config() -> Config {
    Config {
        pixel_scale: 2,
        seed: SeedRegion { x_min: 1, x_max: 1, y_min: 0, y_max: 0, fill: Cell::Sand },
        palette: Palette { empty: 7, sand: 9, solid: 11 },
    }
}

fn driver() -> FrameDriver {
    FrameDriver::new(ScreenSize { width: 6, height: 6 }, &config(), RuleSet { diagonal: false })
        .unwrap()
}

#[test]
fn surface_size_is_at_least_one_pixel_each_way() {
    assert_eq!(surface_size(ScreenSize { width: 0, height: 0 }), ScreenSize { width: 1, height: 1 });
    assert_eq!(surface_size(ScreenSize { width: 0, height: 9 }), ScreenSize { width: 1, height: 9 });
    assert_eq!(
        surface_size(ScreenSize { width: 1024, height: 768 }),
        ScreenSize { width: 1024, height: 768 }
    );
}

#[test]
fn driver_starts_with_the_seeded_world() {
    let d = driver();
    assert_eq!(d.surface(), ScreenSize { width: 6, height: 6 });
    assert_eq!(d.world().size(), (3, 3));
    assert_eq!(d.world().grid().read(1, 0), Cell::Sand);
    assert_eq!(d.world().grid().read(1, 1), Cell::Empty);
}

#[test]
fn driver_rejects_bad_configurations() {
    let mut zero_scale = config();
    zero_scale.pixel_scale = 0;
    let rules = RuleSet { diagonal: true };
    assert_eq!(
        FrameDriver::new(ScreenSize { width: 6, height: 6 }, &zero_scale, rules),
        Err(ConfigError::ZeroScale)
    );
    assert_eq!(
        FrameDriver::new(ScreenSize { width: 0, height: 6 }, &config(), rules),
        Err(ConfigError::ZeroDimension)
    );
}

#[test]
fn driver_clamps_an_empty_window_before_building_the_world() {
    let mut one = config();
    one.pixel_scale = 1;
    let d = FrameDriver::new(ScreenSize { width: 0, height: 0 }, &one, RuleSet { diagonal: true })
        .unwrap();
    assert_eq!(d.surface(), ScreenSize { width: 1, height: 1 });
    assert_eq!(d.world().size(), (1, 1));
}

#[test]
fn redraw_steps_once_and_presents_the_new_generation() {
    let mut d = driver();
    let action = d.handle(FrameEvent::RedrawRequested);
    assert_eq!(d.world().grid().read(1, 0), Cell::Empty);
    assert_eq!(d.world().grid().read(1, 1), Cell::Sand);
    match action {
        FrameAction::Present(image) => {
            assert_eq!((image.width(), image.height()), (6, 6));
            for py in 0..6usize {
                for px in 0..6usize {
                    let sand = (2..4).contains(&px) && (2..4).contains(&py);
                    assert_eq!(image.pixels()[py * 6 + px], if sand { 9 } else { 7 });
                }
            }
            assert_eq!(image, d.world().render(ScreenSize { width: 6, height: 6 }));
        }
        other => panic!("expected an image, got {other:?}"),
    }
}

#[test]
fn resize_reconfigures_the_surface_and_keeps_the_world() {
    let mut d = driver();
    let world = d.world().clone();
    let action = d.handle(FrameEvent::Resized(ScreenSize { width: 10, height: 0 }));
    assert_eq!(
        action,
        FrameAction::Reconfigure {
            surface: ScreenSize { width: 10, height: 1 },
            resize: ResizeOutcome::Unsupported,
        }
    );
    assert_eq!(d.surface(), ScreenSize { width: 10, height: 1 });
    assert_eq!(d.world(), &world);
    let action = d.handle(FrameEvent::Resized(ScreenSize { width: 6, height: 6 }));
    assert_eq!(
        action,
        FrameAction::Reconfigure {
            surface: ScreenSize { width: 6, height: 6 },
            resize: ResizeOutcome::Unchanged,
        }
    );
}

#[test]
fn redraw_after_resize_renders_at_the_new_surface_size() {
    let mut d = driver();
    d.handle(FrameEvent::Resized(ScreenSize { width: 8, height: 3 }));
    match d.handle(FrameEvent::RedrawRequested) {
        FrameAction::Present(image) => {
            assert_eq!((image.width(), image.height()), (8, 3));
            assert_eq!(image.pixels().len(), 24);
            assert_eq!(image.pixels()[2 * 8 + 2], 9);
            assert_eq!(image.pixels()[2 * 8 + 7], 7);
        }
        other => panic!("expected an image, got {other:?}"),
    }
}

#[test]
fn close_request_exits_and_changes_nothing() {
    let mut d = driver();
    let before = d.clone();
    assert_eq!(d.handle(FrameEvent::CloseRequested), FrameAction::Exit);
    assert_eq!(d, before);
}

#[test]
fn other_events_are_ignored() {
    let mut d = driver();
    let before = d.clone();
    assert_eq!(d.handle(FrameEvent::Other), FrameAction::Idle);
    assert_eq!(d, before);
}

#[test]
fn fits_compares_the_pixel_count_with_the_largest_length() {
    assert!(fits(ScreenSize { width: 0, height: u32::MAX }));
    assert!(fits(ScreenSize { width: 1024, height: 1024 }));
    assert!(fits(ScreenSize { width: 65535, height: 65537 }));
    let all = ScreenSize { width: u32::MAX, height: u32::MAX };
    assert_eq!(fits(all), (u32::MAX as u128) * (u32::MAX as u128) <= usize::MAX as u128);
}

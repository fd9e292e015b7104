use display_tui::error::LayoutError;
use display_tui::fraction::Fraction;
use display_tui::monitor::{Axis, Monitor, Position, Resolution};
use display_tui::rotation::Rotation;
use display_tui::scale::Scale;

fn mode(width: i32, height: i32, preferred: bool, current: bool) -> Resolution {
    Resolution { width, height, refresh: 60000, preferred, current }
}

fn monitor(modes: Vec<Resolution>) -> Monitor {
    Monitor {
        name: "DP-1".to_string(),
        enabled: true,
        modes,
        position: Some(Position { x: 10, y: 20 }),
        scale: Scale::new(1000),
        ..Default::default()
    }
}

#[test]
fn current_mode_wins_over_preferred() {
    let m = monitor(vec![mode(1920, 1080, true, false), mode(1280, 720, false, true)]);
    assert_eq!(m.get_current_resolution(), Some(&mode(1280, 720, false, true)));
    assert_eq!(m.get_prefered_resolution(), Some(&mode(1920, 1080, true, false)));
    assert_eq!(m.resolve_mode(), Some(mode(1280, 720, false, true)));
}

#[test]
fn preferred_mode_is_the_fallback() {
    let m = monitor(vec![mode(800, 600, false, false), mode(1920, 1080, true, false)]);
    assert_eq!(m.get_current_resolution(), None);
    assert_eq!(m.resolve_mode(), Some(mode(1920, 1080, true, false)));
}

#[test]
fn first_flagged_mode_is_found() {
    let m = monitor(vec![
        mode(800, 600, false, false),
        mode(1024, 768, true, true),
        mode(1920, 1080, true, true),
    ]);
    assert_eq!(m.get_current_resolution(), Some(&mode(1024, 768, true, true)));
    assert_eq!(m.get_prefered_resolution(), Some(&mode(1024, 768, true, true)));
}

#[test]
fn no_mode_resolves_without_flags() {
    let m = monitor(vec![mode(800, 600, false, false)]);
    assert_eq!(m.resolve_mode(), None);
    assert_eq!(m.logical_extent(), Err(LayoutError::NoResolvableMode));
    assert_eq!(m.geometry(), Err(LayoutError::NoResolvableMode));
    let empty = monitor(vec![]);
    assert_eq!(empty.resolve_mode(), None);
}

#[test]
fn logical_extent_divides_by_scale() {
    let mut m = monitor(vec![mode(1920, 1080, true, false)]);
    m.scale = Scale::new(1500);
    assert_eq!(
        m.logical_extent(),
        Ok((Fraction { num: 1920000, den: 1500 }, Fraction { num: 1080000, den: 1500 }))
    );
    let (w, h) = m.logical_extent().unwrap();
    assert_eq!(w.num / w.den, 1280);
    assert_eq!(h.num / h.den, 720);
}

#[test]
fn absent_scale_counts_as_one() {
    let mut m = monitor(vec![mode(1920, 1080, true, false)]);
    m.scale = None;
    assert_eq!(m.effective_scale().thousandths(), 1000);
    assert_eq!(
        m.logical_extent(),
        Ok((Fraction { num: 1920000, den: 1000 }, Fraction { num: 1080000, den: 1000 }))
    );
}

#[test]
fn quarter_turns_swap_width_and_height() {
    let upright = monitor(vec![mode(1920, 1080, true, false)]);
    let (w, h) = upright.logical_extent().unwrap();
    for turn in ["90", "270"] {
        let mut turned = upright.clone();
        turned.transform = Some(turn.to_string());
        assert_eq!(turned.logical_extent(), Ok((h, w)));
    }
    for same in ["normal", "180", "flipped", "flipped-180", "something"] {
        let mut kept = upright.clone();
        kept.transform = Some(same.to_string());
        assert_eq!(kept.logical_extent(), Ok((w, h)));
    }
}

#[test]
fn rotation_is_read_from_the_descriptor() {
    assert_eq!(Rotation::from_transform(&None), Rotation::Normal);
    let read = |t: &str| Rotation::from_transform(&Some(t.to_string()));
    assert_eq!(read("normal"), Rotation::Normal);
    assert_eq!(read("90"), Rotation::Deg90);
    assert_eq!(read("180"), Rotation::Deg180);
    assert_eq!(read("270"), Rotation::Deg270);
    assert_eq!(read("flipped"), Rotation::Flipped);
    assert_eq!(read("flipped-90"), Rotation::Flipped90);
    assert_eq!(read("flipped-180"), Rotation::Flipped180);
    assert_eq!(read("flipped-270"), Rotation::Flipped270);
    assert_eq!(read("sideways"), Rotation::Normal);
    assert_eq!(read(""), Rotation::Normal);
}

#[test]
fn rotation_tokens_count_from_zero() {
    let all = [
        Rotation::Normal,
        Rotation::Deg90,
        Rotation::Deg180,
        Rotation::Deg270,
        Rotation::Flipped,
        Rotation::Flipped90,
        Rotation::Flipped180,
        Rotation::Flipped270,
    ];
    for (i, r) in all.iter().enumerate() {
        assert_eq!(r.to_hyprland() as usize, i);
    }
    assert!(Rotation::Deg90.swaps_axes());
    assert!(Rotation::Deg270.swaps_axes());
    assert!(!Rotation::Normal.swaps_axes());
    assert!(!Rotation::Deg180.swaps_axes());
    assert!(!Rotation::Flipped90.swaps_axes());
}

#[test]
fn geometry_needs_mode_and_position() {
    let mut m = monitor(vec![mode(1920, 1080, true, false)]);
    assert_eq!(
        m.geometry(),
        Ok((10, 20, Fraction { num: 1920000, den: 1000 }, Fraction { num: 1080000, den: 1000 }))
    );
    assert_eq!(m.get_geometry(), m.geometry());
    m.position = None;
    assert_eq!(m.geometry(), Err(LayoutError::NoPosition));
    assert_eq!(m.get_geometry(), Err(LayoutError::NoPosition));
    m.modes.clear();
    assert_eq!(m.geometry(), Err(LayoutError::NoResolvableMode));
}

#[test]
fn lenient_geometry_of_a_monitor_without_mode_is_empty() {
    let mut m = monitor(vec![]);
    let nothing = Fraction { num: 0, den: 1 };
    assert_eq!(m.get_geometry(), Ok((0, 0, nothing, nothing)));
    m.position = None;
    assert_eq!(m.get_geometry(), Ok((0, 0, nothing, nothing)));
}

#[test]
fn set_current_resolution_leaves_one_current_mode() {
    let mut m = monitor(vec![
        mode(800, 600, false, true),
        mode(1024, 768, true, true),
        mode(1920, 1080, false, false),
    ]);
    assert_eq!(m.set_current_resolution(2), Ok(()));
    let flags: Vec<bool> = m.modes.iter().map(|m| m.current).collect();
    assert_eq!(flags, vec![false, false, true]);
    assert_eq!(m.modes[1], mode(1024, 768, true, false));
    assert_eq!(m.get_current_resolution(), Some(&mode(1920, 1080, false, true)));
    assert_eq!(m.set_current_resolution(0), Ok(()));
    let flags: Vec<bool> = m.modes.iter().map(|m| m.current).collect();
    assert_eq!(flags, vec![true, false, false]);
}

#[test]
fn set_current_resolution_out_of_range_changes_nothing() {
    let mut m = monitor(vec![mode(800, 600, false, false), mode(1024, 768, true, true)]);
    let before = m.modes.clone();
    assert_eq!(m.set_current_resolution(2), Err(LayoutError::IndexOutOfRange));
    assert_eq!(m.modes, before);
    assert_eq!(m.set_current_resolution(usize::MAX), Err(LayoutError::IndexOutOfRange));
    assert_eq!(m.modes, before);
    let mut empty = monitor(vec![]);
    assert_eq!(empty.set_current_resolution(0), Err(LayoutError::IndexOutOfRange));
}

#[test]
fn free_move_and_back_returns_exactly() {
    for d in [10, -10, 1, 12345, -2147483000] {
        let mut m = monitor(vec![mode(1920, 1080, true, false)]);
        m.position = Some(Position { x: 640, y: -7 });
        m.move_vertical(d);
        assert_eq!(m.position, Some(Position { x: 640, y: -7 + d }));
        m.move_vertical(-d);
        assert_eq!(m.position, Some(Position { x: 640, y: -7 }));
        m.move_horizontal(d);
        assert_eq!(m.position, Some(Position { x: 640 + d, y: -7 }));
        m.move_horizontal(-d);
        assert_eq!(m.position, Some(Position { x: 640, y: -7 }));
    }
}

#[test]
fn move_by_picks_the_axis() {
    let mut m = monitor(vec![mode(1920, 1080, true, false)]);
    m.move_by(Axis::Horizontal, 5);
    m.move_by(Axis::Vertical, -5);
    assert_eq!(m.position, Some(Position { x: 15, y: 15 }));
}

#[test]
fn a_monitor_without_position_stays_where_it_is() {
    let mut m = monitor(vec![mode(1920, 1080, true, false)]);
    m.position = None;
    m.move_vertical(10);
    m.move_horizontal(10);
    assert_eq!(m.position, None);
}

#[test]
fn scale_must_be_positive() {
    assert_eq!(Scale::new(0), None);
    assert_eq!(Scale::new(1).map(|s| s.thousandths()), Some(1));
    assert_eq!(Scale::new(65535).map(|s| s.thousandths()), Some(65535));
    assert_eq!(Scale::unit().thousandths(), 1000);
    let mut m = monitor(vec![mode(1920, 1080, true, false)]);
    m.set_scale(Scale::new(2000).unwrap());
    assert_eq!(m.scale, Scale::new(2000));
    assert_eq!(m.position, Some(Position { x: 10, y: 20 }));
}

#[test]
fn fractions_compare_and_truncate() {
    let half = Fraction { num: 1, den: 2 };
    let third = Fraction { num: 1, den: 3 };
    assert!(third.is_below(&half));
    assert!(!half.is_below(&third));
    assert!(!half.is_below(&Fraction { num: 2, den: 4 }));
    assert!(Fraction { num: -1, den: 2 }.is_below(&third));
    assert_eq!(Fraction { num: 7, den: 2 }.truncate_to_i32(), 3);
    assert_eq!(Fraction { num: -7, den: 2 }.truncate_to_i32(), -3);
    assert_eq!(Fraction { num: i64::MAX, den: 1 }.truncate_to_i32(), i32::MAX);
    assert_eq!(Fraction { num: i64::MIN, den: 1 }.truncate_to_i32(), i32::MIN);
    assert_eq!(Fraction::from_whole(-50), Fraction { num: -50, den: 1 });
}

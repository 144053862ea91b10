use kenburns::{
    aspect_scale, get_us, micros_from_timespec, FrameCounter, PictureState, Presentation, Ratio, Step,
    ZoomDirection, SHOW_DURATION, TRANSITION_DURATION,
};

fn state(start: u64, zoom_direction: ZoomDirection) -> PictureState {
    PictureState { start, zoom_direction }
}

#[test]
fn micros_from_timespec_converts_and_saturates() {
    assert_eq!(micros_from_timespec(2, 345_678_999), 2_345_678);
    assert_eq!(micros_from_timespec(0, 999), 0);
    assert_eq!(micros_from_timespec(-1, 0), 0);
    assert_eq!(micros_from_timespec(i64::MAX, 0), u64::MAX);
}

#[test]
fn clock_reads_wall_time() {
    let t1 = get_us();
    // later than 2020-01-01, in microseconds
    assert!(t1 > 1_577_836_800_000_000);
    let s = PictureState::new(ZoomDirection::Out);
    let t2 = get_us();
    assert!(t1 <= s.start && s.start <= t2);
}

#[test]
fn frame_counter_reports_once_per_interval() {
    let mut c = FrameCounter { ticks: 0, last_reset: 1_000, interval: 100 };
    assert_eq!(c.tick_at(1_050), None);
    assert_eq!(c.tick_at(1_099), None);
    assert_eq!(c.ticks, 2);
    assert_eq!(c.tick_at(1_100), Some(2));
    assert_eq!(c.ticks, 1);
    assert_eq!(c.last_reset, 1_100);
    assert_eq!(c.tick_at(1_150), None);
    assert_eq!(c.ticks, 2);
    assert_eq!(c.tick_at(900), None);
    assert_eq!(c.ticks, 3);
    assert_eq!(c.last_reset, 1_100);
}

#[test]
fn frame_counter_new_starts_empty() {
    let c = FrameCounter::new(1_000_000);
    assert_eq!(c.ticks, 0);
    assert_eq!(c.interval, 1_000_000);
}

#[test]
fn zoom_direction_negates() {
    assert_eq!(ZoomDirection::In.not(), ZoomDirection::Out);
    assert_eq!(ZoomDirection::Out.not(), ZoomDirection::In);
}

#[test]
fn alpha_fades_in_then_holds() {
    let s = state(1_000, ZoomDirection::In);
    assert_eq!(s.get_alpha(1_000), Ratio { num: 0, den: 300_000 });
    assert_eq!(s.get_alpha(151_000), Ratio { num: 150_000, den: 300_000 });
    assert_eq!(s.get_alpha(301_000), Ratio { num: 300_000, den: 300_000 });
    assert_eq!(s.get_alpha(5_000_000), Ratio { num: 300_000, den: 300_000 });
    let mut last = 0;
    for t in (1_000..2_000_000u64).step_by(10_007) {
        let a = s.get_alpha(t);
        assert!(a.num >= last);
        assert!(a.num <= a.den);
        last = a.num;
    }
}

#[test]
fn alpha_is_zero_when_clock_goes_back() {
    let s = state(1_000, ZoomDirection::In);
    assert_eq!(s.get_alpha(10), Ratio { num: 0, den: 300_000 });
}

#[test]
fn overflowing_t_exceeds_one_when_lingering() {
    let s = state(0, ZoomDirection::Out);
    assert_eq!(s.get_overflowing_t(1_500_000), Ratio { num: 1_500_000, den: 3_000_000 });
    assert_eq!(s.get_overflowing_t(6_000_000), Ratio { num: 6_000_000, den: 3_000_000 });
}

#[test]
fn zoom_in_grows_linearly() {
    let s = state(0, ZoomDirection::In);
    assert_eq!(s.get_zoom(0), Ratio { num: 30_000_000, den: 30_000_000 });
    // 1 + 0.1 * 0.5 = 1.05
    assert_eq!(s.get_zoom(1_500_000), Ratio { num: 31_500_000, den: 30_000_000 });
    // lingering: 1 + 0.1 * 2 = 1.2
    assert_eq!(s.get_zoom(6_000_000), Ratio { num: 36_000_000, den: 30_000_000 });
}

#[test]
fn zoom_out_eases_to_one() {
    let s = state(0, ZoomDirection::Out);
    // 1 + 0.1 * 1^2 = 1.1
    assert_eq!(s.get_zoom(0), Ratio { num: 99_000_000_000_000, den: 90_000_000_000_000 });
    // 1 + 0.1 * 0.5^2 = 1.025
    let z = s.get_zoom(1_500_000);
    assert_eq!(z, Ratio { num: 92_250_000_000_000, den: 90_000_000_000_000 });
    assert_eq!(z.num * 1000, z.den * 1025);
    assert_eq!(s.get_zoom(3_000_000), Ratio { num: 90_000_000_000_000, den: 90_000_000_000_000 });
    assert_eq!(s.get_zoom(9_000_000), Ratio { num: 90_000_000_000_000, den: 90_000_000_000_000 });
}

#[test]
fn has_transitioned_after_transition() {
    let s = state(100, ZoomDirection::In);
    assert!(!s.has_transitioned(100 + TRANSITION_DURATION));
    assert!(s.has_transitioned(101 + TRANSITION_DURATION));
    assert!(!s.has_transitioned(0));
}

#[test]
fn picture_state_new_keeps_direction() {
    assert_eq!(PictureState::new(ZoomDirection::In).zoom_direction, ZoomDirection::In);
}

#[test]
fn aspect_wide_viewport_stretches_y() {
    // 16:9 viewport, 4:3 image: y scaled by (16/9)/(4/3) = 4/3
    let (x, y) = aspect_scale(1920, 1080, 640, 480);
    assert_eq!(x, Ratio { num: 1, den: 1 });
    assert_eq!(y.num * 3, y.den * 4);
    let (x, y) = aspect_scale(16, 9, 4, 3);
    assert_eq!(x, Ratio { num: 1, den: 1 });
    assert_eq!(y, Ratio { num: 48, den: 36 });
}

#[test]
fn aspect_tall_viewport_stretches_x() {
    // 3:4 viewport, 16:9 image: x scaled by (16/9)/(3/4) = 64/27
    let (x, y) = aspect_scale(3, 4, 16, 9);
    assert_eq!(y, Ratio { num: 1, den: 1 });
    assert_eq!(x, Ratio { num: 64, den: 27 });
    let (x, y) = aspect_scale(4, 3, 4, 3);
    assert_eq!((x, y), (Ratio { num: 12, den: 12 }, Ratio { num: 1, den: 1 }));
}

#[test]
fn presentation_bootstraps_with_zoom_out() {
    let mut p: Presentation<&str> = Presentation::new();
    assert_eq!(p.update(0), Step::Fetch);
    p.receive("first", 0);
    assert_eq!(p.next.unwrap().1.zoom_direction, ZoomDirection::Out);
    assert!(p.current.is_none());
}

#[test]
fn presentation_zoom_alternates() {
    let mut p: Presentation<u32> = Presentation::new();
    p.update(0);
    p.receive(1, 0);
    assert_eq!(p.update(TRANSITION_DURATION + 1), Step::Rotate);
    assert_eq!(p.current.unwrap(), (1, PictureState { start: 0, zoom_direction: ZoomDirection::Out }));
    let due = SHOW_DURATION - TRANSITION_DURATION;
    assert_eq!(p.update(due - 1), Step::Hold);
    assert_eq!(p.update(due), Step::Fetch);
    p.receive(2, due);
    assert_eq!(p.next.unwrap().1.zoom_direction, ZoomDirection::In);
    assert_eq!(p.update(due + TRANSITION_DURATION + 1), Step::Rotate);
    let due2 = due + SHOW_DURATION - TRANSITION_DURATION;
    assert_eq!(p.update(due2), Step::Fetch);
    p.receive(3, due2);
    assert_eq!(p.next.unwrap().1.zoom_direction, ZoomDirection::Out);
}

#[test]
fn presentation_rotates_only_after_transition() {
    let mut p: Presentation<u32> = Presentation::new();
    p.update(0);
    p.receive(1, 0);
    p.update(TRANSITION_DURATION + 1);
    p.update(2_700_000);
    p.receive(2, 2_700_000);
    for t in [2_700_000u64, 2_800_000, 3_000_000] {
        assert_eq!(p.update(t), Step::Hold);
        assert_eq!(p.current.unwrap().0, 1);
        assert_eq!(p.next.unwrap().0, 2);
    }
    assert_eq!(p.update(3_000_001), Step::Rotate);
    assert_eq!(p.current.unwrap().0, 2);
    assert!(p.next.is_none());
}

#[test]
fn presentation_lingers_while_source_is_slow() {
    let mut p: Presentation<u32> = Presentation::new();
    assert_eq!(p.update(0), Step::Fetch);
    p.receive(7, 0);
    assert_eq!(p.update(TRANSITION_DURATION + 1), Step::Rotate);
    let mut p: Presentation<u32> = Presentation {
        current: Some((7, PictureState { start: 0, zoom_direction: ZoomDirection::Out })),
        next: None,
    };
    assert_eq!(p.update(2_699_999), Step::Hold);
    // from 2.7 s on, a picture is wanted; nothing comes until 3.1 s
    for t in (2_700_000..3_100_000u64).step_by(16_667) {
        assert_eq!(p.update(t), Step::Fetch);
        assert_eq!(p.current.unwrap().0, 7);
        assert!(p.next.is_none());
    }
    assert_eq!(p.update(3_100_000), Step::Fetch);
    p.receive(8, 3_100_000);
    assert_eq!(p.next.unwrap(), (8, PictureState { start: 3_100_000, zoom_direction: ZoomDirection::In }));
    assert_eq!(p.current.unwrap().0, 7);
    assert_eq!(p.update(3_400_000), Step::Hold);
    assert_eq!(p.update(3_400_001), Step::Rotate);
    assert_eq!(p.current.unwrap().0, 8);
}

use shin::time::{ease, lerp, ticks_from_i32, Easing, Tween};
use shin::tweener::Tweener;

#[test]
fn ease_linear_is_proportional() {
    assert_eq!(ease(Easing::Linear, 5, 10), 5000);
    assert_eq!(ease(Easing::Linear, 0, 10), 0);
    assert_eq!(ease(Easing::Linear, 10, 10), 10000);
}

#[test]
fn ease_curves_exact_values() {
    assert_eq!(ease(Easing::SineIn, 5, 10), 2941);
    assert_eq!(ease(Easing::SineIn, 10, 10), 10000);
    assert_eq!(ease(Easing::SineOut, 10, 10), 10000);
    assert_eq!(ease(Easing::SineOut, 0, 10), 0);
    assert_eq!(ease(Easing::SineInOut, 5, 10), 5000);
    assert_eq!(ease(Easing::SineInOut, 10, 10), 10000);
    assert_eq!(ease(Easing::Jump, 5, 10), 0);
    assert_eq!(ease(Easing::Jump, 10, 10), 10000);
    assert_eq!(ease(Easing::Power(2), 5, 10), 2500);
    assert_eq!(ease(Easing::Power(-4), 5, 10), 5000);
    assert_eq!(ease(Easing::Power(100), 10, 10), 10000);
}

#[test]
fn lerp_rounds_toward_start() {
    assert_eq!(lerp(0, 100, 5000), 50);
    assert_eq!(lerp(100, 0, 2500), 75);
    assert_eq!(lerp(-10, 10, 5000), 0);
    assert_eq!(lerp(0, 3, 5000), 1);
    assert_eq!(lerp(3, 0, 5000), 2);
    assert_eq!(lerp(i32::MIN, i32::MAX, 10000), i32::MAX);
}

#[test]
fn ticks_from_negative_is_zero() {
    assert_eq!(ticks_from_i32(-5), 0);
    assert_eq!(ticks_from_i32(7), 7);
}

#[test]
fn enqueue_then_fast_forward_lands_on_last_target() {
    let mut t = Tweener::new(0);
    t.enqueue(10, Tween::linear(5));
    t.enqueue(20, Tween::linear(5));
    assert_eq!(t.target_value(), 20);
    t.fast_forward();
    assert_eq!(t.value(), 20);
    assert!(t.is_idle());
}

#[test]
fn fast_forward_on_idle_keeps_value() {
    let mut t = Tweener::new(7);
    t.fast_forward();
    assert_eq!(t.value(), 7);
    assert!(t.is_idle());
}

#[test]
fn advance_saturates_at_last_target() {
    let mut t = Tweener::new(0);
    t.enqueue(10, Tween::linear(5));
    t.enqueue(20, Tween::linear(5));
    t.advance(100);
    assert_eq!(t.value(), 20);
    assert!(t.is_idle());
    t.advance(50);
    assert_eq!(t.value(), 20);
    assert!(t.is_idle());
}

#[test]
fn advance_carries_leftover_into_next_segment() {
    let mut t = Tweener::new(0);
    t.enqueue(100, Tween::linear(10));
    t.enqueue(200, Tween::linear(10));
    t.advance(5);
    assert_eq!(t.value(), 50);
    t.advance(10);
    assert_eq!(t.value(), 150);
    assert_eq!(t.queued().len(), 1);
    t.advance(5);
    assert_eq!(t.value(), 200);
    assert!(t.is_idle());
}

#[test]
fn fast_forward_to_keeps_queue_and_interpolates_from_new_value() {
    let mut t = Tweener::new(0);
    t.enqueue(100, Tween::linear(10));
    t.advance(5);
    assert_eq!(t.value(), 50);
    t.fast_forward_to(0);
    assert_eq!(t.value(), 0);
    let q = t.queued();
    assert_eq!(q.len(), 1);
    assert_eq!(q[0].target, 100);
    t.advance(1);
    assert_eq!(t.value(), 60);
    t.advance(4);
    assert_eq!(t.value(), 100);
    assert!(t.is_idle());
}

#[test]
fn zero_duration_segment_applies_at_once() {
    let mut t = Tweener::new(3);
    t.enqueue(9, Tween::linear(0));
    assert_eq!(t.value(), 9);
    assert!(t.is_idle());
}

#[test]
fn zero_duration_segment_behind_another_finishes_with_it() {
    let mut t = Tweener::new(0);
    t.enqueue(10, Tween::linear(4));
    t.enqueue(30, Tween::linear(0));
    t.advance(4);
    assert_eq!(t.value(), 30);
    assert!(t.is_idle());
}

#[test]
fn jump_easing_holds_then_snaps() {
    let mut t = Tweener::new(0);
    t.enqueue(100, Tween { duration: 4, easing: Easing::Jump });
    t.advance(3);
    assert_eq!(t.value(), 0);
    t.advance(1);
    assert_eq!(t.value(), 100);
}

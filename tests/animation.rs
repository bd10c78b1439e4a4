use kg_g::animation::{Animation, Frames, ANIMATION_THRESHOLD};
use kg_g::geometry::Rect;
use kg_g::timer::Timer;

fn create(should_loop: bool) -> Frames {
    let r1 = Rect::new(0, 0, 16, 16);
    let r2 = Rect::new(16, 0, 16, 16);
    let r3 = Rect::new(32, 0, 16, 16);
    Frames::new(vec![r1, r2, r3], should_loop)
}

#[test]
fn animation_act() {
    let frames = create(true);
    assert_eq!(frames.act_frame(), frames.list[0]);
}

#[test]
fn animation_next_loop() {
    let mut frames = create(true);

    frames.next_frame();
    assert_eq!(frames.act_frame(), frames.list[1]);
    frames.next_frame();
    assert_eq!(frames.act_frame(), frames.list[2]);
    frames.next_frame();
    assert_eq!(frames.act_frame(), frames.list[0]);
    frames.next_frame();
    assert_eq!(frames.act_frame(), frames.list[1]);
    frames.next_frame();
    assert_eq!(frames.act_frame(), frames.list[2]);
    frames.next_frame();
    assert_eq!(frames.act_frame(), frames.list[0]);
}

#[test]
fn animation_next_not_loop() {
    let mut frames = create(false);

    frames.next_frame();
    assert_eq!(frames.act_frame(), frames.list[1]);
    frames.next_frame();
    assert_eq!(frames.act_frame(), frames.list[2]);
    frames.next_frame();
    assert_eq!(frames.act_frame(), frames.list[2]);
    frames.next_frame();
    assert_eq!(frames.act_frame(), frames.list[2]);
    frames.next_frame();
    assert_eq!(frames.act_frame(), frames.list[2]);
}

#[test]
fn animation_is_finished() {
    let r1 = Rect::new(0, 0, 16, 16);
    let r2 = Rect::new(16, 0, 16, 16);
    let r3 = Rect::new(32, 0, 16, 16);
    let mut anim = Animation::new(vec![r1, r2, r3], false);

    anim.frames.next_frame();
    assert_eq!(anim.is_finished(), false);
    anim.frames.next_frame();
    assert_eq!(anim.is_finished(), true);
    anim.frames.next_frame();
    assert_eq!(anim.is_finished(), true);
}

#[test]
fn animation_update() {
    let mut time = Timer::new(500_000);
    time.update(100_000);
    assert_eq!(time.elapsed(), 100_000);
    time.update(100_000);
    assert_eq!(time.elapsed(), 200_000);
    time.update(100_000);
    assert_eq!(time.elapsed(), 300_000);
}

#[test]
fn animation_update_over() {
    let mut time = Timer::new(500_000);
    time.update(400_000);
    assert_eq!(time.elapsed(), 400_000);
    time.update(100_000);
    assert_eq!(time.elapsed(), 500_000);
    time.update(100_000);
    assert_eq!(time.elapsed(), 0);
}

#[test]
fn animation_update_looping() {
    let r1 = Rect::new(0, 0, 16, 16);
    let r2 = Rect::new(16, 0, 16, 16);
    let r3 = Rect::new(32, 0, 16, 16);
    let mut anim = Animation::new(vec![r1, r2, r3], true);

    anim.update(ANIMATION_THRESHOLD - 10_000);
    assert_eq!(anim.get_act_frame(), r1);
    anim.update(20_000);
    assert_eq!(anim.get_act_frame(), r2);
    anim.update(ANIMATION_THRESHOLD + 10_000);
    assert_eq!(anim.get_act_frame(), r3);
    anim.update(1_000);
    assert_eq!(anim.get_act_frame(), r3);
    anim.update(5_000);
    assert_eq!(anim.get_act_frame(), r3);
    anim.update(ANIMATION_THRESHOLD);
    assert_eq!(anim.get_act_frame(), r1);
}

#[test]
fn animation_update_not_looping() {
    let r1 = Rect::new(0, 0, 16, 16);
    let r2 = Rect::new(16, 0, 16, 16);
    let mut anim = Animation::new(vec![r1, r2], false);

    anim.update(ANIMATION_THRESHOLD - 10_000);
    assert_eq!(anim.get_act_frame(), r1);
    anim.update(20_000);
    assert_eq!(anim.get_act_frame(), r2);
    anim.update(ANIMATION_THRESHOLD + 10_000);
    assert_eq!(anim.get_act_frame(), r2);
    anim.update(1_000);
    assert_eq!(anim.get_act_frame(), r2);
    anim.update(5_000);
    assert_eq!(anim.get_act_frame(), r2);
    anim.update(ANIMATION_THRESHOLD);
    assert_eq!(anim.get_act_frame(), r2);
}

#[test]
fn single_frame_animation_is_finished_at_once() {
    let anim = Animation::new(vec![Rect::new(0, 0, 16, 16)], false);
    assert!(anim.is_finished());
    let looping = Animation::new(vec![Rect::new(0, 0, 16, 16)], true);
    assert!(!looping.is_finished());
}

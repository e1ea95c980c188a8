use neon_sim::animation::{Anim, AnimationData, AnimationKey, Direction};
use neon_sim::region::{Region, RegionRow};

const FRAME: u64 = 200_000_000;

fn frames(n: usize) -> Vec<Region> {
    Region::row(0, 32000, 19000, 32000).take(n)
}

fn clip(n: usize) -> Anim {
    Anim::new(&frames(n), FRAME)
}

#[test]
fn new_clip_starts_at_its_first_frame() {
    let anim = clip(3);
    assert_eq!(anim.frames.len(), 3);
    assert_eq!(anim.frame_duration, FRAME);
    assert_eq!(anim.time_elapsed, 0);
    assert_eq!(anim.frame_index, 0);
    assert_eq!(anim.get_current_frame(), Region::new(0, 32000, 19000, 32000));
    assert_eq!(anim.current_frame(), Some(Region::new(0, 32000, 19000, 32000)));
}

#[test]
fn advance_adds_time_until_the_frame_is_exceeded() {
    let mut anim = clip(3);
    anim.advance(FRAME / 2);
    assert_eq!((anim.frame_index, anim.time_elapsed), (0, FRAME / 2));
    // exactly the duration does not exceed it
    anim.advance(FRAME / 2);
    assert_eq!((anim.frame_index, anim.time_elapsed), (0, FRAME));
    anim.advance(1);
    assert_eq!((anim.frame_index, anim.time_elapsed), (1, 0));
    assert_eq!(anim.get_current_frame(), Region::new(19000, 32000, 19000, 32000));
}

#[test]
fn advance_wraps_past_the_last_frame() {
    let mut anim = clip(3);
    for expected in [1, 2, 0, 1] {
        anim.advance(FRAME + 1);
        assert_eq!(anim.frame_index, expected);
        assert_eq!(anim.time_elapsed, 0);
    }
}

#[test]
fn half_frame_ticks_start_a_frame_every_third_tick() {
    let mut anim = clip(3);
    for _ in 0..4 {
        anim.advance(FRAME / 2);
    }
    // two frame durations have passed; the first frame took three ticks
    assert_eq!((anim.frame_index, anim.time_elapsed), (1, FRAME / 2));
    anim.advance(FRAME / 2);
    anim.advance(FRAME / 2);
    assert_eq!((anim.frame_index, anim.time_elapsed), (2, 0));
}

#[test]
fn full_loops_return_to_the_start() {
    for len in 1..5usize {
        for start in 0..len {
            let mut anim = clip(len);
            anim.frame_index = start;
            // each tick of two durations starts a new frame
            for _ in 0..(2 * len) {
                anim.advance(2 * FRAME);
            }
            assert_eq!(anim.frame_index, start);
        }
    }
}

#[test]
fn a_run_moves_the_index_by_the_frames_it_starts() {
    let mut anim = clip(4);
    let dts = [FRAME, FRAME, 1, 3 * FRAME, FRAME - 1, 2, FRAME];
    let mut started = 0;
    for dt in dts {
        let before = anim.frame_index;
        anim.advance(dt);
        if anim.frame_index != before {
            started += 1;
        }
    }
    assert_eq!(started, 3);
    assert_eq!(anim.frame_index, 3);
}

#[test]
fn empty_clip_has_no_frame() {
    let mut anim = clip(0);
    assert_eq!(anim.current_frame(), None);
    anim.advance(FRAME + 1);
    assert_eq!((anim.frame_index, anim.time_elapsed), (0, 0));
    assert_eq!(anim.current_frame(), None);
}

#[test]
fn advance_does_not_overflow() {
    let mut anim = Anim::new(&frames(2), u64::MAX);
    anim.advance(u64::MAX);
    assert_eq!((anim.frame_index, anim.time_elapsed), (0, u64::MAX));
    anim.advance(u64::MAX);
    assert_eq!((anim.frame_index, anim.time_elapsed), (1, 0));
    anim.frame_index = usize::MAX;
    anim.advance(u64::MAX);
    anim.advance(1);
    assert_eq!(anim.frame_index, 0);
}

#[test]
fn clone_keeps_the_clock() {
    let mut anim = clip(3);
    anim.advance(FRAME + 1);
    anim.advance(7);
    let copy = anim.clone();
    assert_eq!(copy.frames, anim.frames);
    assert_eq!((copy.frame_duration, copy.time_elapsed, copy.frame_index), (FRAME, 7, 1));
}

#[test]
fn only_the_clip_of_the_facing_advances() {
    let mut data = AnimationData { left: clip(3), right: clip(3), up: clip(3), down: clip(3) };
    data.advance(Direction::Up, FRAME + 1);
    data.advance(Direction::Left, 5);
    assert_eq!(data.up.frame_index, 1);
    assert_eq!(data.left.time_elapsed, 5);
    assert_eq!((data.down.frame_index, data.down.time_elapsed), (0, 0));
    assert_eq!((data.right.frame_index, data.right.time_elapsed), (0, 0));
    assert_eq!(data.clip(Direction::Up).frame_index, 1);
    assert_eq!(data.get(AnimationKey::PlayerLeft).time_elapsed, 5);
    let copy = data.clone();
    assert_eq!(copy.up.frame_index, 1);
    assert_eq!(copy.left.time_elapsed, 5);
}

#[test]
fn animation_keys_name_the_facings() {
    for d in [Direction::Up, Direction::Down, Direction::Left, Direction::Right] {
        assert_eq!(AnimationKey::for_direction(d).direction(), d);
    }
    assert_eq!(AnimationKey::PlayerRight.direction(), Direction::Right);
}

#[test]
fn region_row_steps_right_by_its_width() {
    let mut row = Region::row(5, 7, 19, 32);
    assert_eq!(row.next(), Some(Region::new(5, 7, 19, 32)));
    assert_eq!(row.next(), Some(Region::new(24, 7, 19, 32)));
    assert_eq!(row.take(2), vec![Region::new(43, 7, 19, 32), Region::new(62, 7, 19, 32)]);
    assert_eq!(Region::row(1, 2, 3, 4).take(0), Vec::new());
}

#[test]
fn region_row_ends_at_the_edge_of_the_range() {
    let mut row = Region::row(i64::MAX - 10, 0, 8, 1);
    assert_eq!(row.next(), Some(Region::new(i64::MAX - 10, 0, 8, 1)));
    assert_eq!(row.next(), Some(Region::new(i64::MAX - 2, 0, 8, 1)));
    assert_eq!(row.next(), None);
    assert_eq!(row.next(), None);
    assert_eq!(Region::row(i64::MAX, 0, 1, 1).take(5).len(), 1);
    assert_eq!(RegionRow { next_region: None }.take(3), Vec::new());
}

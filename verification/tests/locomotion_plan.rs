use physics_rl_environment::locomotion::{plan_pushes, Direction, FloorContact, GoalLatch, Push};
use physics_rl_environment::moves::Move;

fn contact(x: f32, attached: bool) -> FloorContact {
    FloorContact { x: x.to_bits(), attached }
}

fn mv(left: bool, right: bool, up: bool) -> Move {
    Move { left, right, up }
}

#[test]
fn no_push_off_the_ground() {
    let contacts: Vec<FloorContact> = Vec::new();
    assert!(plan_pushes(mv(true, true, true), &contacts).is_empty());
}

#[test]
fn idle_move_pushes_nothing() {
    let contacts = vec![contact(0.0, false), contact(1.0, true)];
    assert!(plan_pushes(Move::default(), &contacts).is_empty());
}

#[test]
fn left_pushes_against_the_leftmost_contact() {
    let contacts = vec![contact(0.5, false), contact(-1.5, true), contact(2.0, false)];
    assert_eq!(
        plan_pushes(mv(true, false, false), &contacts),
        vec![Push { contact: 1, direction: Direction::Left, reaction: true }]
    );
}

#[test]
fn right_pushes_against_the_rightmost_contact() {
    let contacts = vec![contact(0.5, false), contact(-1.5, true), contact(2.0, false)];
    assert_eq!(
        plan_pushes(mv(false, true, false), &contacts),
        vec![Push { contact: 2, direction: Direction::Right, reaction: false }]
    );
}

#[test]
fn ties_go_to_the_first_on_the_left_and_the_last_on_the_right() {
    let contacts = vec![contact(1.0, false), contact(1.0, true), contact(1.0, false)];
    assert_eq!(
        plan_pushes(mv(true, true, false), &contacts),
        vec![
            Push { contact: 0, direction: Direction::Left, reaction: false },
            Push { contact: 2, direction: Direction::Right, reaction: false },
        ]
    );
}

#[test]
fn up_pushes_against_every_contact() {
    let contacts = vec![contact(0.5, false), contact(-1.5, true), contact(2.0, false)];
    assert_eq!(
        plan_pushes(mv(false, false, true), &contacts),
        vec![
            Push { contact: 0, direction: Direction::Up, reaction: false },
            Push { contact: 1, direction: Direction::Up, reaction: true },
            Push { contact: 2, direction: Direction::Up, reaction: false },
        ]
    );
}

#[test]
fn all_switches_push_sideways_first() {
    let contacts = vec![contact(-0.25, true), contact(0.25, false)];
    assert_eq!(
        plan_pushes(mv(true, true, true), &contacts),
        vec![
            Push { contact: 0, direction: Direction::Left, reaction: true },
            Push { contact: 1, direction: Direction::Right, reaction: false },
            Push { contact: 0, direction: Direction::Up, reaction: true },
            Push { contact: 1, direction: Direction::Up, reaction: false },
        ]
    );
}

#[test]
fn one_contact_serves_every_push() {
    let contacts = vec![contact(3.0, false)];
    let plan = plan_pushes(mv(true, true, true), &contacts);
    assert_eq!(plan.len(), 3);
    assert!(plan.iter().all(|p| p.contact == 0 && !p.reaction));
}

#[test]
fn latch_starts_unset() {
    assert!(!GoalLatch::new().won());
}

#[test]
fn latch_sets_below_epsilon_only() {
    let mut latch = GoalLatch::new();
    latch.record(None);
    assert!(!latch.won());
    latch.record(Some(1.0f32.to_bits()));
    assert!(!latch.won());
    latch.record(Some(1e-7f32.to_bits()));
    assert!(!latch.won());
    latch.record(Some(f32::NAN.to_bits()));
    assert!(!latch.won());
    latch.record(Some(9e-8f32.to_bits()));
    assert!(latch.won());
}

#[test]
fn latch_sets_at_distance_zero() {
    let mut latch = GoalLatch::new();
    latch.record(Some(0.0f32.to_bits()));
    assert!(latch.won());
}

#[test]
fn won_is_monotonic() {
    let mut latch = GoalLatch::new();
    latch.record(Some(0.0f32.to_bits()));
    assert!(latch.won());
    for d in [None, Some(5.0f32), Some(f32::INFINITY), Some(f32::NAN), Some(0.0), None] {
        latch.record(d.map(|x| x.to_bits()));
        assert!(latch.won());
    }
}

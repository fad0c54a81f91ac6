use physics_rl_environment::agent::{Agent, DQNAgent, GeneticAgent};
use physics_rl_environment::moves::Move;

const L: Move = Move { left: true, right: false, up: false };
const R: Move = Move { left: false, right: true, up: false };
const U: Move = Move { left: false, right: false, up: true };
const IDLE: Move = Move { left: false, right: false, up: false };

fn q(values: [f32; 8]) -> [u32; 8] {
    values.map(|v| v.to_bits())
}

#[test]
fn default_move_is_idle() {
    assert_eq!(Move::default(), IDLE);
}

#[test]
fn action_index_decodes_by_clear_bits() {
    assert_eq!(Move::from_action(0), Move { left: true, right: true, up: true });
    assert_eq!(Move::from_action(1), Move { left: false, right: true, up: true });
    assert_eq!(Move::from_action(2), Move { left: true, right: false, up: true });
    assert_eq!(Move::from_action(3), Move { left: false, right: false, up: true });
    assert_eq!(Move::from_action(4), Move { left: true, right: true, up: false });
    assert_eq!(Move::from_action(5), Move { left: false, right: true, up: false });
    assert_eq!(Move::from_action(6), Move { left: true, right: false, up: false });
    assert_eq!(Move::from_action(7), IDLE);
    for i in 0..64usize {
        let m = Move::from_action(i);
        assert_eq!(m.left, (i & 1) == 0);
        assert_eq!(m.right, (i & 2) == 0);
        assert_eq!(m.up, (i & 4) == 0);
    }
}

#[test]
fn genetic_agent_holds_each_move() {
    let mut agent = GeneticAgent::new(vec![L, R, U], 2);
    let played: Vec<Move> = (0..6).map(|_| agent.get_move()).collect();
    assert_eq!(played, vec![L, L, R, R, U, U]);
}

#[test]
fn genetic_agent_idles_after_its_moves() {
    let mut agent = GeneticAgent::new(vec![L, R], 1);
    assert_eq!(agent.get_move(), L);
    assert_eq!(agent.get_move(), R);
    for _ in 0..10 {
        assert_eq!(agent.get_move(), IDLE);
    }
}

#[test]
fn genetic_agent_without_moves_idles() {
    let mut agent = GeneticAgent::new(Vec::new(), 5);
    assert_eq!(agent.get_move(), IDLE);
    assert_eq!(agent.get_move(), IDLE);
}

#[test]
fn genetic_agent_reads_back() {
    let agent = GeneticAgent::new(vec![U, L], 7);
    assert_eq!(agent.recorded(), vec![U, L]);
    assert_eq!(agent.repeat_move(), 7);
}

#[test]
fn snapshot_keeps_the_cursor() {
    let mut agent = GeneticAgent::new(vec![L, R, U], 1);
    assert_eq!(agent.get_move(), L);
    let mut copy = agent.snapshot();
    assert_eq!(copy.get_move(), R);
    assert_eq!(agent.get_move(), R);
    assert_eq!(copy.get_move(), U);
}

#[test]
fn policy_chooses_at_its_first_tick() {
    let mut agent = DQNAgent::new(3);
    assert!(agent.needs_decision());
    let m = agent.get_move(&q([0.0, 0.1, 0.9, 0.2, 0.0, 0.0, 0.0, 0.0]));
    assert_eq!(m, Move::from_action(2));
    assert!(!agent.needs_decision());
}

#[test]
fn policy_holds_its_choice() {
    let mut agent = DQNAgent::new(3);
    let first = agent.get_move(&q([0.0, 0.0, 0.0, 0.0, 0.0, 5.0, 0.0, 0.0]));
    assert_eq!(first, Move::from_action(5));
    let other = q([9.0, 0.0, 0.0, 0.0, 0.0, 0.0, 0.0, 0.0]);
    assert_eq!(agent.get_move(&other), first);
    assert_eq!(agent.get_move(&other), first);
    assert!(agent.needs_decision());
    assert_eq!(agent.get_move(&other), Move::from_action(0));
}

#[test]
fn policy_takes_the_first_of_equal_values() {
    let mut agent = DQNAgent::new(1);
    assert_eq!(agent.get_move(&q([1.0, 2.0, 2.0, 0.0, 2.0, 0.0, 0.0, 0.0])), Move::from_action(1));
    assert_eq!(agent.get_move(&q([0.0; 8])), Move::from_action(0));
    assert_eq!(
        agent.get_move(&q([-3.0, -2.0, -1.0, -0.5, -4.0, -0.25, -9.0, -0.25])),
        Move::from_action(5)
    );
}

#[test]
fn policy_with_no_hold_chooses_every_tick() {
    let mut agent = DQNAgent::new(0);
    for i in 0..8 {
        let mut values = [0.0f32; 8];
        values[i] = 1.0;
        assert!(agent.needs_decision());
        assert_eq!(agent.get_move(&q(values)), Move::from_action(i));
    }
}

#[test]
fn agent_enum_forwards() {
    let mut genetic = Agent::Genetic(GeneticAgent::new(vec![R, U], 1));
    assert!(!genetic.needs_decision());
    assert_eq!(genetic.get_move(&q([0.0; 8])), R);
    assert_eq!(genetic.get_move(&q([0.0; 8])), U);
    assert_eq!(genetic.get_move(&q([0.0; 8])), IDLE);

    let mut policy = Agent::DQN(DQNAgent::new(2));
    assert!(policy.needs_decision());
    assert_eq!(policy.get_move(&q([0.0, 0.0, 0.0, 1.0, 0.0, 0.0, 0.0, 0.0])), Move::from_action(3));
    assert!(!policy.needs_decision());
    let mut copy = policy.snapshot();
    assert_eq!(copy.get_move(&q([1.0, 0.0, 0.0, 0.0, 0.0, 0.0, 0.0, 0.0])), Move::from_action(3));
    assert!(copy.needs_decision());
    assert!(!policy.needs_decision());
}

#[test]
fn agents_made_and_advanced_are_valid() {
    let mut agent = GeneticAgent::new(vec![L, R, U], 2);
    assert!(agent.is_valid());
    for _ in 0..10 {
        agent.get_move();
        assert!(agent.is_valid());
    }
    assert!(GeneticAgent::new(Vec::new(), 1).is_valid());
    assert!(Agent::Genetic(GeneticAgent::new(vec![L], usize::MAX)).is_valid());
    assert!(Agent::DQN(DQNAgent::new(0)).is_valid());
}

#[test]
fn an_agent_that_holds_moves_for_no_tick_is_not_valid() {
    assert!(!GeneticAgent::new(vec![L, R], 0).is_valid());
    assert!(!Agent::Genetic(GeneticAgent::new(Vec::new(), 0)).is_valid());
}

#[test]
fn an_agent_whose_span_exceeds_the_machine_word_is_not_valid() {
    assert!(!GeneticAgent::new(vec![L, R], usize::MAX).is_valid());
    assert!(!GeneticAgent::new(vec![L, R, U], usize::MAX / 2).is_valid());
    assert!(GeneticAgent::new(vec![L, R], usize::MAX / 2).is_valid());
}

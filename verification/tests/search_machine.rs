use physics_rl_environment::agent::Agent;
use physics_rl_environment::genetic::{GeneticAlgorithm, Message};
use physics_rl_environment::moves::Move;
use physics_rl_environment::scalar::less;
use physics_rl_environment::search::{Request, Search};
use rand::seq::SliceRandom;
use rand::Rng;
use rand::SeedableRng;

fn settings(agents: usize, keep_best: bool, rate: f32) -> GeneticAlgorithm {
    GeneticAlgorithm {
        number_of_steps: 45,
        number_of_agents: agents,
        repeat_move: 10,
        mutation_rate: rate.to_bits(),
        keep_best,
    }
}

/// A stand-in for a rollout: the fewer switches to the right, the farther.
fn fitness(genome: &Vec<Move>) -> u32 {
    let missing = genome.iter().filter(|m| !m.right).count();
    let extra = genome.iter().filter(|m| m.left).count();
    (missing as f32 + 0.25 * extra as f32).to_bits()
}

fn parents(search: &Search, rng: &mut rand::rngs::StdRng) -> (usize, usize) {
    let generation = search.current();
    let worst = f32::from_bits(generation.worst_score().unwrap());
    let indices: Vec<usize> = (0..generation.len()).collect();
    let picked: Vec<usize> = indices
        .choose_multiple_weighted(rng, 2, |i| worst + 1.0 - f32::from_bits(generation.score(*i)))
        .unwrap()
        .copied()
        .collect();
    (picked[0], picked[1])
}

fn draws(rng: &mut rand::rngs::StdRng, genome_length: usize) -> Vec<u32> {
    (0..3 * genome_length).map(|_| rng.gen::<f32>().to_bits()).collect()
}

/// Drives a search until it has reported `reports` times or stops.
fn drive(
    algorithm: GeneticAlgorithm,
    sender: &crossbeam::channel::Sender<Message>,
    reports: usize,
) -> (Search, usize) {
    let mut rng = rand::rngs::StdRng::from_entropy();
    let mut search = Search::start(algorithm, &mut rng);
    let mut reported = 0;
    loop {
        match search.request() {
            Request::Evaluate => {
                let score = fitness(search.pending_genome());
                search.scored(&mut rng, score);
            }
            Request::Select => {
                let (first, second) = parents(&search, &mut rng);
                let draws = draws(&mut rng, algorithm.genome_length());
                search.bred(&mut rng, first, second, &draws);
            }
            Request::Report => {
                if reported == reports {
                    return (search, reported);
                }
                if search.report(sender) != Request::Stop {
                    reported += 1;
                }
            }
            Request::Stop => return (search, reported),
        }
    }
}

#[test]
fn search_starts_by_asking_for_a_score() {
    let mut rng = rand::rngs::StdRng::from_entropy();
    let search = Search::start(settings(5, false, 0.1), &mut rng);
    assert_eq!(search.request(), Request::Evaluate);
    assert_eq!(search.pending_genome().len(), 4);
    assert_eq!(search.current().len(), 0);
}

#[test]
fn founding_asks_for_as_many_scores_as_agents() {
    let mut rng = rand::rngs::StdRng::from_entropy();
    let mut search = Search::start(settings(3, false, 0.1), &mut rng);
    assert_eq!(search.scored(&mut rng, 3.0f32.to_bits()), Request::Evaluate);
    assert_eq!(search.scored(&mut rng, 1.0f32.to_bits()), Request::Evaluate);
    assert_eq!(search.scored(&mut rng, 2.0f32.to_bits()), Request::Report);
    assert_eq!(search.current().len(), 3);
    assert_eq!(search.current().best(), Some(1));
}

#[test]
fn report_sends_the_best_and_asks_for_parents() {
    let (sender, receiver) = crossbeam::channel::bounded::<Message>(4);
    let mut rng = rand::rngs::StdRng::from_entropy();
    let mut search = Search::start(settings(2, true, 0.1), &mut rng);
    search.scored(&mut rng, 3.0f32.to_bits());
    let second = search.pending_genome().clone();
    search.scored(&mut rng, 1.0f32.to_bits());
    assert_eq!(search.report(&sender), Request::Select);
    let (score, agent) = receiver.try_recv().unwrap();
    assert_eq!(score, 1.0f32.to_bits());
    match agent {
        Agent::Genetic(agent) => {
            assert_eq!(agent.recorded(), second);
            assert_eq!(agent.repeat_move(), 10);
        }
        _ => panic!("the search reports recorded sequences"),
    }
    assert!(receiver.try_recv().is_err());
}

#[test]
fn refused_report_stops_the_search() {
    let (sender, receiver) = crossbeam::channel::bounded::<Message>(4);
    drop(receiver);
    let (search, reported) = drive(settings(6, false, 0.1), &sender, 10);
    assert_eq!(reported, 0);
    assert_eq!(search.request(), Request::Stop);
}

#[test]
fn search_stops_when_the_consumer_leaves() {
    let (sender, receiver) = crossbeam::channel::bounded::<Message>(100);
    let (mut search, reported) = drive(settings(6, true, 0.1), &sender, 3);
    assert_eq!(reported, 3);
    assert_eq!(receiver.try_iter().count(), 3);
    drop(receiver);
    assert_eq!(search.report(&sender), Request::Stop);
    assert_eq!(search.request(), Request::Stop);
}

#[test]
fn every_generation_has_the_size_asked_for() {
    let (sender, receiver) = crossbeam::channel::bounded::<Message>(100);
    for keep_best in [false, true] {
        let (search, reported) = drive(settings(7, keep_best, 0.1), &sender, 5);
        assert_eq!(reported, 5);
        assert_eq!(search.current().len(), 7);
        for i in 0..7 {
            assert_eq!(search.current().genome(i).len(), 4);
        }
    }
    assert_eq!(receiver.try_iter().count(), 10);
}

#[test]
fn elitism_never_worsens_the_best_score() {
    let (sender, receiver) = crossbeam::channel::bounded::<Message>(100);
    let (_, reported) = drive(settings(50, true, 0.1), &sender, 20);
    assert_eq!(reported, 20);
    let scores: Vec<u32> = receiver.try_iter().map(|(score, _)| score).collect();
    assert_eq!(scores.len(), 20);
    for pair in scores.windows(2) {
        assert!(!less(pair[0], pair[1]), "{:?}", scores);
    }
    assert!(less(scores[19], 4.0f32.to_bits()) || scores[19] == scores[0]);
}

#[test]
fn reported_score_is_the_fitness_of_the_reported_agent() {
    let (sender, receiver) = crossbeam::channel::bounded::<Message>(100);
    drive(settings(12, false, 0.3), &sender, 6);
    for (score, agent) in receiver.try_iter() {
        match agent {
            Agent::Genetic(agent) => assert_eq!(score, fitness(&agent.recorded())),
            _ => panic!("the search reports recorded sequences"),
        }
    }
}

#[test]
fn a_single_kept_agent_is_reported_again_and_again() {
    let (sender, receiver) = crossbeam::channel::bounded::<Message>(100);
    let mut rng = rand::rngs::StdRng::from_entropy();
    let mut search = Search::start(settings(1, true, 0.1), &mut rng);
    assert_eq!(search.scored(&mut rng, 2.5f32.to_bits()), Request::Report);
    for _ in 0..5 {
        assert_eq!(search.report(&sender), Request::Report);
    }
    let scores: Vec<u32> = receiver.try_iter().map(|(score, _)| score).collect();
    assert_eq!(scores, vec![2.5f32.to_bits(); 5]);
}

#[test]
fn children_at_rate_zero_come_from_the_generation() {
    let mut rng = rand::rngs::StdRng::from_entropy();
    let (sender, _receiver) = crossbeam::channel::bounded::<Message>(100);
    let algorithm = settings(2, false, 0.0);
    let mut search = Search::start(algorithm, &mut rng);
    let first = search.pending_genome().clone();
    search.scored(&mut rng, 1.0f32.to_bits());
    let second = search.pending_genome().clone();
    search.scored(&mut rng, 2.0f32.to_bits());
    assert_eq!(search.report(&sender), Request::Select);
    let draws = draws(&mut rng, 4);
    assert_eq!(search.bred(&mut rng, 0, 1, &draws), Request::Evaluate);
    let child = search.pending_genome().clone();
    assert_eq!(child.len(), 4);
    for i in 0..4 {
        assert!(child[i] == first[i] || child[i] == second[i]);
    }
}

#[test]
fn candidate_is_the_best_of_the_generation() {
    let mut rng = rand::rngs::StdRng::from_entropy();
    let mut search = Search::start(settings(3, false, 0.1), &mut rng);
    search.scored(&mut rng, 3.0f32.to_bits());
    search.scored(&mut rng, 0.5f32.to_bits());
    let third = search.pending_genome().clone();
    search.scored(&mut rng, 0.25f32.to_bits());
    let (score, agent) = search.candidate();
    assert_eq!(score, 0.25f32.to_bits());
    match agent {
        Agent::Genetic(agent) => assert_eq!(agent.recorded(), third),
        _ => panic!("the search reports recorded sequences"),
    }
}

#[test]
fn a_refused_report_stops_and_a_taken_one_goes_on() {
    let mut rng = rand::rngs::StdRng::from_entropy();
    let mut refused = Search::start(settings(1, false, 0.1), &mut rng);
    assert_eq!(refused.scored(&mut rng, 3.0f32.to_bits()), Request::Report);
    assert_eq!(refused.reported(false), Request::Stop);
    assert_eq!(refused.request(), Request::Stop);

    let mut taken = Search::start(settings(2, true, 0.1), &mut rng);
    taken.scored(&mut rng, 3.0f32.to_bits());
    assert_eq!(taken.scored(&mut rng, 4.0f32.to_bits()), Request::Report);
    assert_eq!(taken.reported(true), Request::Select);
    assert_eq!(taken.current().len(), 2);

    let mut alone = Search::start(settings(1, true, 0.1), &mut rng);
    alone.scored(&mut rng, 3.0f32.to_bits());
    assert_eq!(alone.reported(true), Request::Report);
    assert_eq!(alone.reported(true), Request::Report);
    assert_eq!(alone.reported(false), Request::Stop);
}

#[test]
fn a_kept_best_opens_the_next_generation() {
    let mut rng = rand::rngs::StdRng::from_entropy();
    let mut search = Search::start(settings(2, true, 0.0), &mut rng);
    search.scored(&mut rng, 3.0f32.to_bits());
    let best = search.pending_genome().clone();
    search.scored(&mut rng, 1.0f32.to_bits());
    assert_eq!(search.reported(true), Request::Select);
    let draws = vec![0.5f32.to_bits(); 12];
    assert_eq!(search.bred(&mut rng, 1, 0, &draws), Request::Evaluate);
    assert_eq!(search.scored(&mut rng, 2.0f32.to_bits()), Request::Report);
    assert_eq!(search.current().len(), 2);
    assert_eq!(search.current().score(0), 1.0f32.to_bits());
    assert_eq!(search.current().genome(0), best);
    assert_eq!(search.current().score(1), 2.0f32.to_bits());
    assert_eq!(search.current().best(), Some(0));
}

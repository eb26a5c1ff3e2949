use rsgenetic::pheno::Phenotype;
use rsgenetic::sim::select::tournament::{draw_entrants, tournament_pair};
use rsgenetic::sim::select::{check_count, scores, MaximizeSelector, Selector, TournamentSelector};
use rsgenetic::sim::FitnessType;
use std::cmp;

#[derive(Clone)]
struct Test {
    f: i64,
}

impl Phenotype for Test {
    fn fitness(&self) -> i64 {
        (self.f - 0).abs()
    }

    fn crossover(&self, t: &Test) -> Test {
        Test { f: cmp::min(self.f, t.f) }
    }

    fn mutate(&self) -> Test {
        if self.f < 0 {
            Test { f: self.f + 1 }
        } else if self.f > 0 {
            Test { f: self.f - 1 }
        } else {
            self.clone()
        }
    }
}

fn population_of(values: &[i64]) -> Vec<Box<Test>> {
    values.iter().map(|f| Box::new(Test { f: *f })).collect()
}

fn hundred() -> Vec<Box<Test>> {
    (0..100).map(|i| Box::new(Test { f: i })).collect()
}

#[test]
fn count_is_tested_against_half_the_population() {
    assert!(!check_count(0, 100));
    assert!(check_count(2, 100));
    assert!(!check_count(5, 100));
    assert!(!check_count(100, 100));
    assert!(!check_count(50, 100));
    assert!(check_count(48, 100));
    assert!(check_count(2, 5));
    assert!(!check_count(2, 4));
    assert!(!check_count(2, 0));
    assert!(!check_count(usize::MAX - 1, usize::MAX));
    assert!(!check_count(usize::MAX, usize::MAX));
}

#[test]
fn each_member_is_scored() {
    let population = population_of(&[3, -4, 0]);
    assert_eq!(scores(&population), vec![3, 4, 0]);
    let nobody: Vec<Box<Test>> = Vec::new();
    assert_eq!(scores(&nobody), Vec::<i64>::new());
}

#[test]
fn rank_selector_rejects_bad_counts() {
    let population = hundred();
    for count in [0usize, 1, 5, 50, 100, 1000] {
        let selector = MaximizeSelector::new(count);
        let outcome = selector.select(&population, FitnessType::Maximize);
        assert_eq!(
            outcome.err().unwrap(),
            format!(
                "Invalid parameter `count`: {}. Should be larger than zero, a multiple of two \
                 and less than half the population size.",
                count
            )
        );
    }
}

#[test]
fn rank_selector_repeats_the_top_two_when_maximizing() {
    let population = hundred();
    let selector = MaximizeSelector::new(6);
    let parents = selector.select(&population, FitnessType::Maximize).unwrap();
    assert_eq!(parents.len() * 2, 6);
    for pair in parents.iter() {
        assert_eq!(pair.0.f, 99);
        assert_eq!(pair.1.f, 98);
    }
}

#[test]
fn rank_selector_repeats_the_bottom_two_when_minimizing() {
    let population = hundred();
    let selector = MaximizeSelector::new(4);
    let parents = selector.select(&population, FitnessType::Minimize).unwrap();
    assert_eq!(parents.len(), 2);
    for pair in parents.iter() {
        assert_eq!(pair.0.f, 0);
        assert_eq!(pair.1.f, 1);
    }
}

#[test]
fn rank_selector_breaks_ties_as_a_stable_sort_does() {
    let selector = MaximizeSelector::new(2);
    let high = population_of(&[5, -5, 3, 1, 0]);
    let parents = selector.select(&high, FitnessType::Maximize).unwrap();
    assert_eq!(parents.len(), 1);
    assert_eq!(parents[0].0.f, -5);
    assert_eq!(parents[0].1.f, 5);
    let low = population_of(&[3, -3, 7, 8, 9]);
    let parents = selector.select(&low, FitnessType::Minimize).unwrap();
    assert_eq!(parents[0].0.f, 3);
    assert_eq!(parents[0].1.f, -3);
}

#[test]
fn rank_selector_accepts_the_largest_count_that_fits() {
    let population = hundred();
    let selector = MaximizeSelector::new(48);
    let parents = selector.select(&population, FitnessType::Maximize).unwrap();
    assert_eq!(parents.len(), 24);
}

#[test]
fn tournament_of_given_entrants_has_its_top_two() {
    let population: Vec<Box<Test>> = (0..10).map(|i| Box::new(Test { f: i })).collect();
    let draws = vec![7, 3, 9, 4];
    let pair = tournament_pair(&population, &draws, FitnessType::Maximize);
    assert_eq!((pair.0.f, pair.1.f), (9, 7));
    let pair = tournament_pair(&population, &draws, FitnessType::Minimize);
    assert_eq!((pair.0.f, pair.1.f), (3, 4));
}

#[test]
fn entrant_drawn_twice_can_win_twice() {
    let population: Vec<Box<Test>> = (0..10).map(|i| Box::new(Test { f: i })).collect();
    let draws = vec![7, 3, 9, 3];
    let pair = tournament_pair(&population, &draws, FitnessType::Minimize);
    assert_eq!((pair.0.f, pair.1.f), (3, 3));
    let pair = tournament_pair(&population, &vec![8, 8], FitnessType::Maximize);
    assert_eq!((pair.0.f, pair.1.f), (8, 8));
}

#[test]
fn tournament_breaks_ties_by_the_order_of_the_draws() {
    let population = population_of(&[5, -5, 2]);
    let pair = tournament_pair(&population, &vec![0, 2, 1], FitnessType::Maximize);
    assert_eq!((pair.0.f, pair.1.f), (-5, 5));
    let pair = tournament_pair(&population, &vec![1, 2, 0], FitnessType::Maximize);
    assert_eq!((pair.0.f, pair.1.f), (5, -5));
    let pair = tournament_pair(&population, &vec![1, 0], FitnessType::Minimize);
    assert_eq!((pair.0.f, pair.1.f), (-5, 5));
}

#[test]
fn entrants_are_drawn_from_the_whole_population() {
    let mut rng = rand::thread_rng();
    let mut seen = vec![false; 10];
    let mut round = 0;
    while round < 200 {
        let draws = draw_entrants(&mut rng, 50, 10);
        assert_eq!(draws.len(), 50);
        for at in draws.iter() {
            assert!(*at < 10);
            seen[*at] = true;
        }
        round += 1;
    }
    assert!(seen.iter().all(|s| *s));
    assert_eq!(draw_entrants(&mut rng, 0, 10).len(), 0);
    assert_eq!(draw_entrants(&mut rng, 3, 1), vec![0, 0, 0]);
}

#[test]
fn tournament_selector_rejects_bad_participants() {
    let population = hundred();
    for participants in [0usize, 1, 100, 101] {
        let selector = TournamentSelector::new(2, participants);
        let outcome = selector.select(&population, FitnessType::Maximize);
        assert_eq!(
            outcome.err().unwrap(),
            format!(
                "Invalid parameter `participants`: {}. Should be larger than one and less than \
                 the population size.",
                participants
            )
        );
    }
}

#[test]
fn tournament_selector_tests_count_first() {
    let population = hundred();
    let selector = TournamentSelector::new(3, 0);
    let outcome = selector.select(&population, FitnessType::Maximize);
    assert_eq!(
        outcome.err().unwrap(),
        "Invalid parameter `count`: 3. Should be larger than zero, a multiple of two and less \
         than half the population size."
    );
}

#[test]
fn tournament_winners_stand_above_their_tournament() {
    let population = hundred();
    let selector = TournamentSelector::new(20, 99);
    let parents = selector.select(&population, FitnessType::Maximize).unwrap();
    assert_eq!(parents.len(), 10);
    for pair in parents.iter() {
        assert!(pair.0.fitness() >= pair.1.fitness());
        assert!(0 <= pair.1.f && pair.0.f < 100);
    }
    let parents = selector.select(&population, FitnessType::Minimize).unwrap();
    assert_eq!(parents.len(), 10);
    for pair in parents.iter() {
        assert!(pair.0.fitness() <= pair.1.fitness());
    }
}

#[test]
fn tournament_of_two_entrants_orders_them() {
    let population = hundred();
    let selector = TournamentSelector::new(40, 2);
    let parents = selector.select(&population, FitnessType::Minimize).unwrap();
    assert_eq!(parents.len() * 2, 40);
    for pair in parents.iter() {
        assert!(pair.0.f <= pair.1.f);
    }
}

#[test]
fn winners_are_the_top_two_of_whoever_was_drawn() {
    let population: Vec<Box<Test>> = (0..40).map(|i| Box::new(Test { f: i - 20 })).collect();
    let mut rng = rand::thread_rng();
    let mut round = 0;
    while round < 200 {
        let draws = draw_entrants(&mut rng, 7, population.len());
        let mut drawn: Vec<i64> = draws.iter().map(|at| population[*at].fitness()).collect();
        drawn.sort();
        let low = tournament_pair(&population, &draws, FitnessType::Minimize);
        assert_eq!((low.0.fitness(), low.1.fitness()), (drawn[0], drawn[1]));
        let high = tournament_pair(&population, &draws, FitnessType::Maximize);
        assert_eq!((high.0.fitness(), high.1.fitness()), (drawn[6], drawn[5]));
        round += 1;
    }
}

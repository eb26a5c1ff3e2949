use rsgenetic::pheno::Phenotype;
use rsgenetic::sim::select::{Selector, TournamentSelector};
use rsgenetic::sim::FitnessType;
use std::cmp;

#[derive(Clone)]
struct Test {
    f: i64,
}

impl Phenotype for Test {
    fn fitness(&self) -> i64 {
        (self.f - 0).abs()
    }

    fn crossover(&self, t: &Test) -> Test {
        Test { f: cmp::min(self.f, t.f) }
    }

    fn mutate(&self) -> Test {
        if self.f < 0 {
            Test { f: self.f + 1 }
        } else if self.f > 0 {
            Test { f: self.f - 1 }
        } else {
            self.clone()
        }
    }
}

#[test]
fn test_count_zero() {
    let selector = TournamentSelector::new(0, 1);
    let population: Vec<Box<Test>> = (0..100).map(|i| Box::new(Test { f: i })).collect();
    assert!(selector.select(&population, FitnessType::Minimize).is_err());
}

#[test]
fn test_participants_zero() {
    let selector = TournamentSelector::new(2, 0);
    let population: Vec<Box<Test>> = (0..100).map(|i| Box::new(Test { f: i })).collect();
    assert!(selector.select(&population, FitnessType::Minimize).is_err());
}

#[test]
fn test_count_odd() {
    let selector = TournamentSelector::new(5, 1);
    let population: Vec<Box<Test>> = (0..100).map(|i| Box::new(Test { f: i })).collect();
    assert!(selector.select(&population, FitnessType::Minimize).is_err());
}

#[test]
fn test_count_too_large() {
    let selector = TournamentSelector::new(100, 1);
    let population: Vec<Box<Test>> = (0..100).map(|i| Box::new(Test { f: i })).collect();
    assert!(selector.select(&population, FitnessType::Minimize).is_err());
}

#[test]
fn test_participants_too_large() {
    let selector = TournamentSelector::new(2, 100);
    let population: Vec<Box<Test>> = (0..100).map(|i| Box::new(Test { f: i })).collect();
    assert!(selector.select(&population, FitnessType::Minimize).is_err());
}

#[test]
fn test_result_size() {
    let selector = TournamentSelector::new(20, 5);
    let population: Vec<Box<Test>> = (0..100).map(|i| Box::new(Test { f: i })).collect();
    assert_eq!(20,
               selector.select(&population, FitnessType::Minimize).unwrap().len() * 2);
}

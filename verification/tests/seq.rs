use rsgenetic::pheno::Phenotype;
use rsgenetic::sim::select::MaximizeSelector;
use rsgenetic::sim::seq::Simulator;
use std::cmp;

#[derive(Clone)]
struct Test {
    f: i64,
}

impl Phenotype for Test {
    fn fitness(&self) -> i64 {
        (self.f - 0).abs()
    }

    fn crossover(&self, t: &Test) -> Test {
        Test { f: cmp::min(self.f, t.f) }
    }

    fn mutate(&self) -> Test {
        if self.f < 0 {
            Test { f: self.f + 1 }
        } else if self.f > 0 {
            Test { f: self.f - 1 }
        } else {
            self.clone()
        }
    }
}

#[test]
fn test_kill_off_count() {
    let selector = MaximizeSelector::new(2);
    let population: Vec<Box<Test>> = (0..100).map(|i| Box::new(Test { f: i })).collect();
    let mut s = *Simulator::builder()
                     .set_population(&population)
                     .set_selector(Box::new(selector))
                     .build();
    s.kill_off(10);
    assert_eq!(s.population().unwrap().len(), 90);
}

#[test]
fn test_max_iters() {
    let selector = MaximizeSelector::new(2);
    let population: Vec<Box<Test>> = (0..100).map(|i| Box::new(Test { f: i })).collect();
    let mut s = *Simulator::builder()
                     .set_population(&population)
                     .set_selector(Box::new(selector))
                     .set_max_iters(2)
                     .build();
    s.run();
    assert!(s.iterations() <= 2);
}

#[test]
fn test_early_stopping() {
    let selector = MaximizeSelector::new(2);
    let population: Vec<Box<Test>> = (0..100).map(|_| Box::new(Test { f: 0 })).collect();
    let mut s = *Simulator::builder()
                     .set_population(&population)
                     .set_early_stop(10, 5)
                     .set_selector(Box::new(selector))
                     .set_max_iters(10)
                     .build();
    s.run();
    assert!(s.iterations() <= 5);
}

#[test]
fn test_selector_error_propagate() {
    let selector = MaximizeSelector::new(0);
    let population: Vec<Box<Test>> = (0..100).map(|i| Box::new(Test { f: i })).collect();
    let mut s = *Simulator::builder()
                     .set_population(&population)
                     .set_selector(Box::new(selector))
                     .build();
    s.run();
    assert!(s.get().is_err());
}

#[test]
fn test_no_population() {
    let mut s: Simulator<Test> = *Simulator::builder().build();
    s.run();
    assert!(s.get().is_err());
}

use sav1n::cq_search::{CqHistory, SecantSearch, DEFAULT_WINDOW, MAX_ITERATIONS, TOLERANCE};

// The secant's estimate from the state of a search.
fn secant(search: &SecantSearch) -> u32 {
    let x1 = search.x1() as f64;
    let x2 = search.x2() as f64;
    let fx1 = f64::from_bits(search.fx1());
    let fx2 = f64::from_bits(search.fx2());
    (x1 - (fx1 * ((x1 - x2) / (fx1 - fx2)))).floor() as u32
}

// Runs a search to its end; hands back the level, the steps made and the
// levels measured on the way.
fn run(f: impl Fn(u32) -> f64, min: u32, max: u32, low: u32, high: u32) -> (u32, u32, Vec<u32>) {
    let mut search =
        SecantSearch::new(min, max, low, high, f(low).to_bits(), f(high).to_bits());
    let mut probes = Vec::new();
    while let Some(next) = search.step(secant(&search)) {
        probes.push(next);
        search.measured(f(next).to_bits());
    }
    (search.result(), search.iterations(), probes)
}

#[test]
fn secant_search_on_a_line() {
    let f = |x: u32| x as f64 / 60.0 - 0.95;
    let (cq, iterations, probes) = run(f, 10, 60, 20, 40);
    assert!(iterations <= 10);
    assert!((10..=60).contains(&cq));
    assert_eq!(probes, vec![57]);
    assert_eq!(iterations, 1);
    assert_eq!(f(57), 0.0);
    assert_eq!(cq, 56);
}

#[test]
fn secant_search_on_a_curve() {
    let f = |x: u32| 1.0 - (x * x) as f64 / 4000.0 - 0.5;
    let (cq, iterations, probes) = run(f, 10, 60, 20, 40);
    assert_eq!(probes, vec![46, 44]);
    assert_eq!(iterations, 2);
    assert_eq!(cq, 44);
    assert!(f(cq) > 0.0);
}

#[test]
fn secant_search_stops_at_the_upper_bound() {
    let (cq, iterations, probes) = run(|_| 0.3, 10, 60, 20, 40);
    assert_eq!(probes, vec![60]);
    assert_eq!((cq, iterations), (60, 1));
}

#[test]
fn secant_search_stops_at_the_lower_bound() {
    let (cq, iterations, probes) = run(|x| -0.3 - x as f64 / 1000.0, 10, 60, 20, 40);
    assert_eq!(probes, vec![10]);
    assert_eq!((cq, iterations), (10, 1));
}

#[test]
fn secant_search_ends_after_ten_steps() {
    // A measurement that never settles and sends the search to and fro.
    let f = |x: u32| -> f64 { if x % 2 == 0 { 0.4 } else { -0.4 } };
    let mut search = SecantSearch::new(10, 60, 20, 41, f(20).to_bits(), f(41).to_bits());
    let mut steps = 0;
    let mut estimate = 21;
    while let Some(next) = search.step(estimate) {
        assert!((10..=60).contains(&next));
        search.measured(f(next).to_bits());
        steps += 1;
        estimate = if next % 2 == 0 { next + 1 } else { next + 3 };
        if estimate > 55 {
            estimate = 11;
        }
    }
    assert_eq!(steps, MAX_ITERATIONS);
    assert_eq!(search.iterations(), MAX_ITERATIONS);
    assert!(search.unsettled() == false);
    assert!((10..=60).contains(&search.result()));
}

#[test]
fn search_starts_from_the_closer_guess() {
    let search = SecantSearch::new(10, 60, 20, 40, (-0.6f64).to_bits(), (-0.2f64).to_bits());
    assert_eq!((search.x1(), search.x2()), (40, 20));
    assert_eq!(f64::from_bits(search.fx1()), -0.2);
    assert_eq!(f64::from_bits(search.fx2()), -0.6);
    let search = SecantSearch::new(10, 60, 20, 40, 0.2f64.to_bits(), (-0.2f64).to_bits());
    assert_eq!((search.x1(), search.x2()), (20, 40));
    let search = SecantSearch::new(10, 60, 20, 40, f64::NAN.to_bits(), 0.1f64.to_bits());
    assert_eq!((search.x1(), search.x2()), (20, 40));
    assert!(!search.unsettled());
}

#[test]
fn settled_search_takes_no_step() {
    let mut search =
        SecantSearch::new(10, 60, 20, 40, 0.005f64.to_bits(), 0.3f64.to_bits());
    assert_eq!(search.fx1(), TOLERANCE);
    assert!(!search.unsettled());
    assert_eq!(search.step(33), None);
    assert_eq!(search.result(), 20);
    let search = SecantSearch::new(10, 60, 20, 40, (-0.004f64).to_bits(), 0.3f64.to_bits());
    assert_eq!(search.result(), 19);
    let search = SecantSearch::new(10, 60, 10, 40, (-0.004f64).to_bits(), 0.3f64.to_bits());
    assert_eq!(search.result(), 10);
    let search = SecantSearch::new(0, 60, 0, 40, 0.0f64.to_bits(), 0.3f64.to_bits());
    assert_eq!(search.result(), 0);
}

#[test]
fn step_rules() {
    let start = |x1: u32, f: f64| SecantSearch::new(10, 60, x1, 40, f.to_bits(), 9.0f64.to_bits());
    assert_eq!(start(20, -0.1).step(5), Some(10));
    assert_eq!(start(10, -0.1).step(5), None);
    assert_eq!(start(20, -0.1).step(70), Some(60));
    assert_eq!(start(60, -0.1).step(70), None);
    assert_eq!(start(20, -0.1).step(20), None);
    assert_eq!(start(20, -0.1).step(21), Some(21));
    assert_eq!(start(60, 0.1).step(30), None);
    assert_eq!(start(60, -0.1).step(30), Some(30));
    let mut search = start(20, -0.1);
    assert_eq!(search.step(25), Some(25));
    assert_eq!((search.x1(), search.x2()), (25, 20));
    assert_eq!(f64::from_bits(search.fx2()), -0.1);
    search.measured(0.25f64.to_bits());
    assert_eq!(f64::from_bits(search.fx1()), 0.25);
    assert_eq!(search.iterations(), 1);
}

#[test]
fn history_stays_sorted() {
    let mut history = CqHistory::new();
    for cq in [30, 12, 45, 30, 60, 10, 31] {
        history.insert(cq);
    }
    assert_eq!(history.values(), &vec![10, 12, 30, 30, 31, 45, 60]);
    assert_eq!(history.len(), 7);
}

#[test]
fn window_from_history() {
    let mut history = CqHistory::new();
    assert_eq!(history.window(), DEFAULT_WINDOW);
    assert_eq!(DEFAULT_WINDOW, (20, 40));
    for cq in 21..=29 {
        history.insert(cq);
    }
    assert_eq!(history.window(), (20, 40));
    history.insert(35);
    assert_eq!(history.window(), (22, 29));
    for _ in 0..10 {
        history.insert(50);
    }
    assert_eq!(history.len(), 20);
    assert_eq!(history.window(), (23, 50));
    let mut flat = CqHistory::new();
    for _ in 0..12 {
        flat.insert(33);
    }
    assert_eq!(flat.window(), (20, 40));
}

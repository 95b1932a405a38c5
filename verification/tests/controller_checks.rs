use keyopt::controller::{default_config, seed_layouts, Config, Controller, Phase};
use keyopt::evaluate::EvaluationResult;
use keyopt::layout::Layout;
use rand::SeedableRng;

fn member(fitness_milli: i64) -> EvaluationResult {
    let letters: Vec<u8> = (b'a'..=b'z').collect();
    EvaluationResult {
        layout: Layout::from_fixed_mapping(&letters).unwrap(),
        fitness_milli,
        total_distance: 1000,
    }
}

#[test]
fn default_config_is_the_reference_run() {
    let c = default_config();
    assert_eq!(c.population_size, 1000);
    assert_eq!(c.elite_count, 100);
    assert_eq!(c.offspring_per_elite, 9);
    assert_eq!(c.stagnation_limit, 100);
}

#[test]
fn selection_keeps_the_best_and_converges_on_stagnation() {
    let config = Config { population_size: 2, elite_count: 1, offspring_per_elite: 1, stagnation_limit: 2 };
    let mut rng = rand::rngs::StdRng::seed_from_u64(21);
    let mut ctrl = Controller::new(config);

    ctrl.add_result(member(5000));
    ctrl.add_result(member(3000));
    let converged = ctrl.select();
    assert!(!converged);
    assert_eq!(ctrl.best_fitness, 5000);
    assert_eq!(ctrl.streak, 0);
    assert_eq!(ctrl.generation, 1);
    assert_eq!(ctrl.population.len(), 1);
    assert!(matches!(ctrl.phase, Phase::Selected));

    let offspring = ctrl.breed(&mut rng);
    assert_eq!(offspring.len(), 1);
    // A weaker wave: elitism keeps the best fitness at 5000.
    ctrl.add_result(member(4000));
    let converged = ctrl.select();
    assert!(!converged);
    assert_eq!(ctrl.best_fitness, 5000);
    assert_eq!(ctrl.streak, 1);
    assert_eq!(ctrl.generation, 2);

    let _ = ctrl.breed(&mut rng);
    ctrl.add_result(member(4500));
    // Unchanged for exactly the configured two selections in a row: done.
    let converged = ctrl.select();
    assert!(converged);
    assert!(matches!(ctrl.phase, Phase::Converged));
    assert_eq!(ctrl.best_fitness, 5000);
    assert_eq!(ctrl.streak, 2);
    assert_eq!(ctrl.generation, 3);
}

#[test]
fn improvement_resets_the_stagnation_count() {
    let config = Config { population_size: 2, elite_count: 1, offspring_per_elite: 1, stagnation_limit: 3 };
    let mut rng = rand::rngs::StdRng::seed_from_u64(23);
    let mut ctrl = Controller::new(config);

    ctrl.add_result(member(1000));
    ctrl.add_result(member(900));
    assert!(!ctrl.select());
    assert_eq!(ctrl.best_fitness, 1000);
    let _ = ctrl.breed(&mut rng);

    ctrl.add_result(member(1000));
    assert!(!ctrl.select());
    assert_eq!(ctrl.streak, 1);
    let _ = ctrl.breed(&mut rng);

    // A better layout arrives: the best moves up and the streak restarts.
    ctrl.add_result(member(2000));
    assert!(!ctrl.select());
    assert_eq!(ctrl.best_fitness, 2000);
    assert_eq!(ctrl.streak, 0);
}

#[test]
fn seeding_produces_the_requested_wave() {
    let mut rng = rand::rngs::StdRng::seed_from_u64(29);
    let wave = seed_layouts(5, &mut rng);
    assert_eq!(wave.len(), 5);
    for l in wave.iter() {
        let mut seen = [false; 26];
        for &p in l.keys.iter() {
            assert!((p as usize) < 26 && !seen[p as usize]);
            seen[p as usize] = true;
        }
    }
}

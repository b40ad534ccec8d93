use neat::ga::GA;
use neat::innovation::Innovations;
use neat::phenotype::RunType;
use neat::species::compatibility_distance;
use neat::crossover::crossover_with_draws;
use neat::params;

#[test]
fn sqrt_usize_exact() {
    assert_eq!(neat::sqrt_usize(&0), 0);
    assert_eq!(neat::sqrt_usize(&15), 3);
    assert_eq!(neat::sqrt_usize(&16), 4);
}

#[test]
fn innovation_ids_shared_and_fresh() {
    let mut t = Innovations::new(0, 10);
    let a = t.get_or_create(1, 5);
    let b = t.get_or_create(2, 5);
    // an identical mutation made independently resolves to the same id
    let a2 = t.get_or_create(1, 5);
    assert_eq!(a, a2);
    // a fresh pair gets a strictly greater id than all previously issued
    let c = t.get_or_create(0, 7);
    assert!(c > a && c > b);
}

#[test]
fn distance_symmetric_and_self_zero() {
    let ga = GA::with_seed(4, 2, 1, 42);
    let g0 = &ga.genomes[0];
    let g1 = &ga.genomes[1];
    let ce = params::EXCESS_COEFF;
    let cd = params::DISJOINT_COEFF;
    let cw = params::WEIGHT_COEFF;
    let d01 = compatibility_distance(g0, g1, ce, cd, cw);
    let d10 = compatibility_distance(g1, g0, ce, cd, cw);
    assert_eq!(d01, d10);
    let d00 = compatibility_distance(g0, g0, ce, cd, cw);
    assert_eq!(d00, 0u64);
    assert_eq!(f64::from_bits(d00), 0.0);
}

#[test]
fn crossover_reproducible_under_fixed_draws() {
    let ga = GA::with_seed(4, 2, 1, 7);
    let p1 = &ga.genomes[0];
    let p2 = &ga.genomes[1];
    let draws: Vec<u64> = (0..2 * (p1.links.len() + p2.links.len()))
        .map(|i| (i as u64).wrapping_mul(0x9E3779B97F4A7C15))
        .collect();
    let c1 = crossover_with_draws(p1, p2, true, &draws);
    let c2 = crossover_with_draws(p1, p2, true, &draws);
    assert_eq!(c1.links.len(), c2.links.len());
    for (a, b) in c1.links.iter().zip(c2.links.iter()) {
        assert_eq!(a.from, b.from);
        assert_eq!(a.to, b.to);
        assert_eq!(a.weight, b.weight);
        assert_eq!(a.enabled, b.enabled);
        assert_eq!(a.recurrent, b.recurrent);
        assert_eq!(a.innovation, b.innovation);
    }
}

#[test]
fn snapshot_runs_leak_no_state() {
    let ga = GA::with_seed(3, 2, 1, 99);
    let inputs: Vec<u64> = vec![f64::to_bits(0.25), f64::to_bits(0.75)];
    let other: Vec<u64> = vec![f64::to_bits(0.9), f64::to_bits(0.1)];
    let mut used = ga.get_phenotype(0);
    let _ = used.update(&other, RunType::Snapshot);
    let second = used.update(&inputs, RunType::Snapshot);
    let mut fresh = ga.get_phenotype(0);
    let fresh_out = fresh.update(&inputs, RunType::Snapshot);
    assert_eq!(second, fresh_out);
    // after a snapshot run every neuron output is reset
    for n in used.neurons.iter() {
        assert_eq!(n.output, 0u64);
    }
}

#[test]
fn active_mode_produces_one_output_per_output_neuron() {
    let ga = GA::with_seed(2, 2, 1, 5);
    let mut net = ga.get_phenotype(0);
    let inputs: Vec<u64> = vec![f64::to_bits(1.0), f64::to_bits(0.0)];
    let out = net.update(&inputs, RunType::Active);
    assert_eq!(out.len(), 1);
    let v = f64::from_bits(out[0]);
    assert!(v > 0.0 && v < 1.0);
}

#[test]
fn best_phenotypes_sorted_by_descending_fitness() {
    let mut ga = GA::with_seed(4, 2, 1, 11);
    ga.set_fitness(0, f64::to_bits(1.0));
    ga.set_fitness(1, f64::to_bits(4.0));
    ga.set_fitness(2, f64::to_bits(4.0));
    ga.set_fitness(3, f64::to_bits(0.5));
    // the epoch records the fitness vector it replaces
    ga.epoch();
    let ranked = ga.get_best_phenotypes_from_last_generation();
    assert_eq!(ranked, vec![1, 2, 0, 3]);
}

#[test]
fn epoch_advances_generation_and_resets_fitness() {
    let mut ga = GA::with_seed(12, 2, 1, 21);
    for i in 0..12 {
        ga.set_fitness(i, f64::to_bits(i as f64));
    }
    ga.epoch();
    assert_eq!(ga.generation, 1);
    assert_eq!(ga.genomes.len(), 12);
    assert_eq!(ga.fitness_scores(), vec![0u64; 12]);
    assert!(ga.species.len() >= 1);
    let prev = ga.prev_fitness.clone();
    assert_eq!(prev[5], f64::to_bits(5.0));
    ga.epoch();
    assert_eq!(ga.generation, 2);
    assert_eq!(ga.genomes.len(), 12);
}

#[test]
fn evolution_smoke_run() {
    // drive the engine on the XOR task for a few generations; with an elite
    // retained unmutated and deterministic evaluation, the recorded maximum
    // fitness never falls
    let pop = 40;
    let mut ga = GA::with_seed(pop, 2, 1, 2024);
    let cases = [(0.0, 0.0, 0.0), (0.0, 1.0, 1.0), (1.0, 0.0, 1.0), (1.0, 1.0, 0.0)];
    let mut last_max = -1.0f64;
    for _gen in 0..8 {
        let mut gen_max = 0.0f64;
        for p in 0..pop {
            let mut net = ga.get_phenotype(p);
            let mut distance = 0.0f64;
            for (a, b, want) in cases.iter() {
                let inputs = vec![f64::to_bits(*a), f64::to_bits(*b)];
                let out = net.update(&inputs, RunType::Active);
                distance += (want - f64::from_bits(out[0])).abs();
            }
            let fitness = (4.0 - distance).powi(2);
            ga.set_fitness(p, f64::to_bits(fitness));
            if fitness > gen_max {
                gen_max = fitness;
            }
        }
        assert!(gen_max >= last_max);
        last_max = gen_max;
        ga.epoch();
    }
    assert!(last_max > 0.0);
}

#[test]
fn sigmoid_midpoint() {
    let half = neat::numeric::sigmoid(0u64, f64::to_bits(1.0));
    let v = f64::from_bits(half);
    assert!((v - 0.5).abs() < 1e-9);
}

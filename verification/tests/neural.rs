use genetic::fx::FX_ONE;
use genetic::neural::{Layer, Network, Neuron};
use rand::SeedableRng;

fn fx(v: f64) -> i64 {
    (v * 1_000_000.0).round() as i64
}

#[test]
fn neuron_propagate() {
    let neuron = Neuron::new(fx(0.1), vec![fx(0.3), fx(0.4), fx(0.6)]);
    assert_eq!(neuron.propagate(&vec![fx(-0.1), fx(0.7), fx(0.3)]), fx(0.53));
}

#[test]
fn neuron_propagate_zero() {
    let neuron = Neuron::new(fx(-0.06), vec![fx(0.6), fx(0.4), fx(0.5)]);
    assert_eq!(neuron.propagate(&vec![fx(-0.5), fx(0.3), fx(0.45)]), 0);
}

#[test]
fn layer_propagate() {
    let neurons = vec![
        Neuron::new(fx(0.6), vec![fx(0.4), fx(0.6)]),
        Neuron::new(fx(0.8), vec![fx(0.2), fx(0.5)]),
        Neuron::new(fx(-0.4), vec![fx(0.7), fx(0.3)]),
    ];
    let layer = Layer::new(neurons);
    let outputs = layer.propagate(&vec![fx(0.7), fx(0.1)]);

    assert_eq!(outputs[0], fx(0.94));
    assert_eq!(outputs[1], fx(0.99));
    assert_eq!(outputs[2], fx(0.12));
}

#[test]
fn network_propagate() {
    let network = Network::from_layers(vec![
        Layer::new(vec![
            Neuron::new(fx(0.6), vec![fx(0.4), fx(0.6)]),
            Neuron::new(fx(0.8), vec![fx(0.2), fx(0.5)]),
            Neuron::new(fx(-0.4), vec![fx(0.7), fx(0.3)]),
        ]),
        Layer::new(vec![Neuron::new(fx(0.5), vec![fx(0.3), fx(0.4), fx(0.5)])]),
    ]);

    assert_eq!(network.propagate(&vec![fx(0.7), fx(0.1)])[0], fx(1.238));
}

#[test]
fn neuron_crossover_uniform() {
    let mut rng = rand::rngs::StdRng::seed_from_u64(0xcafef00d);

    let a = Neuron::new(fx(0.1), (0..10).map(|i| i * 1_000_000).collect());
    let b = Neuron::new(fx(-0.1), (0..10).map(|i| (i * 20 + 1) * 1_000_000).collect());

    let c = a.crossover_uniform(&mut rng, &b);
    assert!(c.bias == a.bias || c.bias == b.bias);
    for j in 0..10 {
        assert!(
            c.input_weights[j] == a.input_weights[j] || c.input_weights[j] == b.input_weights[j]
        );
    }
}

#[test]
fn neuron_mutate() {
    let mut rng = rand::rngs::StdRng::seed_from_u64(0xcafef00d);

    let before: Vec<i64> = (0..10).map(|i| i * 100_000 + 2_000_000).collect();
    let mut a = Neuron::new(fx(0.1), before.clone());

    a.mutate_uniform(&mut rng, fx(0.2));
    for j in 0..10 {
        let w = a.input_weights[j];
        assert!(w == before[j] || (-FX_ONE <= w && w <= FX_ONE));
    }
}

#[test]
fn crossover_gene_law_and_balance() {
    // every offspring gene is one parent's gene, and over many genes each
    // parent contributes about half
    let mut rng = rand::rngs::StdRng::seed_from_u64(7);
    let n = 4000;
    let a = Neuron::new(111, vec![111; n]);
    let b = Neuron::new(222, vec![222; n]);
    let c = a.crossover_uniform(&mut rng, &b);
    let mut from_a = 0usize;
    for j in 0..n {
        let w = c.input_weights[j];
        assert!(w == 111 || w == 222);
        if w == 111 {
            from_a += 1;
        }
    }
    let frac = from_a as f64 / n as f64;
    assert!(0.45 < frac && frac < 0.55, "fraction from first parent: {frac}");
}

#[test]
fn mutation_rate_and_range() {
    // genes start outside [-1, 1], so every replaced gene is visible; the
    // replaced fraction converges to the probability, and every replaced
    // gene lies in [-1, 1]
    let mut rng = rand::rngs::StdRng::seed_from_u64(11);
    let n = 10_000;
    let before = 5_000_000i64;
    let mut a = Neuron::new(before, vec![before; n]);
    a.mutate_uniform(&mut rng, 200_000);
    let mut changed = 0usize;
    for j in 0..n {
        let w = a.input_weights[j];
        if w != before {
            changed += 1;
            assert!(-FX_ONE <= w && w <= FX_ONE);
        }
    }
    let frac = changed as f64 / n as f64;
    assert!(0.17 < frac && frac < 0.23, "mutated fraction: {frac}");
}

#[test]
fn random_network_shape_and_bounds() {
    let mut rng = rand::rngs::StdRng::seed_from_u64(3);
    let net = Network::random(&mut rng, &vec![3, 4, 2]);
    assert_eq!(net.input_size(), 3);
    assert_eq!(net.output_size(), 2);
    assert_eq!(net.layers.len(), 2);
    assert_eq!(net.layers[0].neurons.len(), 4);
    assert_eq!(net.layers[1].neurons.len(), 2);
    for layer in &net.layers {
        for n in &layer.neurons {
            assert!(-FX_ONE <= n.bias && n.bias <= FX_ONE);
            for &w in &n.input_weights {
                assert!(-FX_ONE <= w && w <= FX_ONE);
            }
        }
    }
    let out = net.propagate(&vec![fx(0.5), fx(0.5), fx(0.5)]);
    assert_eq!(out.len(), 2);
}

#[test]
fn network_crossover_keeps_shape() {
    let mut rng = rand::rngs::StdRng::seed_from_u64(5);
    let a = Network::random(&mut rng, &vec![3, 5, 2]);
    let b = Network::random(&mut rng, &vec![3, 5, 2]);
    let c = a.crossover_uniform(&mut rng, &b);
    assert_eq!(c.layers.len(), 2);
    for l in 0..2 {
        assert_eq!(c.layers[l].neurons.len(), a.layers[l].neurons.len());
        for i in 0..c.layers[l].neurons.len() {
            let cn = &c.layers[l].neurons[i];
            let an = &a.layers[l].neurons[i];
            let bn = &b.layers[l].neurons[i];
            assert!(cn.bias == an.bias || cn.bias == bn.bias);
            for j in 0..cn.input_weights.len() {
                assert!(
                    cn.input_weights[j] == an.input_weights[j]
                        || cn.input_weights[j] == bn.input_weights[j]
                );
            }
        }
    }
}

use ai_drivers::gpu::{generate_feed_forward_shader, generate_feed_forward_shader_2};
use ai_drivers::network::{Level, NeuralNetwork};
use std::time::Instant;

fn repeat4(pattern: [i64; 4], copies: usize) -> Vec<i64> {
    let mut v = Vec::with_capacity(4 * copies);
    for x in pattern.iter() {
        for _ in 0..copies {
            v.push(*x);
        }
    }
    v
}

fn repeat4_rows(rows: [Vec<i64>; 4], copies: usize) -> Vec<Vec<i64>> {
    let mut v = Vec::with_capacity(4 * copies);
    for row in rows.iter() {
        for _ in 0..copies {
            v.push(row.clone());
        }
    }
    v
}

#[test]
fn feed_forward_cpu() {
    let start_time = Instant::now();
    let neuron_count = vec![4096u32, 4096, 4096, 4096, 4096];
    let mut net = NeuralNetwork::new(neuron_count.as_slice());
    for level in net.levels.iter_mut() {
        level.biases = repeat4([300, -100, 700, 100], 1024);
        level.weights = repeat4_rows(
            [
                repeat4([300, -100, 700, 400], 1024),
                repeat4([400, -200, 600, 300], 1024),
                repeat4([500, -300, 500, 200], 1024),
                repeat4([600, -100, 400, 100], 1024),
            ],
            1024,
        );
    }
    let input = repeat4([110, -700, 500, 400], 1024);
    let output = net.feed_forward(&input);
    let duration = start_time.elapsed();
    println!("Time CPU: {} ms", duration.as_millis());
    assert_eq!(output.len(), 4096);
}

#[test]
fn feed_forward_is_deterministic() {
    let mut net = NeuralNetwork::new(&[3, 5, 4]);
    net.randomize();
    let input = vec![250, -900, 1000];
    let a = net.feed_forward(&input);
    let b = net.feed_forward(&input);
    assert_eq!(a, b);
    assert_eq!(a.len(), 4);
}

#[test]
fn feed_forward_exact_values() {
    // One neuron, one input: weight 0, bias 0.3. The raw sum is 0.3
    // units, and the rational tanh gives 292/1000.
    let mut net = NeuralNetwork::new(&[1, 1]);
    net.levels[0].biases = vec![300];
    net.levels[0].weights = vec![vec![0]];
    let out = net.feed_forward(&vec![0]);
    assert_eq!(out, vec![292]);

    // Weight 1, input 1, bias 0: tanh(1) is approximated as 777/1000.
    let mut net = NeuralNetwork::new(&[1, 1]);
    net.levels[0].biases = vec![0];
    net.levels[0].weights = vec![vec![1000]];
    let out = net.feed_forward(&vec![1000]);
    assert_eq!(out, vec![777]);

    // Saturation: a large raw sum yields exactly one unit.
    let mut net = NeuralNetwork::new(&[4, 1]);
    net.levels[0].biases = vec![1000];
    net.levels[0].weights = vec![vec![1000, 1000, 1000, 1000]];
    let out = net.feed_forward(&vec![1000, 1000, 1000, 1000]);
    assert_eq!(out, vec![1000]);
}

#[test]
fn new_network_is_all_zero() {
    let net = NeuralNetwork::new(&[3, 5, 4]);
    assert_eq!(net.levels.len(), 2);
    for level in net.levels.iter() {
        for b in level.biases.iter() {
            assert_eq!(*b, 0);
        }
        for row in level.weights.iter() {
            for w in row.iter() {
                assert_eq!(*w, 0);
            }
        }
    }
}

#[test]
fn randomize_stays_in_range_and_varies() {
    let mut net = NeuralNetwork::new(&[8, 8, 4]);
    net.randomize();
    for level in net.levels.iter() {
        for b in level.biases.iter() {
            assert!(-1000 <= *b && *b <= 1000);
        }
        for row in level.weights.iter() {
            for w in row.iter() {
                assert!(-1000 <= *w && *w <= 1000);
            }
        }
    }
    // Two independent randomizations of 100 weights agree everywhere
    // only with vanishing probability.
    let mut other = NeuralNetwork::new(&[8, 8, 4]);
    other.randomize();
    let same = net
        .levels
        .iter()
        .zip(other.levels.iter())
        .all(|(a, b)| a.weights == b.weights && a.biases == b.biases);
    assert!(!same);
}

#[test]
fn prune_boundary_behavior() {
    let mut net = NeuralNetwork::new(&[2, 2]);
    net.levels[0].biases = vec![100, -200];
    net.levels[0].weights = vec![vec![300, -400], vec![500, -600]];
    let mut base = NeuralNetwork::new(&[2, 2]);
    base.levels[0].biases = vec![-700, 800];
    base.levels[0].weights = vec![vec![-900, 1000], vec![0, 50]];

    // t == 0 leaves the network unchanged.
    let mut a = net.duplicate();
    a.prune(&base, 0);
    assert_eq!(a.levels[0].biases, net.levels[0].biases);
    assert_eq!(a.levels[0].weights, net.levels[0].weights);

    // t == 1000 copies the base exactly.
    let mut b = net.duplicate();
    b.prune(&base, 1000);
    assert_eq!(b.levels[0].biases, base.levels[0].biases);
    assert_eq!(b.levels[0].weights, base.levels[0].weights);
}

#[test]
fn checkpoint_round_trip() {
    let mut net = NeuralNetwork::new(&[3, 6, 4]);
    net.randomize();
    let records = net.checkpoint();
    let reloaded = NeuralNetwork::from_levels(records).expect("a saved network reloads");
    let input = vec![1000, -500, 250];
    assert_eq!(net.feed_forward(&input), reloaded.feed_forward(&input));
}

#[test]
fn from_levels_rejects_malformed_records() {
    // No levels at all.
    assert!(NeuralNetwork::from_levels(Vec::new()).is_none());
    // Ragged weight rows.
    let bad = Level { biases: vec![0, 0], weights: vec![vec![1, 2], vec![3]] };
    assert!(NeuralNetwork::from_levels(vec![bad]).is_none());
    // Bias count not matching the neuron count.
    let bad = Level { biases: vec![0], weights: vec![vec![1], vec![2]] };
    assert!(NeuralNetwork::from_levels(vec![bad]).is_none());
    // A weight out of the unit range.
    let bad = Level { biases: vec![0], weights: vec![vec![1001]] };
    assert!(NeuralNetwork::from_levels(vec![bad]).is_none());
    // Widths that do not chain between levels.
    let a = Level { biases: vec![0, 0], weights: vec![vec![1], vec![2]] };
    let b = Level { biases: vec![0], weights: vec![vec![1, 2, 3]] };
    assert!(NeuralNetwork::from_levels(vec![a, b]).is_none());
    // A well-formed single level is accepted.
    let good = Level { biases: vec![0], weights: vec![vec![500, -500]] };
    assert!(NeuralNetwork::from_levels(vec![good]).is_some());
}

#[test]
fn prune_inheritance_stays_close_to_base() {
    let mut fresh = NeuralNetwork::new(&[4, 3, 4]);
    fresh.randomize();
    let mut best = NeuralNetwork::new(&[4, 3, 4]);
    best.randomize();
    fresh.prune(&best, 980);
    for (l, bl) in fresh.levels.iter().zip(best.levels.iter()) {
        for (w, bw) in l.biases.iter().zip(bl.biases.iter()) {
            assert!((*w - *bw).abs() <= 41);
        }
        for (row, brow) in l.weights.iter().zip(bl.weights.iter()) {
            for (w, bw) in row.iter().zip(brow.iter()) {
                assert!((*w - *bw).abs() <= 41);
            }
        }
    }
}

#[test]
fn gpu_path_matches_sequential_evaluator() {
    let mut net = NeuralNetwork::new(&[5, 7, 6, 4]);
    net.randomize();
    let input = vec![1000, -1000, 333, 0, -47];
    assert_eq!(net.gpu_feed_forward(&input), net.feed_forward(&input));
}

#[test]
fn shader_generator_layout() {
    let s = generate_feed_forward_shader(&[2, 3]);
    let mut expected = String::new();
    expected.push_str("@group(0) @binding(0) var<storage, read> inputs: array<f32>;\n");
    expected.push_str("@group(0) @binding(1) var<storage, read> weights: array<f32>;\n");
    expected.push_str("@group(0) @binding(2) var<storage, read> biases: array<f32>;\n");
    expected.push_str("@group(0) @binding(3) var<storage, write> outputs: array<f32>;\n\n");
    expected.push_str("@compute @workgroup_size(64)\n");
    expected.push_str("fn main(@builtin(global_invocation_id) id: vec3<u32>) {\n");
    expected.push_str("    let idx = id.x;\n");
    expected.push_str("    if (idx < 3) {\n");
    expected.push_str("        var sum: f32 = 0.0;\n");
    expected.push_str("        for (var j: u32 = 0; j < 2; j++) {\n");
    expected.push_str("            sum += inputs[j] * weights[0 + idx * 2 + j];\n");
    expected.push_str("        }\n");
    expected.push_str("        outputs[idx] = select(0.0, 1.0, sum > biases[0 + idx]);\n");
    expected.push_str("    }\n");
    expected.push_str("}\n");
    assert_eq!(s, expected);

    // The first form pins every inner loop to the first layer size,
    // even for later layers.
    let s = generate_feed_forward_shader(&[2, 3, 4]);
    assert!(s.contains("weights[6 + idx * 2 + j]"));
    assert!(!s.contains("barrier"));
}

#[test]
fn shader_generator_2_layout() {
    let s = generate_feed_forward_shader_2(&[2, 3, 4]);
    // Per-layer inner loop bounds and offsets.
    assert!(s.contains("for (var j: u32 = 0; j < 2; j++)"));
    assert!(s.contains("weights[0 + idx * 2 + j]"));
    assert!(s.contains("for (var j: u32 = 0; j < 3; j++)"));
    assert!(s.contains("weights[6 + idx * 3 + j]"));
    assert!(s.contains("biases[3 + idx]"));
    assert!(s.contains("barrier();\n    inputs = outputs;\n"));
    assert!(s.ends_with("}\n"));
}

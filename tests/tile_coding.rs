use rsrl::tile_coding::{TileCoder, UniversalHash, HASH_TABLE_SIZE};

fn table() -> Vec<u32> {
    let mut seed: u64 = 12345;
    (0..HASH_TABLE_SIZE)
        .map(|_| {
            seed = seed.wrapping_mul(6364136223846793005).wrapping_add(1442695040888963407);
            (seed >> 32) as u32
        })
        .collect()
}

fn coder(n_tilings: usize, memory_size: usize) -> TileCoder<UniversalHash> {
    TileCoder::new(n_tilings, memory_size, UniversalHash::from_table(table()).unwrap())
}

#[test]
fn hash_table_must_be_full() {
    assert!(UniversalHash::from_table(vec![1, 2, 3]).is_none());
    assert!(UniversalHash::from_table(table()).is_some());
}

#[test]
fn one_tile_per_tiling_inside_memory() {
    let t = coder(4, 1000);
    for x in -20..20 {
        let tiles = t.tiles(&vec![x, 3 * x], &vec![0]);
        assert_eq!(tiles.len(), 4);
        assert!(tiles.iter().all(|&i| i < 1000));
    }
}

#[test]
fn same_point_same_tiles() {
    let t = coder(1, 1000);
    assert_eq!(t.tiles(&vec![1], &vec![0]), t.tiles(&vec![1], &vec![0]));
}

#[test]
fn single_tiling_generalises_within_a_tile() {
    // One tiling: unit tiles; inputs in [0, 1) quantise to 0.
    let t = coder(1, 1000);
    let centre = t.tiles(&vec![0], &vec![0]);
    assert_ne!(t.tiles(&vec![-1], &vec![0]), centre);
    assert_ne!(t.tiles(&vec![1], &vec![0]), centre);
}

#[test]
fn offset_tilings_share_one_tile_with_neighbours() {
    // Two tilings: 0.0, 0.5 and 1.0 quantise to 0, 1 and 2.
    let t = coder(2, 1000);
    let mid = t.tiles(&vec![1], &vec![0]);
    let low = t.tiles(&vec![0], &vec![0]);
    let high = t.tiles(&vec![2], &vec![0]);
    assert_eq!(mid[0], low[0]);
    assert_ne!(mid[1], low[1]);
    assert_ne!(mid[0], high[0]);
    assert_eq!(mid[1], high[1]);
}

#[test]
fn extra_integers_separate_outputs() {
    let t = coder(1, 1000);
    assert_ne!(t.tiles(&vec![0], &vec![0]), t.tiles(&vec![0], &vec![1]));
}

#[test]
fn coders_are_equivalent_by_shape() {
    let t = coder(1, 1000);
    assert_eq!(t.n_tilings(), 1);
    assert_eq!(t.size(), 1000);
    for (nt, ms, eq) in vec![(1, 1000, true), (2, 1000, false), (1, 2000, false)] {
        let u = coder(nt, ms);
        assert_eq!(t.equivalent(&u), eq);
        assert_eq!(u.equivalent(&t), eq);
    }
}

#[test]
fn random_tables_hash_into_memory() {
    let mut rng = rand::thread_rng();
    let t = TileCoder::new(3, 17, UniversalHash::new(&mut rng));
    let tiles = t.tiles(&vec![i64::MIN, i64::MAX], &vec![-5, 5]);
    assert_eq!(tiles.len(), 3);
    assert!(tiles.iter().all(|&i| i < 17));
}

#[test]
fn random_tables_differ() {
    let mut rng = rand::thread_rng();
    let a = TileCoder::new(1, 1 << 20, UniversalHash::new(&mut rng));
    let b = TileCoder::new(1, 1 << 20, UniversalHash::new(&mut rng));
    let differing = (0..20).filter(|&x| a.tiles(&vec![x], &vec![]) != b.tiles(&vec![x], &vec![])).count();
    assert!(differing > 10);
}

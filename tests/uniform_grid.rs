use rsrl::dimensions::Partitioned;
use rsrl::spaces::RegularSpace;
use rsrl::uniform_grid::UniformGrid;

fn as_f64(v: Vec<u8>) -> Vec<f64> {
    v.into_iter().map(f64::from).collect()
}

#[test]
fn test_1d() {
    let mut ds = RegularSpace::new();
    ds = ds.push(Partitioned::new(0, 10, 10));

    let t = UniformGrid::new(ds);

    assert_eq!(t.size(), 10);

    for i in 0..10 {
        let out = as_f64(t.project(&vec![i as i64]));

        let mut expected = vec![0.0; 10];
        expected[i] = 1.0;

        assert_eq!(out, expected);
    }
}

#[test]
fn test_2d() {
    let mut ds = RegularSpace::new();
    ds = ds.push(Partitioned::new(0, 10, 10));
    ds = ds.push(Partitioned::new(0, 10, 10));

    let t = UniformGrid::new(ds);

    assert_eq!(t.size(), 100);

    for i in 0..10 {
        for j in 0..10 {
            let out = as_f64(t.project(&vec![i as i64, j as i64]));

            let mut expected = vec![0.0; 100];
            expected[j * 10 + i] = 1.0;

            assert_eq!(out, expected);
        }
    }
}

#[test]
fn test_3d() {
    let mut ds = RegularSpace::new();
    ds = ds.push(Partitioned::new(0, 10, 10));
    ds = ds.push(Partitioned::new(0, 10, 10));
    ds = ds.push(Partitioned::new(0, 10, 10));

    let t = UniformGrid::new(ds);

    assert_eq!(t.size(), 1000);

    for i in 0..10 {
        for j in 0..10 {
            for k in 0..10 {
                let out = as_f64(t.project(&vec![i as i64, j as i64, k as i64]));

                let mut expected = vec![0.0; 1000];
                expected[k * 100 + j * 10 + i] = 1.0;

                assert_eq!(out, expected);
            }
        }
    }
}

#[test]
fn mixed_radix_with_unequal_bins() {
    let ds = RegularSpace::new()
        .push(Partitioned::new(0, 30, 3))
        .push(Partitioned::new(0, 100, 5))
        .push(Partitioned::new(-4, 4, 2));
    let t = UniformGrid::new(ds);
    assert_eq!(t.size(), 30);
    assert_eq!(t.dim(), 3);

    // bins (2, 4, 1): 2 + 3 * (4 + 5 * 1)
    let out = t.project(&vec![25, 99, 0]);
    assert_eq!(out.iter().filter(|&&v| v != 0).count(), 1);
    assert_eq!(out[29], 1);

    // bins (1, 2, 0): 1 + 3 * 2
    let out = t.project(&vec![15, 40, -4]);
    assert_eq!(out[7], 1);
    assert_eq!(out.iter().map(|&v| v as usize).sum::<usize>(), 1);
}

#[test]
fn out_of_range_inputs_fall_into_edge_cells() {
    let ds = RegularSpace::new().push(Partitioned::new(0, 10, 10)).push(Partitioned::new(0, 10, 10));
    let t = UniformGrid::new(ds);

    let out = t.project(&vec![-50, 500]);
    assert_eq!(out[90], 1);
    assert_eq!(out.iter().filter(|&&v| v == 1).count(), 1);

    let out = t.project(&vec![10, -1]);
    assert_eq!(out[9], 1);
}

#[test]
fn project_onto_sets_one_feature() {
    let ds = RegularSpace::new().push(Partitioned::new(0, 4, 4));
    let t = UniformGrid::new(ds);
    let mut phi = vec![0u8; 4];
    t.project_onto(&vec![1], &mut phi);
    t.project_onto(&vec![3], &mut phi);
    assert_eq!(phi, vec![0, 1, 0, 1]);
}

#[test]
fn grids_are_equivalent_by_shape() {
    let a = UniformGrid::new(RegularSpace::new().push(Partitioned::new(0, 10, 10)));
    let b = UniformGrid::new(RegularSpace::new().push(Partitioned::new(-3, 3, 10)));
    let c = UniformGrid::new(RegularSpace::new().push(Partitioned::new(0, 10, 5)));
    let d = UniformGrid::new(
        RegularSpace::new().push(Partitioned::new(0, 10, 5)).push(Partitioned::new(0, 10, 2)),
    );
    assert!(a.equivalent(&b));
    assert!(b.equivalent(&a));
    assert!(!a.equivalent(&c));
    assert!(!a.equivalent(&d));
}

#[test]
fn sparse_projection_names_the_cell() {
    let ds = RegularSpace::new().push(Partitioned::new(0, 10, 10)).push(Partitioned::new(0, 10, 10));
    let t = UniformGrid::new(ds);
    assert_eq!(t.sparsity(), 1);
    assert_eq!(t.project_sparse(&vec![3, 7]), vec![73]);
    let dense = t.project(&vec![3, 7]);
    assert_eq!(dense[73], 1);
}

#[test]
fn cells_decode_into_their_bins() {
    let ds = RegularSpace::new()
        .push(Partitioned::new(0, 30, 3))
        .push(Partitioned::new(0, 100, 5))
        .push(Partitioned::new(-4, 4, 2));
    let t = UniformGrid::new(ds);
    assert_eq!(t.cell_bins(0), vec![0, 0, 0]);
    assert_eq!(t.cell_bins(29), vec![2, 4, 1]);
    assert_eq!(t.cell_bins(7), vec![1, 2, 0]);
    for cell in 0..30 {
        let b = t.cell_bins(cell);
        // The lower corner of each bin lies in it.
        let x = vec![b[0] as i64 * 10, b[1] as i64 * 20, -4 + b[2] as i64 * 4];
        assert_eq!(t.project_sparse(&x), vec![cell]);
    }
}

use rsrl::cliff_walk::CliffWalk;
use rsrl::domains::{Domain, Observation};
use rsrl::spaces::Space;
use rsrl::Span;

#[test]
fn starts_in_the_corner() {
    let d = CliffWalk::default();
    assert_eq!(d.location(), (0, 0));
    assert!(!d.is_terminal());
    match d.emit() {
        Observation::Full { state, actions } => {
            assert_eq!(state, (0, 0));
            assert_eq!(actions, vec![0, 1, 2, 3]);
        }
        Observation::Terminal(_) => panic!("the start is not terminal"),
    }
    assert_eq!(d.state_space().span(), Span::Finite(60));
    assert_eq!(d.action_space().span(), Span::Finite(4));
}

#[test]
fn moves_and_bumps() {
    let mut d = CliffWalk::new(5, 12);

    let t = d.step(0);
    assert_eq!(t.action, 0);
    assert_eq!(*t.from.state(), (0, 0));
    assert_eq!(*t.to.state(), (0, 1));
    assert_eq!(t.reward, 0);

    let t = d.step(3);
    assert_eq!(*t.to.state(), (0, 1));
    assert_eq!(t.reward, -1);

    let t = d.step(1);
    assert_eq!(*t.to.state(), (1, 1));
    assert_eq!(t.reward, 0);

    let t = d.step(9);
    assert_eq!(*t.to.state(), (1, 1));
    assert_eq!(t.reward, -1);

    for _ in 0..10 {
        d.step(0);
    }
    assert_eq!(d.location(), (1, 4));
}

#[test]
fn falling_off_the_cliff() {
    let mut d = CliffWalk::new(5, 12);
    let t = d.step(1);
    assert!(t.to.is_terminal());
    assert_eq!(*t.to.state(), (1, 0));
    assert_eq!(t.reward, -50);
    assert!(d.is_terminal());
}

#[test]
fn reaching_the_goal() {
    let mut d = CliffWalk::new(5, 12);
    let mut total = 0;
    total += d.step(0).reward;
    for _ in 0..11 {
        total += d.step(1).reward;
    }
    let t = d.step(2);
    total += t.reward;
    assert!(t.to.is_terminal());
    assert_eq!(*t.to.state(), (11, 0));
    assert_eq!(t.reward, 50);
    assert_eq!(total, 50);
}

#[test]
fn east_edge_stops_the_walker() {
    let mut d = CliffWalk::new(2, 3);
    d.step(0);
    for _ in 0..5 {
        d.step(1);
    }
    assert_eq!(d.location(), (2, 1));
    let t = d.step(1);
    assert_eq!(t.reward, -1);
}

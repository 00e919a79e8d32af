use vm16::orb_maze::{Maze, Node, Operation};
use vm16::teleporter::Teleporter;

#[test]
fn teleporter_base_case_increments() {
    let mut t = Teleporter::new(5);
    assert_eq!(t.check(0, 7), 8);
    assert_eq!(t.check(0, 32767), 0);
}

#[test]
fn teleporter_small_values() {
    // with magic m: check(1, 0) = m + 1, and each further b adds one
    let mut t = Teleporter::new(3);
    assert_eq!(t.check(1, 0), 4);
    assert_eq!(t.check(1, 1), 5);
    assert_eq!(t.check(1, 2), 6);
    assert_eq!(t.check(2, 0), 7);
    assert_eq!(t.check(2, 1), 11);
}

#[test]
fn teleporter_memo_is_consistent() {
    let mut t = Teleporter::new(11);
    let first = t.check(2, 3);
    let again = t.check(2, 3);
    assert_eq!(first, again);
}

#[test]
fn maze_neighbours_in_fixed_order() {
    let maze = Maze::new();
    assert_eq!(maze.neighbours((0, 0)), vec![(1, 0), (0, 1)]);
    assert_eq!(maze.neighbours((1, 2)), vec![(0, 2), (2, 2), (1, 1), (1, 3)]);
    assert_eq!(maze.neighbours((3, 3)), vec![(2, 3), (3, 2)]);
}

#[test]
fn maze_grid_corners() {
    let maze = Maze::new();
    assert!(matches!(maze.nodes[3][0], Node::Start));
    assert!(matches!(maze.nodes[0][3], Node::End(1)));
    assert!(matches!(maze.nodes[0][0], Node::Op(Operation::Mult)));
    assert!(matches!(maze.nodes[3][1], Node::Op(Operation::Sub)));
}

fn wrapping_apply(op: Operation, v: u16, w: u16) -> u16 {
    match op {
        Operation::Add => v.wrapping_add(w),
        Operation::Sub => v.wrapping_sub(w),
        Operation::Mult => v.wrapping_mul(w),
    }
}

#[test]
fn maze_solution_is_a_valid_walk() {
    let maze = Maze::new();
    let path = Maze::solve();
    assert!(!path.is_empty(), "the maze has a solution");
    let first = path.first().unwrap();
    assert_eq!(first.coord, (0, 3));
    assert_eq!(first.value, 22);
    assert!(first.op.is_none());
    let last = path.last().unwrap();
    assert_eq!(last.coord, (3, 0));
    assert_eq!(last.value, 30);
    // every step moves to an adjacent node and tracks the orb arithmetic
    for pair in path.windows(2) {
        let (from, to) = (&pair[0], &pair[1]);
        let dx = from.coord.0.abs_diff(to.coord.0);
        let dy = from.coord.1.abs_diff(to.coord.1);
        assert_eq!(dx + dy, 1, "moves one cell at a time");
        match maze.nodes[to.coord.1][to.coord.0] {
            Node::Op(op) => {
                assert_eq!(to.op, Some(op));
                assert_eq!(to.value, from.value);
            },
            Node::Value(v) | Node::End(v) => {
                assert!(to.op.is_none());
                assert_eq!(to.value, wrapping_apply(from.op.unwrap(), from.value, v));
            },
            Node::Start => panic!("a walk never re-enters the start"),
        }
    }
}

//! The orb maze: a static four-by-four grid of operation and value nodes.
//! A walk starts on the start node carrying the value 22 and must step onto
//! the end node carrying exactly 30; entering an operation node pends that
//! operation, entering a value node applies the pending operation to the
//! carried value. The solver searches breadth-first and returns a valid
//! walk, which the console renders as movement commands.
//!
//! Orb arithmetic wraps modulo 65536: the search may push the carried
//! value below zero or beyond 16 bits on dead-end branches.

use std::collections::HashMap;

use vstd::prelude::*;

verus! {

broadcast use vstd::std_specs::hash::group_hash_axioms;

/// An arithmetic operation written on a maze node.
#[derive(Debug, Clone, Copy, PartialEq, Eq, Structural)]
pub enum Operation {
    Add,
    Sub,
    Mult,
}

/// One cell of the maze.
#[derive(Debug, Clone, Copy, PartialEq, Eq, Structural)]
pub enum Node {
    Op(Operation),
    Value(u16),
    Start,
    End(u16),
}

/// A search state: position, carried orb value, pending operation.
#[derive(Debug, Clone, Copy, PartialEq, Eq)]
pub struct State {
    pub coord: (usize, usize),
    pub value: u16,
    pub op: Option<Operation>,
}

/// The maze grid with its dimensions.
pub struct Maze {
    pub nodes: Vec<Vec<Node>>,
    pub width: usize,
    pub height: usize,
}

/// The fixed grid of the shipped maze, row by row from the top; the start
/// is the bottom-left corner, the end the top-right.
pub open spec fn maze_grid() -> Seq<Seq<Node>> {
    seq![
        seq![
            Node::Op(Operation::Mult),
            Node::Value(8),
            Node::Op(Operation::Sub),
            Node::End(1),
        ],
        seq![
            Node::Value(4),
            Node::Op(Operation::Mult),
            Node::Value(11),
            Node::Op(Operation::Mult),
        ],
        seq![
            Node::Op(Operation::Add),
            Node::Value(4),
            Node::Op(Operation::Sub),
            Node::Value(18),
        ],
        seq![Node::Start, Node::Op(Operation::Sub), Node::Value(9), Node::Op(Operation::Mult)],
    ]
}

/// Where every walk begins: the start node, carrying 22, no pending
/// operation.
pub open spec fn start_state() -> State {
    State { coord: (0, 3), value: 22, op: None }
}

/// Where every walk must end: the end node, carrying exactly 30.
pub open spec fn end_state() -> State {
    State { coord: (3, 0), value: 30, op: None }
}

/// Orb arithmetic: 16-bit wrapping addition, subtraction, multiplication.
pub open spec fn apply_op_spec(op: Operation, v: u16, w: u16) -> u16 {
    match op {
        Operation::Add => ((v + w) % 0x10000) as u16,
        Operation::Sub => ((v + 0x10000 - w) % 0x10000) as u16,
        Operation::Mult => ((v * w) % 0x10000) as u16,
    }
}

/// Executable orb arithmetic.
pub fn apply_op(op: Operation, v: u16, w: u16) -> (r: u16)
    ensures
        r == apply_op_spec(op, v, w),
{
    match op {
        Operation::Add => {
            let s = v as u32 + w as u32;
            (s % 0x10000) as u16
        },
        Operation::Sub => {
            let s = v as u32 + 0x10000 - w as u32;
            (s % 0x10000) as u16
        },
        Operation::Mult => {
            proof {
                assert(v as u32 * w as u32 <= 0xFFFFu32 * 0xFFFFu32) by (nonlinear_arith)
                    requires
                        v <= 0xFFFF && w <= 0xFFFF,
                ;
            }
            let p = v as u32 * w as u32;
            (p % 0x10000) as u16
        },
    }
}

/// The coordinates adjacent to `(x, y)` inside a `w` by `h` grid, in the
/// fixed order west, east, north, south.
pub open spec fn neighbours_spec(x: usize, y: usize, w: usize, h: usize) -> Seq<(usize, usize)> {
    let west: Seq<(usize, usize)> = if x >= 1 {
        seq![(((x - 1) as usize), y)]
    } else {
        Seq::empty()
    };
    let east: Seq<(usize, usize)> = if x + 1 < w {
        seq![(((x + 1) as usize), y)]
    } else {
        Seq::empty()
    };
    let north: Seq<(usize, usize)> = if y >= 1 {
        seq![(x, ((y - 1) as usize))]
    } else {
        Seq::empty()
    };
    let south: Seq<(usize, usize)> = if y + 1 < h {
        seq![(x, ((y + 1) as usize))]
    } else {
        Seq::empty()
    };
    west + east + north + south
}

/// A position is well formed when it lies on the grid.
pub open spec fn state_wf(s: State) -> bool {
    s.coord.0 < 4 && s.coord.1 < 4
}

/// One legal move of the search: step to an adjacent node, never back onto
/// the start and never off the end; an operation node pends its operation
/// and keeps the value, a value or end node applies the pending operation.
#[verifier::opaque]
pub open spec fn edge_spec(g: Seq<Seq<Node>>, from: State, to: State) -> bool {
    &&& state_wf(from)
    &&& state_wf(to)
    &&& neighbours_spec(from.coord.0, from.coord.1, 4, 4).contains(to.coord)
    &&& !(g[from.coord.1 as int][from.coord.0 as int] matches Node::End(_))
    &&& match g[to.coord.1 as int][to.coord.0 as int] {
        Node::Start => false,
        Node::Op(op) => to.op == Some(op) && to.value == from.value,
        Node::Value(v) => (match from.op {
            Some(op) => to.op is None && to.value == apply_op_spec(op, from.value, v),
            None => false,
        }),
        Node::End(v) => (match from.op {
            Some(op) => to.op is None && to.value == apply_op_spec(op, from.value, v),
            None => false,
        }),
    }
}

/// The encoding of a pending operation inside a state key.
pub open spec fn op_code_spec(op: Option<Operation>) -> u64 {
    match op {
        None => 0,
        Some(Operation::Add) => 1,
        Some(Operation::Sub) => 2,
        Some(Operation::Mult) => 3,
    }
}

/// The integer key a search state is memoised under.
pub open spec fn state_key_spec(s: State) -> u64
    recommends
        state_wf(s),
{
    (s.coord.0 as u64 + 4 * (s.coord.1 as u64) + 16 * (s.value as u64) + 0x100000 * op_code_spec(
        s.op,
    )) as u64
}

/// On the grid, the key determines the state.
pub proof fn lemma_state_key_injective(s1: State, s2: State)
    requires
        state_wf(s1),
        state_wf(s2),
        state_key_spec(s1) == state_key_spec(s2),
    ensures
        s1 == s2,
{
    let x1 = s1.coord.0 as u64;
    let y1 = s1.coord.1 as u64;
    let v1 = s1.value as u64;
    let o1 = op_code_spec(s1.op);
    let x2 = s2.coord.0 as u64;
    let y2 = s2.coord.1 as u64;
    let v2 = s2.value as u64;
    let o2 = op_code_spec(s2.op);
    assert(x1 == x2 && y1 == y2 && v1 == v2 && o1 == o2) by (nonlinear_arith)
        requires
            x1 < 4,
            y1 < 4,
            v1 < 0x10000,
            o1 < 4,
            x2 < 4,
            y2 < 4,
            v2 < 0x10000,
            o2 < 4,
            x1 + 4 * y1 + 16 * v1 + 0x100000 * o1 == x2 + 4 * y2 + 16 * v2 + 0x100000 * o2,
    ;
}

/// Executable state key.
fn state_key(s: &State) -> (r: u64)
    requires
        state_wf(*s),
    ensures
        r == state_key_spec(*s),
{
    let code: u64 = match s.op {
        None => 0,
        Some(Operation::Add) => 1,
        Some(Operation::Sub) => 2,
        Some(Operation::Mult) => 3,
    };
    s.coord.0 as u64 + 4 * (s.coord.1 as u64) + 16 * (s.value as u64) + 0x100000 * code
}

/// Executable state equality.
fn state_eq(a: &State, b: &State) -> (r: bool)
    ensures
        r == (*a == *b),
{
    let ops_equal = match (a.op, b.op) {
        (None, None) => true,
        (Some(Operation::Add), Some(Operation::Add)) => true,
        (Some(Operation::Sub), Some(Operation::Sub)) => true,
        (Some(Operation::Mult), Some(Operation::Mult)) => true,
        _ => false,
    };
    a.coord.0 == b.coord.0 && a.coord.1 == b.coord.1 && a.value == b.value && ops_equal
}

impl Maze {
    /// The grid as a mathematical value.
    pub open spec fn grid(self) -> Seq<Seq<Node>> {
        self.nodes@.map_values(|row: Vec<Node>| row@)
    }

    /// The grid has its stated dimensions.
    pub open spec fn wf(self) -> bool {
        &&& self.width == 4
        &&& self.height == 4
        &&& self.nodes@.len() == 4
        &&& forall|i: int| 0 <= i < 4 ==> (#[trigger] self.nodes@[i])@.len() == 4
    }

    /// The shipped maze.
    pub fn new() -> (r: Maze)
        ensures
            r.wf(),
            r.grid() == maze_grid(),
    {
        let row0: Vec<Node> = vec![
            Node::Op(Operation::Mult),
            Node::Value(8),
            Node::Op(Operation::Sub),
            Node::End(1),
        ];
        let row1: Vec<Node> = vec![
            Node::Value(4),
            Node::Op(Operation::Mult),
            Node::Value(11),
            Node::Op(Operation::Mult),
        ];
        let row2: Vec<Node> = vec![
            Node::Op(Operation::Add),
            Node::Value(4),
            Node::Op(Operation::Sub),
            Node::Value(18),
        ];
        let row3: Vec<Node> = vec![
            Node::Start,
            Node::Op(Operation::Sub),
            Node::Value(9),
            Node::Op(Operation::Mult),
        ];
        let maze = Maze { nodes: vec![row0, row1, row2, row3], width: 4, height: 4 };
        proof {
            assert(maze.grid() =~~= maze_grid());
        }
        maze
    }

    /// The coordinates adjacent to `coord`, in the order west, east,
    /// north, south.
    pub fn neighbours(&self, coord: (usize, usize)) -> (r: Vec<(usize, usize)>)
        requires
            coord.0 < self.width,
            coord.1 < self.height,
        ensures
            r@ == neighbours_spec(coord.0, coord.1, self.width, self.height),
            forall|i: int| 0 <= i < r@.len() ==> (#[trigger] r@[i]).0 < self.width && r@[i].1
                < self.height,
    {
        let (x, y) = coord;
        let mut out: Vec<(usize, usize)> = Vec::new();
        if x >= 1 {
            out.push((x - 1, y));
        }
        if x + 1 < self.width {
            out.push((x + 1, y));
        }
        if y >= 1 {
            out.push((x, y - 1));
        }
        if y + 1 < self.height {
            out.push((x, y + 1));
        }
        proof {
            assert(out@ =~= neighbours_spec(coord.0, coord.1, self.width, self.height));
        }
        out
    }
}

/// A walk that solves the maze: it begins at the start state, ends at the
/// end state, and every step is a legal move.
pub open spec fn valid_walk(g: Seq<Seq<Node>>, w: Seq<State>) -> bool {
    &&& w.len() > 0
    &&& w.first() == start_state()
    &&& w.last() == end_state()
    &&& forall|i: int| 0 <= i < w.len() - 1 ==> edge_spec(g, w[i], #[trigger] w[i + 1])
}

/// The shipped maze has a solution: this twelve-move walk is valid, so
/// `solve` has something to find.
#[verifier::rlimit(60)]
pub proof fn lemma_maze_has_walk()
    ensures
        exists|w: Seq<State>| #[trigger] valid_walk(maze_grid(), w),
{
    reveal(edge_spec);
    let g = maze_grid();
    let s0 = State { coord: (0, 3), value: 22, op: None };
    let s1 = State { coord: (0, 2), value: 22, op: Some(Operation::Add) };
    let s2 = State { coord: (1, 2), value: 26, op: None };
    let s3 = State { coord: (2, 2), value: 26, op: Some(Operation::Sub) };
    let s4 = State { coord: (2, 1), value: 15, op: None };
    let s5 = State { coord: (1, 1), value: 15, op: Some(Operation::Mult) };
    let s6 = State { coord: (1, 2), value: 60, op: None };
    let s7 = State { coord: (2, 2), value: 60, op: Some(Operation::Sub) };
    let s8 = State { coord: (3, 2), value: 42, op: None };
    let s9 = State { coord: (2, 2), value: 42, op: Some(Operation::Sub) };
    let s10 = State { coord: (2, 1), value: 31, op: None };
    let s11 = State { coord: (2, 0), value: 31, op: Some(Operation::Sub) };
    let s12 = State { coord: (3, 0), value: 30, op: None };
    let w = seq![s0, s1, s2, s3, s4, s5, s6, s7, s8, s9, s10, s11, s12];
    assert(neighbours_spec(0, 3, 4, 4)[1] == (0usize, 2usize));
    assert(neighbours_spec(0, 2, 4, 4)[0] == (1usize, 2usize));
    assert(neighbours_spec(1, 2, 4, 4)[1] == (2usize, 2usize));
    assert(neighbours_spec(2, 2, 4, 4)[2] == (2usize, 1usize));
    assert(neighbours_spec(2, 1, 4, 4)[0] == (1usize, 1usize));
    assert(neighbours_spec(1, 1, 4, 4)[3] == (1usize, 2usize));
    assert(neighbours_spec(2, 2, 4, 4)[1] == (3usize, 2usize));
    assert(neighbours_spec(3, 2, 4, 4)[0] == (2usize, 2usize));
    assert(neighbours_spec(2, 1, 4, 4)[2] == (2usize, 0usize));
    assert(neighbours_spec(2, 0, 4, 4)[1] == (3usize, 0usize));
    assert(edge_spec(g, s0, s1));
    assert(edge_spec(g, s1, s2));
    assert(edge_spec(g, s2, s3));
    assert(edge_spec(g, s3, s4));
    assert(edge_spec(g, s4, s5));
    assert(edge_spec(g, s5, s6));
    assert(edge_spec(g, s6, s7));
    assert(edge_spec(g, s7, s8));
    assert(edge_spec(g, s8, s9));
    assert(edge_spec(g, s9, s10));
    assert(edge_spec(g, s10, s11));
    assert(edge_spec(g, s11, s12));
    assert(valid_walk(g, w)) by {
        assert(w.first() == start_state());
        assert(w.last() == end_state());
        assert forall|i: int| 0 <= i < w.len() - 1 implies edge_spec(g, w[i], #[trigger] w[i + 1]) by {
            if i == 0 {
                assert(w[0] == s0 && w[1] == s1);
            } else if i == 1 {
                assert(w[1] == s1 && w[2] == s2);
            } else if i == 2 {
                assert(w[2] == s2 && w[3] == s3);
            } else if i == 3 {
                assert(w[3] == s3 && w[4] == s4);
            } else if i == 4 {
                assert(w[4] == s4 && w[5] == s5);
            } else if i == 5 {
                assert(w[5] == s5 && w[6] == s6);
            } else if i == 6 {
                assert(w[6] == s6 && w[7] == s7);
            } else if i == 7 {
                assert(w[7] == s7 && w[8] == s8);
            } else if i == 8 {
                assert(w[8] == s8 && w[9] == s9);
            } else if i == 9 {
                assert(w[9] == s9 && w[10] == s10);
            } else if i == 10 {
                assert(w[10] == s10 && w[11] == s11);
            } else {
                assert(w[11] == s11 && w[12] == s12);
            }
        }
    }
}

/// Every recorded parent takes one legal step to the child its key
/// encodes, and itself descends from the start.
pub open spec fn parents_inv(g: Seq<Seq<Node>>, p: Map<u64, State>) -> bool {
    forall|c: State|
        state_wf(c) && p.contains_key(#[trigger] state_key_spec(c)) ==> ({
            let par = p[state_key_spec(c)];
            &&& state_wf(par)
            &&& edge_spec(g, par, c)
            &&& (par == start_state() || p.contains_key(state_key_spec(par)))
        })
}

/// A queued entry is a well-formed state with either no parent (the start
/// itself) or a parent one legal step away that descends from the start.
pub open spec fn entry_ok(g: Seq<Seq<Node>>, p: Map<u64, State>, e: (State, Option<State>)) -> bool {
    &&& state_wf(e.0)
    &&& match e.1 {
        None => e.0 == start_state(),
        Some(par) => state_wf(par) && edge_spec(g, par, e.0) && (par == start_state()
            || p.contains_key(state_key_spec(par))),
    }
}

/// All unvisited queue entries are well formed.
pub open spec fn queue_ok(
    g: Seq<Seq<Node>>,
    p: Map<u64, State>,
    q: Seq<(State, Option<State>)>,
    head: int,
) -> bool {
    forall|i: int| head <= i < q.len() ==> entry_ok(g, p, #[trigger] q[i])
}

impl Maze {
    /// Search the maze breadth-first for a walk from the start state to
    /// the end state and return it, start first. An empty result means no
    /// walk was found within the search budget; a non-empty result is a
    /// valid walk: it begins at the start, ends on the end node carrying
    /// 30, and every step is a legal move. `lemma_maze_has_walk` shows a
    /// walk exists to be found.
    #[verifier::rlimit(60)]
    pub fn solve() -> (r: Vec<State>)
        ensures
            r@.len() > 0 ==> valid_walk(maze_grid(), r@),
    {
        let maze = Maze::new();
        let ghost g = maze_grid();
        let start = State { coord: (0, 3), value: 22, op: None };
        let end = State { coord: (3, 0), value: 30, op: None };
        let mut queue: Vec<(State, Option<State>)> = Vec::new();
        queue.push((start, None));
        let mut head: usize = 0;
        let mut parents: HashMap<u64, State> = HashMap::new();
        let mut found = false;
        let mut fuel: u64 = 100000000;
        while !found && head < queue.len() && fuel > 0
            invariant
                maze.wf(),
                maze.grid() == g,
                g == maze_grid(),
                start == start_state(),
                end == end_state(),
                head <= queue@.len(),
                parents_inv(g, parents@),
                queue_ok(g, parents@, queue@, head as int),
                found ==> (end_state() == start_state() || parents@.contains_key(
                    state_key_spec(end_state()),
                )),
            decreases fuel,
        {
            fuel = fuel - 1;
            let ghost popped = queue@[head as int];
            let (state, parent) = queue[head];
            head = head + 1;
            proof {
                assert(entry_ok(g, parents@, popped));
            }
            let key = state_key(&state);
            if !parents.contains_key(&key) {
                let is_end = state_eq(&state, &end);
                match parent {
                    Some(par) => {
                        parents.insert(key, par);
                        proof {
                            assert forall|c: State|
                                state_wf(c) && parents@.contains_key(state_key_spec(c)) implies ({
                                let p2 = parents@[state_key_spec(c)];
                                &&& state_wf(p2)
                                &&& edge_spec(g, p2, c)
                                &&& (p2 == start_state() || parents@.contains_key(
                                    state_key_spec(p2),
                                ))
                            }) by {
                                if state_key_spec(c) == key {
                                    lemma_state_key_injective(c, state);
                                }
                            }
                        }
                    },
                    None => {},
                }
                if is_end {
                    found = true;
                } else {
                    let x = state.coord.0;
                    let y = state.coord.1;
                    let node = maze.nodes[y][x];
                    proof {
                        assert(maze.grid()[y as int] == maze.nodes@[y as int]@);
                    }
                    match node {
                        Node::End(_) => {},
                        _ => {
                            let neigh = maze.neighbours((x, y));
                            let mut j: usize = 0;
                            while j < neigh.len()
                                invariant
                                    maze.wf(),
                                    maze.grid() == g,
                                    g == maze_grid(),
                                    start == start_state(),
                                    head <= queue@.len(),
                                    parents_inv(g, parents@),
                                    queue_ok(g, parents@, queue@, head as int),
                                    j <= neigh@.len(),
                                    state_wf(state),
                                    x == state.coord.0,
                                    y == state.coord.1,
                                    neigh@ == neighbours_spec(x, y, 4, 4),
                                    forall|i: int| 0 <= i < neigh@.len() ==> (#[trigger] neigh@[i]).0
                                        < 4 && neigh@[i].1 < 4,
                                    !(g[y as int][x as int] matches Node::End(_)),
                                    state == start_state() || parents@.contains_key(
                                        state_key_spec(state),
                                    ),
                                decreases neigh@.len() - j,
                            {
                                let (nx, ny) = neigh[j];
                                let child_node = maze.nodes[ny][nx];
                                proof {
                                    assert(maze.grid()[ny as int] == maze.nodes@[ny as int]@);
                                    assert(neighbours_spec(x, y, 4, 4)[j as int] == (nx, ny));
                                }
                                match child_node {
                                    Node::Start => {},
                                    Node::Op(op) => {
                                        let child = State {
                                            coord: (nx, ny),
                                            value: state.value,
                                            op: Some(op),
                                        };
                                        proof {
                                            reveal(edge_spec);
                                            assert(edge_spec(g, state, child));
                                        }
                                        queue.push((child, Some(state)));
                                    },
                                    Node::Value(v) => {
                                        match state.op {
                                            Some(op) => {
                                                let nv = apply_op(op, state.value, v);
                                                let child = State {
                                                    coord: (nx, ny),
                                                    value: nv,
                                                    op: None,
                                                };
                                                proof {
                                                    reveal(edge_spec);
                                                    assert(edge_spec(g, state, child));
                                                }
                                                queue.push((child, Some(state)));
                                            },
                                            None => {},
                                        }
                                    },
                                    Node::End(v) => {
                                        match state.op {
                                            Some(op) => {
                                                let nv = apply_op(op, state.value, v);
                                                let child = State {
                                                    coord: (nx, ny),
                                                    value: nv,
                                                    op: None,
                                                };
                                                proof {
                                                    reveal(edge_spec);
                                                    assert(edge_spec(g, state, child));
                                                }
                                                queue.push((child, Some(state)));
                                            },
                                            None => {},
                                        }
                                    },
                                }
                                j = j + 1;
                            }
                        },
                    }
                }
            }
        }
        if !found {
            return Vec::new();
        }
        let mut rev: Vec<State> = Vec::new();
        rev.push(end);
        let mut cur = end;
        let mut done = false;
        let mut fuel2: u64 = 10000000;
        while !done && fuel2 > 0
            invariant
                parents_inv(maze_grid(), parents@),
                rev@.len() >= 1,
                rev@.first() == end_state(),
                rev@.last() == cur,
                state_wf(cur),
                end == end_state(),
                forall|i: int| 0 <= i < rev@.len() - 1 ==> edge_spec(
                    maze_grid(),
                    rev@[i + 1],
                    #[trigger] rev@[i],
                ),
                cur == start_state() || parents@.contains_key(state_key_spec(cur)),
                done ==> cur == start_state(),
            decreases fuel2,
        {
            fuel2 = fuel2 - 1;
            let key = state_key(&cur);
            match parents.get(&key) {
                Some(p) => {
                    let par = *p;
                    proof {
                        assert(parents@.contains_key(state_key_spec(cur)));
                        assert(par == parents@[state_key_spec(cur)]);
                    }
                    rev.push(par);
                    cur = par;
                },
                None => {
                    done = true;
                },
            }
        }
        if !done {
            return Vec::new();
        }
        let n = rev.len();
        let mut result: Vec<State> = Vec::new();
        let mut k: usize = 0;
        while k < n
            invariant
                k <= n,
                n == rev@.len(),
                n >= 1,
                result@.len() == k,
                rev@.first() == end_state(),
                rev@.last() == start_state(),
                forall|i: int| 0 <= i < rev@.len() - 1 ==> edge_spec(
                    maze_grid(),
                    rev@[i + 1],
                    #[trigger] rev@[i],
                ),
                forall|i: int| 0 <= i < k ==> #[trigger] result@[i] == rev@[n - 1 - i],
            decreases n - k,
        {
            result.push(rev[n - 1 - k]);
            k = k + 1;
        }
        proof {
            assert(result@.first() == rev@[n - 1]);
            assert(rev@[n - 1] == start_state());
            assert(result@.last() == rev@[0]);
            assert(rev@[0] == end_state());
            assert forall|i: int| 0 <= i < result@.len() - 1 implies edge_spec(
                maze_grid(),
                #[trigger] result@[i],
                result@[i + 1],
            ) by {
                assert(result@[i] == rev@[n - 1 - i]);
                assert(result@[i + 1] == rev@[n - 1 - i - 1]);
                assert(edge_spec(maze_grid(), rev@[(n - 2 - i) + 1], rev@[n - 2 - i]));
            }
        }
        result
    }
}

} // verus!

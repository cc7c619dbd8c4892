use rpsql_planner::join_order::{hamiltonian_path, JoinOrder};

#[test]
fn a_chain_is_walked_from_its_first_end() {
    let edges = vec![(0, 1), (1, 2)];
    assert_eq!(
        hamiltonian_path(3, &edges),
        Some(JoinOrder { vertices: vec![0, 1, 2], path: vec![0, 1] })
    );
}

#[test]
fn a_chain_whose_middle_comes_first_is_walked_from_an_end() {
    // vertex 0 is the middle: 1 - 0 - 2
    let edges = vec![(1, 0), (0, 2)];
    assert_eq!(
        hamiltonian_path(3, &edges),
        Some(JoinOrder { vertices: vec![1, 0, 2], path: vec![0, 1] })
    );
}

#[test]
fn edges_are_walked_in_either_direction() {
    let edges = vec![(2, 1), (1, 0)];
    assert_eq!(
        hamiltonian_path(3, &edges),
        Some(JoinOrder { vertices: vec![0, 1, 2], path: vec![1, 0] })
    );
}

#[test]
fn edges_are_tried_in_their_order() {
    // from 0 the first edge leads to 1, from there the last edge to 3, and on to 2
    let edges = vec![(0, 1), (0, 2), (2, 3), (3, 1)];
    assert_eq!(
        hamiltonian_path(4, &edges),
        Some(JoinOrder { vertices: vec![0, 1, 3, 2], path: vec![0, 3, 2] })
    );
}

#[test]
fn a_dead_end_sends_the_search_to_the_next_edge() {
    // 0 - 1 and then nothing from 1; 0 - 2 - 1 works
    let edges = vec![(0, 1), (0, 2), (2, 1)];
    assert_eq!(
        hamiltonian_path(3, &edges),
        Some(JoinOrder { vertices: vec![0, 1, 2], path: vec![0, 2] })
    );
}

#[test]
fn of_several_paths_the_first_in_search_order_is_taken() {
    // a triangle: every order is a path; the search takes start 0 and the lowest edges
    let edges = vec![(0, 1), (1, 2), (2, 0)];
    assert_eq!(
        hamiltonian_path(3, &edges),
        Some(JoinOrder { vertices: vec![0, 1, 2], path: vec![0, 1] })
    );
    let edges = vec![(2, 0), (1, 2), (0, 1)];
    assert_eq!(
        hamiltonian_path(3, &edges),
        Some(JoinOrder { vertices: vec![0, 2, 1], path: vec![0, 1] })
    );
}

#[test]
fn a_star_of_three_leaves_has_no_path() {
    let edges = vec![(0, 1), (0, 2), (0, 3)];
    assert_eq!(hamiltonian_path(4, &edges), None);
}

#[test]
fn a_graph_in_two_parts_has_no_path() {
    let edges = vec![(0, 1)];
    assert_eq!(hamiltonian_path(3, &edges), None);
    assert_eq!(hamiltonian_path(2, &Vec::new()), None);
}

#[test]
fn no_vertex_means_no_path() {
    assert_eq!(hamiltonian_path(0, &Vec::new()), None);
    assert_eq!(hamiltonian_path(0, &vec![(0, 0)]), None);
}

#[test]
fn a_single_vertex_is_a_path_of_no_edge() {
    assert_eq!(
        hamiltonian_path(1, &Vec::new()),
        Some(JoinOrder { vertices: vec![0], path: vec![] })
    );
}

#[test]
fn loops_and_edges_to_nowhere_are_never_walked() {
    let edges = vec![(0, 0), (0, 7), (0, 1)];
    assert_eq!(
        hamiltonian_path(2, &edges),
        Some(JoinOrder { vertices: vec![0, 1], path: vec![2] })
    );
}

#[test]
fn parallel_edges_take_the_first() {
    let edges = vec![(1, 0), (0, 1)];
    assert_eq!(
        hamiltonian_path(2, &edges),
        Some(JoinOrder { vertices: vec![0, 1], path: vec![0] })
    );
}

fn walk(n: usize, edges: &[(usize, usize)], start: usize, path: &[usize]) -> Option<Vec<usize>> {
    let mut seen = vec![start];
    for &e in path {
        let (l, r) = edges[e];
        let cur = *seen.last().unwrap();
        let next = if l == cur && r < n && !seen.contains(&r) {
            r
        } else if r == cur && l < n && !seen.contains(&l) {
            l
        } else {
            return None;
        };
        seen.push(next);
    }
    Some(seen)
}

fn next_path(path: &mut Vec<usize>, edges: usize) -> bool {
    for i in (0..path.len()).rev() {
        if path[i] + 1 < edges {
            path[i] += 1;
            for j in i + 1..path.len() {
                path[j] = 0;
            }
            return true;
        }
    }
    false
}

fn first_by_enumeration(n: usize, edges: &[(usize, usize)]) -> Option<JoinOrder> {
    for start in 0..n {
        let mut path = vec![0; n - 1];
        if n > 1 && edges.is_empty() {
            continue;
        }
        loop {
            if let Some(vertices) = walk(n, edges, start, &path) {
                return Some(JoinOrder { vertices, path });
            }
            if !next_path(&mut path, edges.len()) {
                break;
            }
        }
    }
    None
}

#[test]
fn the_search_finds_the_first_path_of_an_enumeration_in_search_order() {
    let mut state: u64 = 12345;
    let mut next = |bound: u64| {
        state = state.wrapping_mul(6364136223846793005).wrapping_add(1442695040888963407);
        (state >> 33) % bound
    };
    for _ in 0..400 {
        let n = 1 + next(5) as usize;
        let m = next(7) as usize;
        let edges: Vec<(usize, usize)> =
            (0..m).map(|_| (next(n as u64 + 1) as usize, next(n as u64 + 1) as usize)).collect();
        assert_eq!(hamiltonian_path(n, &edges), first_by_enumeration(n, &edges), "{} {:?}", n, edges);
    }
}

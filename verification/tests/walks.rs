use std::collections::VecDeque;

use ifnd::search::fs::bredth_first_traverse::BredthFirstRecursiveDirTraversal;
use ifnd::search::fs::depth_first_traverse::DepthFirstRecursiveDirTraversal;
use ifnd::search::fs::dir_event::DirEvent;
use ifnd::traverse::RecursiveDirTraversal;

/// An entry of a directory tree kept in memory.
enum Node {
    File(&'static str),
    Dir(&'static str, Vec<Node>),
    Broken,
}

/// An open directory of the in-memory tree: its path and the entries not
/// read yet.
struct MemDir {
    path: String,
    entries: VecDeque<Node>,
}

fn open(path: String, entries: Vec<Node>) -> MemDir {
    MemDir { path, entries: entries.into_iter().collect() }
}

fn read_next(dir: &mut MemDir) -> DirEvent<MemDir, String> {
    match dir.entries.pop_front() {
        None => DirEvent::End,
        Some(Node::File(name)) => DirEvent::File(format!("{}/{}", dir.path, name)),
        Some(Node::Dir(name, children)) => DirEvent::Dir(open(format!("{}/{}", dir.path, name), children)),
        Some(Node::Broken) => DirEvent::Skip,
    }
}

/// A small tree of files and folders, entries in name order.
fn test_tree() -> MemDir {
    open(
        "test".to_string(),
        vec![
            Node::File("1.txt"),
            Node::File("2.txt"),
            Node::Dir("a1", vec![Node::File("1.txt"), Node::File("2.txt"), Node::Dir("b1", vec![Node::File("1.txt")])]),
            Node::Dir("a2", vec![Node::File("1.txt"), Node::Dir("b2", vec![Node::File("1.txt")])]),
            Node::Dir(
                "a3",
                vec![Node::File("1.txt"), Node::Dir("b2", vec![Node::File("1.txt"), Node::Dir("c1", vec![])])],
            ),
            Node::Dir(
                "a4",
                vec![Node::File("1.txt"), Node::Dir("b2", vec![Node::File("1.txt"), Node::Dir("c1", vec![])])],
            ),
        ],
    )
}

fn dfs_next(walk: &mut DepthFirstRecursiveDirTraversal<MemDir>) -> Option<String> {
    loop {
        let mut cur = walk.take_current()?;
        let event = read_next(&mut cur);
        if let Some(f) = walk.step(cur, event) {
            return Some(f);
        }
    }
}

fn bfs_next(walk: &mut BredthFirstRecursiveDirTraversal<MemDir>) -> Option<String> {
    loop {
        let mut cur = walk.take_current()?;
        let event = read_next(&mut cur);
        if let Some(f) = walk.step(cur, event) {
            return Some(f);
        }
    }
}

#[test]
fn depth_first_traverse_test_search_dris() {
    let mut iter = DepthFirstRecursiveDirTraversal::new(test_tree());
    let mut next_path = || dfs_next(&mut iter).ok_or("empty iter");

    assert_eq!(next_path().unwrap(), "test/1.txt");
    assert_eq!(next_path().unwrap(), "test/2.txt");
    assert_eq!(next_path().unwrap(), "test/a1/1.txt");
    assert_eq!(next_path().unwrap(), "test/a1/2.txt");
    assert_eq!(next_path().unwrap(), "test/a1/b1/1.txt");

    assert_eq!(next_path().unwrap(), "test/a2/1.txt");
    assert_eq!(next_path().unwrap(), "test/a2/b2/1.txt");

    assert_eq!(next_path().unwrap(), "test/a3/1.txt");
    assert_eq!(next_path().unwrap(), "test/a3/b2/1.txt");

    assert_eq!(next_path().unwrap(), "test/a4/1.txt");
    assert_eq!(next_path().unwrap(), "test/a4/b2/1.txt");

    assert!(next_path().is_err());
}

#[test]
fn bredth_first_traverse_test_search_dris() {
    let mut iter = BredthFirstRecursiveDirTraversal::new(test_tree());
    let mut next_path = || bfs_next(&mut iter).ok_or("empty iter");

    assert_eq!(next_path().unwrap(), "test/1.txt");
    assert_eq!(next_path().unwrap(), "test/2.txt");
    assert_eq!(next_path().unwrap(), "test/a1/1.txt");
    assert_eq!(next_path().unwrap(), "test/a1/2.txt");

    assert_eq!(next_path().unwrap(), "test/a2/1.txt");
    assert_eq!(next_path().unwrap(), "test/a3/1.txt");
    assert_eq!(next_path().unwrap(), "test/a4/1.txt");

    assert_eq!(next_path().unwrap(), "test/a1/b1/1.txt");
    assert_eq!(next_path().unwrap(), "test/a2/b2/1.txt");
    assert_eq!(next_path().unwrap(), "test/a3/b2/1.txt");
    assert_eq!(next_path().unwrap(), "test/a4/b2/1.txt");

    assert!(next_path().is_err());
}

#[test]
fn unreadable_entries_are_passed_over() {
    let tree = || {
        open(
            "r".to_string(),
            vec![Node::Broken, Node::Dir("d", vec![Node::Broken, Node::File("x")]), Node::File("y")],
        )
    };
    let mut dfs = DepthFirstRecursiveDirTraversal::new(tree());
    assert_eq!(dfs_next(&mut dfs).as_deref(), Some("r/d/x"));
    assert_eq!(dfs_next(&mut dfs).as_deref(), Some("r/y"));
    assert_eq!(dfs_next(&mut dfs), None);
    assert!(dfs.take_current().is_none());

    let mut bfs = BredthFirstRecursiveDirTraversal::new(tree());
    assert_eq!(bfs_next(&mut bfs).as_deref(), Some("r/y"));
    assert_eq!(bfs_next(&mut bfs).as_deref(), Some("r/d/x"));
    assert_eq!(bfs_next(&mut bfs), None);
    assert!(bfs.take_current().is_none());
}

#[test]
fn step_keeps_the_directory_and_enters_subdirectories() {
    let mut dfs: RecursiveDirTraversal<u32> = RecursiveDirTraversal::new(1);
    assert_eq!(dfs.take_current(), Some(1));
    assert_eq!(dfs.step::<&str>(1, DirEvent::Dir(2)), None);
    assert_eq!(dfs.take_current(), Some(2));
    assert_eq!(dfs.step(2, DirEvent::File("f")), Some("f"));
    assert_eq!(dfs.take_current(), Some(2));
    assert_eq!(dfs.step::<&str>(2, DirEvent::End), None);
    assert_eq!(dfs.take_current(), Some(1));
    assert_eq!(dfs.step::<&str>(1, DirEvent::Skip), None);
    assert_eq!(dfs.take_current(), Some(1));
    assert_eq!(dfs.step::<&str>(1, DirEvent::End), None);
    assert_eq!(dfs.take_current(), None);

    let mut bfs = BredthFirstRecursiveDirTraversal::new(1u32);
    assert_eq!(bfs.take_current(), Some(1));
    assert_eq!(bfs.step::<&str>(1, DirEvent::Dir(2)), None);
    assert_eq!(bfs.take_current(), Some(1));
    assert_eq!(bfs.step::<&str>(1, DirEvent::Dir(3)), None);
    assert_eq!(bfs.take_current(), Some(1));
    assert_eq!(bfs.step::<&str>(1, DirEvent::End), None);
    assert_eq!(bfs.take_current(), Some(2));
    assert_eq!(bfs.step::<&str>(2, DirEvent::End), None);
    assert_eq!(bfs.take_current(), Some(3));
}

fn all_dfs(tree: MemDir) -> Vec<String> {
    let mut walk = DepthFirstRecursiveDirTraversal::new(tree);
    let mut out = Vec::new();
    while let Some(f) = dfs_next(&mut walk) {
        out.push(f);
    }
    out
}

fn all_bfs(tree: MemDir) -> Vec<String> {
    let mut walk = BredthFirstRecursiveDirTraversal::new(tree);
    let mut out = Vec::new();
    while let Some(f) = bfs_next(&mut walk) {
        out.push(f);
    }
    out
}

#[test]
fn breadth_first_depths_never_decrease() {
    let depths: Vec<usize> = all_bfs(test_tree()).iter().map(|p| p.matches('/').count()).collect();
    assert_eq!(depths.len(), 11);
    assert!(depths.windows(2).all(|w| w[0] <= w[1]));
}

#[test]
fn both_walks_hand_out_the_same_files() {
    let mut d = all_dfs(test_tree());
    let mut b = all_bfs(test_tree());
    assert_ne!(d, b);
    d.sort();
    b.sort();
    assert_eq!(d, b);
}

#[test]
fn broken_entries_change_nothing_else() {
    let with_broken = || {
        open(
            "r".to_string(),
            vec![
                Node::File("a"),
                Node::Broken,
                Node::Dir("d", vec![Node::Broken, Node::File("x"), Node::Dir("e", vec![Node::File("z")])]),
                Node::Broken,
                Node::File("y"),
            ],
        )
    };
    let without = || {
        open(
            "r".to_string(),
            vec![Node::File("a"), Node::Dir("d", vec![Node::File("x"), Node::Dir("e", vec![Node::File("z")])]), Node::File("y")],
        )
    };
    assert_eq!(all_dfs(with_broken()), all_dfs(without()));
    assert_eq!(all_bfs(with_broken()), all_bfs(without()));
    assert_eq!(all_dfs(with_broken()), vec!["r/a", "r/d/x", "r/d/e/z", "r/y"]);
    assert_eq!(all_bfs(with_broken()), vec!["r/a", "r/y", "r/d/x", "r/d/e/z"]);
}

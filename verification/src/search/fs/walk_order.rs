use vstd::prelude::*;
use crate::search::fs::bredth_first_traverse::bfs_after;
use crate::search::fs::depth_first_traverse::dfs_after;
use crate::search::fs::dir_event::{event_file, DirEvent};

verus! {

/// An entry of a directory tree, as the walks see it.
pub enum FsEntry<E> {
    File(E),
    /// A subdirectory, with its entries in the order they are read.
    Dir(Seq<FsEntry<E>>),
    /// An entry that the walks pass over.
    Unreadable,
}

/// Reading the next entry of a directory whose remaining entries are `dir`:
/// the entries left afterwards, and the event.
pub open spec fn read_next<E>(dir: Seq<FsEntry<E>>) -> (Seq<FsEntry<E>>, DirEvent<Seq<FsEntry<E>>, E>) {
    if dir.len() == 0 {
        (dir, DirEvent::End)
    } else {
        (
            dir.drop_first(),
            match dir[0] {
                FsEntry::File(e) => DirEvent::File(e),
                FsEntry::Dir(c) => DirEvent::Dir(c),
                FsEntry::Unreadable => DirEvent::Skip,
            },
        )
    }
}

/// A measure of an entry: a directory weighs two more than its entries.
pub open spec fn entry_size<E>(e: FsEntry<E>) -> nat
    decreases e,
{
    match e {
        FsEntry::Dir(c) => 2 + dir_size(c),
        _ => 1,
    }
}

/// A measure of the remaining entries of a directory.
pub open spec fn dir_size<E>(d: Seq<FsEntry<E>>) -> nat
    decreases d,
{
    if d.len() == 0 {
        0
    } else {
        entry_size(d[0]) + dir_size(d.drop_first())
    }
}

/// A measure of a stack or queue of open directories.
pub open spec fn dirs_weight<E>(q: Seq<Seq<FsEntry<E>>>) -> nat
    decreases q.len(),
{
    if q.len() == 0 {
        0
    } else {
        dir_size(q[0]) + 1 + dirs_weight(q.drop_first())
    }
}

proof fn lemma_weight_concat<E>(a: Seq<Seq<FsEntry<E>>>, b: Seq<Seq<FsEntry<E>>>)
    ensures
        dirs_weight(a + b) == dirs_weight(a) + dirs_weight(b),
    decreases a.len(),
{
    if a.len() == 0 {
        assert(a + b =~= b);
    } else {
        assert((a + b).drop_first() =~= a.drop_first() + b);
        lemma_weight_concat(a.drop_first(), b);
    }
}

proof fn lemma_weight_push<E>(a: Seq<Seq<FsEntry<E>>>, x: Seq<FsEntry<E>>)
    ensures
        dirs_weight(a.push(x)) == dirs_weight(a) + dir_size(x) + 1,
{
    let single = seq![x];
    assert(a.push(x) =~= a + single);
    lemma_weight_concat(a, single);
    assert(single.drop_first() =~= Seq::<Seq<FsEntry<E>>>::empty());
    assert(dirs_weight(single) == dir_size(x) + 1 + dirs_weight(single.drop_first()));
}

proof fn lemma_weight_front<E>(x: Seq<FsEntry<E>>, a: Seq<Seq<FsEntry<E>>>)
    ensures
        dirs_weight(seq![x] + a) == dirs_weight(a) + dir_size(x) + 1,
{
    assert((seq![x] + a).drop_first() =~= a);
}

/// Taking the current directory and giving it back with an entry that is
/// passed over, or with a file, leaves the open directories as they were,
/// for both walks.
pub proof fn law_put_back_restores<D, E>(dirs: Seq<D>, e: E)
    requires
        dirs.len() > 0,
    ensures
        dfs_after(dirs.drop_last(), dirs.last(), DirEvent::<D, E>::Skip) == dirs,
        dfs_after(dirs.drop_last(), dirs.last(), DirEvent::<D, E>::File(e)) == dirs,
        bfs_after(dirs.drop_first(), dirs[0], DirEvent::<D, E>::Skip) == dirs,
        bfs_after(dirs.drop_first(), dirs[0], DirEvent::<D, E>::File(e)) == dirs,
{
    assert(dirs.drop_last().push(dirs.last()) =~= dirs);
    assert(seq![dirs[0]] + dirs.drop_first() =~= dirs);
}

/// The files that one step out of a read hands out.
pub open spec fn step_output<E>(event: DirEvent<Seq<FsEntry<E>>, E>) -> Seq<E> {
    match event_file(event) {
        Some(e) => seq![e],
        None => Seq::empty(),
    }
}

/// The files that the depth-first walk hands out, in order, from the stack
/// `stack` of open directories (innermost last): the walk reads the innermost
/// directory and steps as `DepthFirstRecursiveDirTraversal::step` does.
pub open spec fn dfs_walk<E>(stack: Seq<Seq<FsEntry<E>>>) -> Seq<E>
    decreases dirs_weight(stack),
{
    if stack.len() == 0 {
        Seq::empty()
    } else {
        let rest = stack.drop_last();
        let (cur, ev) = read_next(stack.last());
        proof {
            lemma_dfs_step_weight(stack);
        }
        step_output(ev) + dfs_walk(dfs_after(rest, cur, ev))
    }
}

pub proof fn lemma_dfs_step_weight<E>(stack: Seq<Seq<FsEntry<E>>>)
    requires
        stack.len() > 0,
    ensures
        dirs_weight(dfs_after(stack.drop_last(), read_next(stack.last()).0, read_next(stack.last()).1))
            < dirs_weight(stack),
{
    let rest = stack.drop_last();
    let last = stack.last();
    let (cur, ev) = read_next(last);
    assert(stack =~= rest.push(last));
    lemma_weight_push(rest, last);
    match ev {
        DirEvent::End => {
            assert(last.len() == 0);
            assert(dir_size(last) == 0);
            assert(dfs_after(rest, cur, ev) == rest);
        },
        DirEvent::Skip => {
            assert(dir_size(last) == entry_size(last[0]) + dir_size(cur));
            lemma_weight_push(rest, cur);
        },
        DirEvent::File(_) => {
            assert(dir_size(last) == entry_size(last[0]) + dir_size(cur));
            lemma_weight_push(rest, cur);
        },
        DirEvent::Dir(c) => {
            assert(last[0] == FsEntry::Dir(c));
            assert(dir_size(last) == entry_size(last[0]) + dir_size(cur));
            assert(entry_size(last[0]) == 2 + dir_size(c));
            lemma_weight_push(rest, cur);
            lemma_weight_push(rest.push(cur), c);
        },
    }
}

/// The files that the breadth-first walk hands out, in order, from the queue
/// `queue` of open directories: the walk reads the first directory and steps
/// as `BredthFirstRecursiveDirTraversal::step` does.
pub open spec fn bfs_walk<E>(queue: Seq<Seq<FsEntry<E>>>) -> Seq<E>
    decreases dirs_weight(queue),
{
    if queue.len() == 0 {
        Seq::empty()
    } else {
        let rest = queue.drop_first();
        let (cur, ev) = read_next(queue[0]);
        proof {
            lemma_bfs_step_weight(queue);
        }
        step_output(ev) + bfs_walk(bfs_after(rest, cur, ev))
    }
}

pub proof fn lemma_bfs_step_weight<E>(queue: Seq<Seq<FsEntry<E>>>)
    requires
        queue.len() > 0,
    ensures
        dirs_weight(bfs_after(queue.drop_first(), read_next(queue[0]).0, read_next(queue[0]).1))
            < dirs_weight(queue),
{
    let rest = queue.drop_first();
    let (cur, ev) = read_next(queue[0]);
    match ev {
        DirEvent::End => {
            assert(dirs_weight(queue) == dir_size(queue[0]) + 1 + dirs_weight(rest));
        },
        DirEvent::Skip => {
            assert(dirs_weight(queue) == dir_size(queue[0]) + 1 + dirs_weight(rest));
            assert(dir_size(queue[0]) == entry_size(queue[0][0]) + dir_size(cur));
            lemma_weight_front(cur, rest);
        },
        DirEvent::File(_) => {
            assert(dirs_weight(queue) == dir_size(queue[0]) + 1 + dirs_weight(rest));
            assert(dir_size(queue[0]) == entry_size(queue[0][0]) + dir_size(cur));
            lemma_weight_front(cur, rest);
        },
        DirEvent::Dir(c) => {
            assert(dirs_weight(queue) == dir_size(queue[0]) + 1 + dirs_weight(rest));
            assert(queue[0][0] == FsEntry::Dir(c));
            assert(dir_size(queue[0]) == entry_size(queue[0][0]) + dir_size(cur));
            assert(entry_size(queue[0][0]) == 2 + dir_size(c));
            lemma_weight_front(cur, rest);
            lemma_weight_push(seq![cur] + rest, c);
        },
    }
}

/// The files of a directory in pre-order: its entries in order, with the
/// files of each subdirectory where the subdirectory stands.
pub open spec fn preorder_files<E>(d: Seq<FsEntry<E>>) -> Seq<E>
    decreases d,
{
    if d.len() == 0 {
        Seq::empty()
    } else {
        entry_files(d[0]) + preorder_files(d.drop_first())
    }
}

/// The files of an entry in pre-order.
pub open spec fn entry_files<E>(e: FsEntry<E>) -> Seq<E>
    decreases e,
{
    match e {
        FsEntry::File(x) => seq![x],
        FsEntry::Dir(c) => preorder_files(c),
        FsEntry::Unreadable => Seq::empty(),
    }
}

/// The files of a stack of open directories, innermost first.
pub open spec fn stack_files<E>(stack: Seq<Seq<FsEntry<E>>>) -> Seq<E>
    decreases stack.len(),
{
    if stack.len() == 0 {
        Seq::empty()
    } else {
        preorder_files(stack.last()) + stack_files(stack.drop_last())
    }
}

/// The files directly in a directory, in order.
pub open spec fn direct_files<E>(d: Seq<FsEntry<E>>) -> Seq<E>
    decreases d.len(),
{
    if d.len() == 0 {
        Seq::empty()
    } else {
        (match d[0] {
            FsEntry::File(x) => seq![x],
            _ => Seq::empty(),
        }) + direct_files(d.drop_first())
    }
}

/// The subdirectories directly in a directory, in order.
pub open spec fn subdirs<E>(d: Seq<FsEntry<E>>) -> Seq<Seq<FsEntry<E>>>
    decreases d.len(),
{
    if d.len() == 0 {
        Seq::empty()
    } else {
        (match d[0] {
            FsEntry::Dir(c) => seq![c],
            _ => Seq::empty(),
        }) + subdirs(d.drop_first())
    }
}

proof fn lemma_subdirs_weight<E>(d: Seq<FsEntry<E>>)
    ensures
        dirs_weight(subdirs(d)) <= dir_size(d),
    decreases d.len(),
{
    if d.len() > 0 {
        lemma_subdirs_weight(d.drop_first());
        assert(dir_size(d) == entry_size(d[0]) + dir_size(d.drop_first()));
        match d[0] {
            FsEntry::Dir(c) => {
                assert(subdirs(d) =~= seq![c] + subdirs(d.drop_first()));
                assert(entry_size(d[0]) == 2 + dir_size(c));
                lemma_weight_front(c, subdirs(d.drop_first()));
            },
            _ => {
                assert(subdirs(d) =~= subdirs(d.drop_first()));
            },
        }
    }
}

/// The files of a queue of open directories in level order: the files
/// directly in the first directory, then those of the rest of the queue with
/// the first directory's subdirectories joined at its back.
pub open spec fn level_order<E>(queue: Seq<Seq<FsEntry<E>>>) -> Seq<E>
    decreases dirs_weight(queue),
{
    if queue.len() == 0 {
        Seq::empty()
    } else {
        proof {
            lemma_level_order_weight(queue);
        }
        direct_files(queue[0]) + level_order(queue.drop_first() + subdirs(queue[0]))
    }
}

pub proof fn lemma_level_order_weight<E>(queue: Seq<Seq<FsEntry<E>>>)
    requires
        queue.len() > 0,
    ensures
        dirs_weight(queue.drop_first() + subdirs(queue[0])) < dirs_weight(queue),
{
    lemma_weight_concat(queue.drop_first(), subdirs(queue[0]));
    lemma_subdirs_weight(queue[0]);
}

proof fn lemma_dfs_walk_stack<E>(stack: Seq<Seq<FsEntry<E>>>)
    ensures
        dfs_walk(stack) == stack_files(stack),
    decreases dirs_weight(stack),
{
    if stack.len() > 0 {
        let rest = stack.drop_last();
        let last = stack.last();
        let (cur, ev) = read_next(last);
        lemma_dfs_step_weight(stack);
        let next = dfs_after(rest, cur, ev);
        lemma_dfs_walk_stack(next);
        match ev {
            DirEvent::End => {
                assert(preorder_files(last) =~= Seq::<E>::empty());
                assert(dfs_walk(stack) =~= stack_files(stack));
            },
            DirEvent::Skip => {
                assert(rest.push(cur).drop_last() =~= rest);
                assert(rest.push(cur).last() == cur);
                assert(stack_files(next) == preorder_files(cur) + stack_files(rest));
                assert(entry_files(last[0]) =~= Seq::<E>::empty());
                assert(preorder_files(last) == entry_files(last[0]) + preorder_files(cur));
                assert(preorder_files(last) =~= preorder_files(cur));
                assert(dfs_walk(stack) == step_output(ev) + dfs_walk(next));
                assert(step_output(ev) =~= Seq::<E>::empty());
                assert(dfs_walk(stack) =~= stack_files(stack));
            },
            DirEvent::File(e) => {
                assert(rest.push(cur).drop_last() =~= rest);
                assert(rest.push(cur).last() == cur);
                assert(stack_files(next) == preorder_files(cur) + stack_files(rest));
                assert(preorder_files(last) == entry_files(last[0]) + preorder_files(cur));
                assert(entry_files(last[0]) == seq![e]);
                assert(dfs_walk(stack) == step_output(ev) + dfs_walk(next));
                assert(step_output(ev) == seq![e]);
                assert(dfs_walk(stack) =~= stack_files(stack));
            },
            DirEvent::Dir(c) => {
                assert(rest.push(cur).drop_last() =~= rest);
                assert(rest.push(cur).push(c).drop_last() =~= rest.push(cur));
                assert(rest.push(cur).last() == cur);
                assert(rest.push(cur).push(c).last() == c);
                assert(stack_files(rest.push(cur)) == preorder_files(cur) + stack_files(rest));
                assert(stack_files(next) == preorder_files(c) + stack_files(rest.push(cur)));
                assert(preorder_files(last) == entry_files(last[0]) + preorder_files(cur));
                assert(entry_files(last[0]) == preorder_files(c));
                assert(dfs_walk(stack) == step_output(ev) + dfs_walk(next));
                assert(step_output(ev) =~= Seq::<E>::empty());
                assert(dfs_walk(stack) =~= stack_files(stack));
            },
        }
    }
}

/// The depth-first walk hands out the files of a directory tree in
/// pre-order: the entries of each directory in the order they are read, and
/// all files below a subdirectory where the subdirectory stands.
pub proof fn law_depth_first_walk_is_preorder<E>(root: Seq<FsEntry<E>>)
    ensures
        dfs_walk(seq![root]) == preorder_files(root),
{
    lemma_dfs_walk_stack(seq![root]);
    assert(seq![root].drop_last() =~= Seq::<Seq<FsEntry<E>>>::empty());
    assert(seq![root].last() == root);
    assert(stack_files(seq![root]) == preorder_files(root) + stack_files(Seq::<Seq<FsEntry<E>>>::empty()));
    assert(stack_files(seq![root]) =~= preorder_files(root));
}

proof fn lemma_bfs_front<E>(cur: Seq<FsEntry<E>>, rest: Seq<Seq<FsEntry<E>>>)
    ensures
        bfs_walk(seq![cur] + rest) == direct_files(cur) + bfs_walk(rest + subdirs(cur)),
    decreases cur.len(),
{
    let q = seq![cur] + rest;
    assert(q.drop_first() =~= rest);
    assert(q[0] == cur);
    let (cur2, ev) = read_next(cur);
    if cur.len() == 0 {
        assert(rest + subdirs(cur) =~= rest);
        assert(bfs_walk(q) =~= direct_files(cur) + bfs_walk(rest + subdirs(cur)));
    } else {
        lemma_bfs_front(cur2, rest);
        match cur[0] {
            FsEntry::File(e) => {
                assert(subdirs(cur) =~= subdirs(cur2));
                assert(bfs_walk(q) =~= direct_files(cur) + bfs_walk(rest + subdirs(cur)));
            },
            FsEntry::Unreadable => {
                assert(subdirs(cur) =~= subdirs(cur2));
                assert(direct_files(cur) =~= direct_files(cur2));
                assert(bfs_walk(q) =~= direct_files(cur) + bfs_walk(rest + subdirs(cur)));
            },
            FsEntry::Dir(c) => {
                lemma_bfs_front(cur2, rest.push(c));
                assert((seq![cur2] + rest).push(c) =~= seq![cur2] + rest.push(c));
                assert(rest + subdirs(cur) =~= rest.push(c) + subdirs(cur2));
                assert(direct_files(cur) =~= direct_files(cur2));
                assert(bfs_walk(q) =~= direct_files(cur) + bfs_walk(rest + subdirs(cur)));
            },
        }
    }
}

proof fn lemma_bfs_walk_level_order<E>(queue: Seq<Seq<FsEntry<E>>>)
    ensures
        bfs_walk(queue) == level_order(queue),
    decreases dirs_weight(queue),
{
    if queue.len() > 0 {
        let rest = queue.drop_first();
        assert(queue =~= seq![queue[0]] + rest);
        lemma_bfs_front(queue[0], rest);
        lemma_level_order_weight(queue);
        lemma_bfs_walk_level_order(rest + subdirs(queue[0]));
    }
}

/// The breadth-first walk hands out the files of a directory tree in level
/// order: first the files directly in the root, then, directory by directory
/// in the order they were found, the files directly in each subdirectory.
pub proof fn law_breadth_first_walk_is_level_order<E>(root: Seq<FsEntry<E>>)
    ensures
        bfs_walk(seq![root]) == level_order(seq![root]),
{
    lemma_bfs_walk_level_order(seq![root]);
}


/// The files directly in each directory of `dirs`, one directory after the
/// other.
pub open spec fn level_files<E>(dirs: Seq<Seq<FsEntry<E>>>) -> Seq<E>
    decreases dirs.len(),
{
    if dirs.len() == 0 {
        Seq::empty()
    } else {
        direct_files(dirs[0]) + level_files(dirs.drop_first())
    }
}

/// The subdirectories directly in each directory of `dirs`, one directory
/// after the other: the next level down.
pub open spec fn next_level<E>(dirs: Seq<Seq<FsEntry<E>>>) -> Seq<Seq<FsEntry<E>>>
    decreases dirs.len(),
{
    if dirs.len() == 0 {
        Seq::empty()
    } else {
        subdirs(dirs[0]) + next_level(dirs.drop_first())
    }
}

/// The directories `depth` levels below `root` (the root itself at depth 0),
/// in the order the breadth-first walk finds them.
pub open spec fn dirs_at_depth<E>(root: Seq<FsEntry<E>>, depth: nat) -> Seq<Seq<FsEntry<E>>>
    decreases depth,
{
    if depth == 0 {
        seq![root]
    } else {
        next_level(dirs_at_depth(root, (depth - 1) as nat))
    }
}

/// The files less than `depth` levels below `root`: those directly in the
/// root, then those one level down, and so on.
pub open spec fn files_above_depth<E>(root: Seq<FsEntry<E>>, depth: nat) -> Seq<E>
    decreases depth,
{
    if depth == 0 {
        Seq::empty()
    } else {
        files_above_depth(root, (depth - 1) as nat) + level_files(dirs_at_depth(root, (depth - 1) as nat))
    }
}

proof fn lemma_level_order_split<E>(a: Seq<Seq<FsEntry<E>>>, b: Seq<Seq<FsEntry<E>>>)
    ensures
        level_order(a + b) == level_files(a) + level_order(b + next_level(a)),
    decreases a.len(),
{
    if a.len() == 0 {
        assert(a + b =~= b);
        assert(b + next_level(a) =~= b);
        assert(level_files(a) + level_order(b) =~= level_order(b));
    } else {
        let q = a + b;
        let rest = a.drop_first();
        assert(q[0] == a[0]);
        assert(q.drop_first() =~= rest + b);
        lemma_level_order_split(rest, b + subdirs(a[0]));
        assert(q.drop_first() + subdirs(a[0]) =~= rest + (b + subdirs(a[0])));
        assert((b + subdirs(a[0])) + next_level(rest) =~= b + next_level(a));
        assert(level_order(q) == direct_files(a[0]) + level_order(q.drop_first() + subdirs(a[0])));
        assert(level_order(q) =~= level_files(a) + level_order(b + next_level(a)));
    }
}

/// The breadth-first order goes level by level: from a row of directories
/// of one depth, it hands out all files directly in them before any file
/// one level further down.
pub proof fn law_breadth_first_goes_level_by_level<E>(dirs: Seq<Seq<FsEntry<E>>>)
    ensures
        level_order(dirs) == level_files(dirs) + level_order(next_level(dirs)),
{
    let none = Seq::<Seq<FsEntry<E>>>::empty();
    lemma_level_order_split(dirs, none);
    assert(dirs + none =~= dirs);
    assert(none + next_level(dirs) =~= next_level(dirs));
}

/// The depth of the files that the breadth-first walk hands out never
/// decreases: for every depth `d`, it first hands out all files less than
/// `d` levels below the root, level by level, and only then those at depth
/// `d` and below.
pub proof fn law_breadth_first_walk_by_depth<E>(root: Seq<FsEntry<E>>, depth: nat)
    ensures
        bfs_walk(seq![root]) == files_above_depth(root, depth) + level_order(dirs_at_depth(root, depth)),
    decreases depth,
{
    law_breadth_first_walk_is_level_order(root);
    if depth == 0 {
        assert(files_above_depth(root, 0) + level_order(seq![root]) =~= level_order(seq![root]));
    } else {
        let d = (depth - 1) as nat;
        law_breadth_first_walk_by_depth(root, d);
        law_breadth_first_goes_level_by_level(dirs_at_depth(root, d));
        assert(files_above_depth(root, d) + (level_files(dirs_at_depth(root, d)) + level_order(
            dirs_at_depth(root, depth),
        )) =~= files_above_depth(root, depth) + level_order(dirs_at_depth(root, depth)));
    }
}

/// The files of each directory of `dirs` in pre-order, one directory after
/// the other.
pub open spec fn forest_files<E>(dirs: Seq<Seq<FsEntry<E>>>) -> Seq<E>
    decreases dirs.len(),
{
    if dirs.len() == 0 {
        Seq::empty()
    } else {
        preorder_files(dirs[0]) + forest_files(dirs.drop_first())
    }
}

proof fn lemma_forest_concat<E>(a: Seq<Seq<FsEntry<E>>>, b: Seq<Seq<FsEntry<E>>>)
    ensures
        forest_files(a + b) == forest_files(a) + forest_files(b),
    decreases a.len(),
{
    if a.len() == 0 {
        assert(a + b =~= b);
        assert(forest_files(a) + forest_files(b) =~= forest_files(b));
    } else {
        assert((a + b)[0] == a[0]);
        assert((a + b).drop_first() =~= a.drop_first() + b);
        lemma_forest_concat(a.drop_first(), b);
        assert(forest_files(a + b) =~= forest_files(a) + forest_files(b));
    }
}

proof fn lemma_preorder_split<E>(d: Seq<FsEntry<E>>)
    ensures
        preorder_files(d).to_multiset() == direct_files(d).to_multiset().add(
            forest_files(subdirs(d)).to_multiset(),
        ),
    decreases d.len(),
{
    broadcast use vstd::seq_lib::lemma_multiset_commutative;
    broadcast use vstd::multiset::group_multiset_axioms;

    if d.len() == 0 {
        let e = Seq::<E>::empty();
        assert(preorder_files(d) =~= e);
        assert(direct_files(d) =~= e);
        assert(subdirs(d) =~= Seq::<Seq<FsEntry<E>>>::empty());
        assert(forest_files(subdirs(d)) =~= e);
        assert(e + e =~= e);
        assert((e + e).to_multiset() =~= e.to_multiset().add(e.to_multiset()));
    } else {
        let rest = d.drop_first();
        lemma_preorder_split(rest);
        match d[0] {
            FsEntry::File(x) => {
                assert(subdirs(d) =~= subdirs(rest));
                assert(entry_files(d[0]) == seq![x]);
                assert(preorder_files(d) == seq![x] + preorder_files(rest));
                assert(direct_files(d) == seq![x] + direct_files(rest));
            },
            FsEntry::Unreadable => {
                assert(subdirs(d) =~= subdirs(rest));
                assert(entry_files(d[0]) == Seq::<E>::empty());
                assert(preorder_files(d) =~= preorder_files(rest));
                assert(direct_files(d) =~= direct_files(rest));
            },
            FsEntry::Dir(c) => {
                assert(subdirs(d) =~= seq![c] + subdirs(rest));
                assert(direct_files(d) =~= direct_files(rest));
                assert(entry_files(d[0]) == preorder_files(c));
                assert(preorder_files(d) == preorder_files(c) + preorder_files(rest));
                let single = seq![c];
                assert(single[0] == c);
                assert(single.drop_first() =~= Seq::<Seq<FsEntry<E>>>::empty());
                assert(forest_files(single.drop_first()) == Seq::<E>::empty());
                assert(forest_files(single) == preorder_files(c) + forest_files(single.drop_first()));
                assert(forest_files(single) =~= preorder_files(c));
                lemma_forest_concat(single, subdirs(rest));
            },
        }
        assert(preorder_files(d).to_multiset() =~= direct_files(d).to_multiset().add(
            forest_files(subdirs(d)).to_multiset(),
        ));
    }
}

proof fn lemma_level_order_multiset<E>(q: Seq<Seq<FsEntry<E>>>)
    ensures
        level_order(q).to_multiset() == forest_files(q).to_multiset(),
    decreases dirs_weight(q),
{
    broadcast use vstd::seq_lib::lemma_multiset_commutative;
    broadcast use vstd::multiset::group_multiset_axioms;

    if q.len() > 0 {
        let rest = q.drop_first();
        lemma_level_order_weight(q);
        lemma_level_order_multiset(rest + subdirs(q[0]));
        lemma_forest_concat(rest, subdirs(q[0]));
        lemma_preorder_split(q[0]);
        assert(level_order(q) == direct_files(q[0]) + level_order(rest + subdirs(q[0])));
        assert(forest_files(q) == preorder_files(q[0]) + forest_files(rest));
        assert(level_order(q).to_multiset() =~= forest_files(q).to_multiset());
    } else {
        assert(level_order(q) =~= Seq::<E>::empty());
        assert(forest_files(q) =~= Seq::<E>::empty());
    }
}

/// The two walks hand out the same files, each as often, and differ only in
/// their order: the depth-first walk's files are a permutation of the
/// breadth-first walk's.
pub proof fn law_walks_hand_out_the_same_files<E>(root: Seq<FsEntry<E>>)
    ensures
        dfs_walk(seq![root]).to_multiset() == bfs_walk(seq![root]).to_multiset(),
{
    law_depth_first_walk_is_preorder(root);
    law_breadth_first_walk_is_level_order(root);
    lemma_level_order_multiset(seq![root]);
    let one = seq![root];
    assert(one[0] == root);
    assert(one.drop_first() =~= Seq::<Seq<FsEntry<E>>>::empty());
    assert(forest_files(one.drop_first()) == Seq::<E>::empty());
    assert(forest_files(one) == preorder_files(root) + forest_files(one.drop_first()));
    assert(forest_files(one) =~= preorder_files(root));
}

/// The tree with every entry that the walks pass over taken out, at every
/// depth.
pub open spec fn without_unreadable<E>(d: Seq<FsEntry<E>>) -> Seq<FsEntry<E>>
    decreases d,
{
    if d.len() == 0 {
        Seq::empty()
    } else {
        let rest = without_unreadable(d.drop_first());
        match d[0] {
            FsEntry::File(x) => seq![FsEntry::File(x)] + rest,
            FsEntry::Dir(c) => seq![FsEntry::Dir(without_unreadable(c))] + rest,
            FsEntry::Unreadable => rest,
        }
    }
}

proof fn lemma_strip_preorder<E>(d: Seq<FsEntry<E>>)
    ensures
        preorder_files(without_unreadable(d)) == preorder_files(d),
    decreases d,
{
    if d.len() > 0 {
        let rest = d.drop_first();
        lemma_strip_preorder(rest);
        let sr = without_unreadable(rest);
        match d[0] {
            FsEntry::File(x) => {
                let s = seq![FsEntry::File(x)] + sr;
                assert(without_unreadable(d) == s);
                assert(s[0] == FsEntry::<E>::File(x));
                assert(s.drop_first() =~= sr);
                assert(entry_files(s[0]) == seq![x]);
                assert(entry_files(d[0]) == seq![x]);
                assert(preorder_files(s) == entry_files(s[0]) + preorder_files(s.drop_first()));
            },
            FsEntry::Dir(c) => {
                lemma_strip_preorder(c);
                let s = seq![FsEntry::Dir(without_unreadable(c))] + sr;
                assert(without_unreadable(d) == s);
                assert(s[0] == FsEntry::<E>::Dir(without_unreadable(c)));
                assert(s.drop_first() =~= sr);
                assert(entry_files(s[0]) == preorder_files(without_unreadable(c)));
                assert(entry_files(d[0]) == preorder_files(c));
                assert(preorder_files(s) == entry_files(s[0]) + preorder_files(s.drop_first()));
            },
            FsEntry::Unreadable => {
                assert(without_unreadable(d) == sr);
                assert(entry_files(d[0]) == Seq::<E>::empty());
                assert(preorder_files(d) =~= preorder_files(rest));
            },
        }
    }
}

proof fn lemma_strip_level<E>(d: Seq<FsEntry<E>>)
    ensures
        direct_files(without_unreadable(d)) == direct_files(d),
        subdirs(without_unreadable(d)) == subdirs(d).map_values(|c: Seq<FsEntry<E>>| without_unreadable(c)),
    decreases d.len(),
{
    let f = |c: Seq<FsEntry<E>>| without_unreadable(c);
    if d.len() == 0 {
        assert(subdirs(d).map_values(f) =~= Seq::<Seq<FsEntry<E>>>::empty());
    } else {
        let rest = d.drop_first();
        lemma_strip_level(rest);
        let sr = without_unreadable(rest);
        match d[0] {
            FsEntry::File(x) => {
                let s = seq![FsEntry::File(x)] + sr;
                assert(s[0] == FsEntry::<E>::File(x));
                assert(s.drop_first() =~= sr);
                assert(subdirs(d) =~= subdirs(rest));
                assert(subdirs(s) =~= subdirs(sr));
            },
            FsEntry::Dir(c) => {
                let s = seq![FsEntry::Dir(without_unreadable(c))] + sr;
                assert(s[0] == FsEntry::<E>::Dir(without_unreadable(c)));
                assert(s.drop_first() =~= sr);
                assert(subdirs(d) =~= seq![c] + subdirs(rest));
                assert(subdirs(s) =~= seq![without_unreadable(c)] + subdirs(sr));
                assert(subdirs(d).map_values(f) =~= seq![without_unreadable(c)] + subdirs(rest).map_values(f));
                assert(direct_files(s) =~= direct_files(sr));
                assert(direct_files(d) =~= direct_files(rest));
            },
            FsEntry::Unreadable => {
                assert(subdirs(d) =~= subdirs(rest));
                assert(direct_files(d) =~= direct_files(rest));
            },
        }
    }
}

proof fn lemma_strip_level_order<E>(q: Seq<Seq<FsEntry<E>>>)
    ensures
        level_order(q.map_values(|c: Seq<FsEntry<E>>| without_unreadable(c))) == level_order(q),
    decreases dirs_weight(q),
{
    let f = |c: Seq<FsEntry<E>>| without_unreadable(c);
    let sq = q.map_values(f);
    if q.len() == 0 {
        assert(sq =~= q);
    } else {
        let rest = q.drop_first();
        lemma_level_order_weight(q);
        lemma_strip_level_order(rest + subdirs(q[0]));
        lemma_strip_level(q[0]);
        assert(sq[0] == without_unreadable(q[0]));
        assert(sq.drop_first() + subdirs(sq[0]) =~= (rest + subdirs(q[0])).map_values(f));
        assert(level_order(sq) == direct_files(sq[0]) + level_order(sq.drop_first() + subdirs(sq[0])));
    }
}

/// An entry that cannot be read (its read fails, its metadata cannot be
/// read, or it is a directory that cannot be opened) is passed over by both
/// walks: they hand out exactly the files, in exactly the order, that they
/// would hand out if every such entry, and with it all that lies below it,
/// were absent from the tree.
pub proof fn law_unreadable_entries_are_passed_over<E>(root: Seq<FsEntry<E>>)
    ensures
        dfs_walk(seq![without_unreadable(root)]) == dfs_walk(seq![root]),
        bfs_walk(seq![without_unreadable(root)]) == bfs_walk(seq![root]),
{
    law_depth_first_walk_is_preorder(root);
    law_depth_first_walk_is_preorder(without_unreadable(root));
    lemma_strip_preorder(root);
    law_breadth_first_walk_is_level_order(root);
    law_breadth_first_walk_is_level_order(without_unreadable(root));
    lemma_strip_level_order(seq![root]);
    assert(seq![root].map_values(|c: Seq<FsEntry<E>>| without_unreadable(c)) =~= seq![without_unreadable(root)]);
}

} // verus!

//! What a walk should find: a directory subtree as a mathematical value, the
//! outcome that the recursive definition gives for it, and the proof that the
//! walker arrives at that outcome.

use crate::extension::listed;
use crate::total::{law_sum_files_concat, sum_files, FileTotal, Tally};
use crate::walk::{
    directory_error, Phase, Summary, WalkAnswerModel, WalkMode, WalkerModel,
};
use crate::worker::{contribution, contributions};
use vstd::prelude::*;

verus! {

/// A node of a directory subtree, with all that a walk can learn of it.
pub enum Node {
    /// A file, and what counting it comes to.
    File { path: Seq<char>, counted: Result<FileTotal, Seq<char>> },
    /// A directory, and its entries in the order of its listing, or why it
    /// cannot be listed.
    Directory { path: Seq<char>, listing: Result<Seq<Node>, Seq<char>> },
}

impl Node {
    pub open spec fn path(self) -> Seq<char> {
        match self {
            Node::File { path, .. } => path,
            Node::Directory { path, .. } => path,
        }
    }
}

/// The paths of a list of nodes.
pub open spec fn paths_of(nodes: Seq<Node>) -> Seq<Seq<char>> {
    Seq::new(nodes.len(), |i: int| nodes[i].path())
}

impl Summary {
    /// The summary of a walk that found nothing.
    pub open spec fn nothing() -> Summary {
        Summary { seen: 0, paths: Seq::empty(), total: Tally::zero() }
    }

    /// What two stretches of a walk found together, the second after the
    /// first.
    pub open spec fn followed_by(self, later: Summary) -> Summary {
        Summary {
            seen: self.seen + later.seen,
            paths: self.paths + later.paths,
            total: self.total.plus(later.total),
        }
    }
}

/// Whether a walk in this mode counts the file at `path`.
pub open spec fn counts(mode: WalkMode, exts: Seq<Seq<char>>, path: Seq<char>) -> bool {
    mode == WalkMode::CountRows && listed(path, exts)
}

/// The failure that ends a walk of `node`, if there is one: the first, in
/// depth-first order, among the directories that cannot be listed and, where
/// the walk counts rows, the files that cannot be counted.
pub open spec fn failure(mode: WalkMode, exts: Seq<Seq<char>>, node: Node) -> Option<Seq<char>>
    decreases node,
{
    match node {
        Node::File { path, counted } => match counted {
            Err(message) if counts(mode, exts, path) => Some(message),
            _ => None,
        },
        Node::Directory { path, listing } => match listing {
            Err(why) => Some(directory_error(why)),
            Ok(entries) => first_failure(mode, exts, entries),
        },
    }
}

/// The failure that ends a walk of `nodes` one after the other, if there is
/// one.
pub open spec fn first_failure(mode: WalkMode, exts: Seq<Seq<char>>, nodes: Seq<Node>) -> Option<
    Seq<char>,
>
    decreases nodes,
{
    if nodes.len() == 0 {
        None
    } else {
        match failure(mode, exts, nodes.first()) {
            Some(message) => Some(message),
            None => first_failure(mode, exts, nodes.drop_first()),
        }
    }
}

/// What a walk of `node` finds when nothing fails: each file is seen; the
/// mode `Flatten` lists it; the mode `CountRows` adds its count where the
/// extension filter accepts it.
pub open spec fn found(mode: WalkMode, exts: Seq<Seq<char>>, node: Node) -> Summary
    decreases node,
{
    match node {
        Node::File { path, counted } => Summary {
            seen: 1,
            paths: if mode == WalkMode::Flatten {
                seq![path]
            } else {
                Seq::empty()
            },
            total: match counted {
                Ok(file) if counts(mode, exts, path) => file.tally(),
                _ => Tally::zero(),
            },
        },
        Node::Directory { path, listing } => match listing {
            Err(_) => Summary::nothing(),
            Ok(entries) => found_all(mode, exts, entries),
        },
    }
}

/// What a walk of `nodes` one after the other finds when nothing fails.
pub open spec fn found_all(mode: WalkMode, exts: Seq<Seq<char>>, nodes: Seq<Node>) -> Summary
    decreases nodes,
{
    if nodes.len() == 0 {
        Summary::nothing()
    } else {
        found(mode, exts, nodes.first()).followed_by(found_all(mode, exts, nodes.drop_first()))
    }
}

/// The outcome of a walk of the subtree at `root`: the failure that ends it,
/// or what it finds.
pub open spec fn walk_outcome(mode: WalkMode, exts: Seq<Seq<char>>, root: Node) -> Result<
    Summary,
    Seq<char>,
> {
    match failure(mode, exts, root) {
        Some(message) => Err(message),
        None => Ok(found(mode, exts, root)),
    }
}

/// The answers that a driver gives to a walk of `node`, in order, up to the
/// failure that ends the walk.
pub open spec fn answers(mode: WalkMode, exts: Seq<Seq<char>>, node: Node) -> Seq<WalkAnswerModel>
    decreases node,
{
    match node {
        Node::File { path, counted } => if counts(mode, exts, path) {
            seq![WalkAnswerModel::File, WalkAnswerModel::Counted(counted)]
        } else {
            seq![WalkAnswerModel::File]
        },
        Node::Directory { path, listing } => match listing {
            Err(why) => seq![WalkAnswerModel::Unlistable(why)],
            Ok(entries) => seq![WalkAnswerModel::Directory(paths_of(entries))] + answers_all(
                mode,
                exts,
                entries,
            ),
        },
    }
}

/// The answers that a driver gives to a walk of `nodes` one after the other,
/// up to the failure that ends the walk.
pub open spec fn answers_all(mode: WalkMode, exts: Seq<Seq<char>>, nodes: Seq<Node>) -> Seq<
    WalkAnswerModel,
>
    decreases nodes,
{
    if nodes.len() == 0 {
        Seq::empty()
    } else if failure(mode, exts, nodes.first()) is Some {
        answers(mode, exts, nodes.first())
    } else {
        answers(mode, exts, nodes.first()) + answers_all(mode, exts, nodes.drop_first())
    }
}

/// The state of a walker after a run of steps, one for each answer.
pub open spec fn walk_run(w: WalkerModel, given: Seq<WalkAnswerModel>) -> WalkerModel
    decreases given.len(),
{
    if given.len() == 0 {
        w
    } else {
        walk_run(w.step(given.first()), given.drop_first())
    }
}

/// The phase of a walk that goes on with the entries `pending`.
pub open spec fn phase_over(pending: Seq<Seq<char>>) -> Phase {
    if pending.len() == 0 {
        Phase::Finished
    } else {
        Phase::Visiting
    }
}

/// The state of a walk that, from the state `w`, found `more` without
/// failing and goes on with the entries `pending`.
pub open spec fn gone_on(w: WalkerModel, more: Summary, pending: Seq<Seq<char>>) -> WalkerModel {
    WalkerModel {
        pending,
        phase: phase_over(pending),
        seen: w.seen + more.seen,
        paths: w.paths + more.paths,
        total: w.total.plus(more.total),
        ..w
    }
}

proof fn lemma_run_concat(w: WalkerModel, first: Seq<WalkAnswerModel>, second: Seq<WalkAnswerModel>)
    ensures
        walk_run(w, first + second) == walk_run(walk_run(w, first), second),
    decreases first.len(),
{
    if first.len() == 0 {
        assert(first + second =~= second);
    } else {
        assert((first + second).first() == first.first());
        assert((first + second).drop_first() =~= first.drop_first() + second);
        lemma_run_concat(w.step(first.first()), first.drop_first(), second);
    }
}

proof fn lemma_run_one(w: WalkerModel, answer: WalkAnswerModel)
    ensures
        walk_run(w, seq![answer]) == w.step(answer),
{
    let given = seq![answer];
    assert(given.drop_first().len() == 0);
    assert(walk_run(w.step(given.first()), given.drop_first()) == w.step(given.first()));
}

proof fn lemma_run_two(w: WalkerModel, first: WalkAnswerModel, second: WalkAnswerModel)
    ensures
        walk_run(w, seq![first, second]) == w.step(first).step(second),
{
    assert(seq![first, second] =~= seq![first] + seq![second]);
    lemma_run_concat(w, seq![first], seq![second]);
    lemma_run_one(w, first);
    lemma_run_one(w.step(first), second);
}

proof fn lemma_walk_of_node(
    mode: WalkMode,
    exts: Seq<Seq<char>>,
    node: Node,
    w: WalkerModel,
    below: Seq<Seq<char>>,
)
    requires
        w.mode == mode,
        w.exts == exts,
        w.failed is None,
        w.pending == below.push(node.path()),
        w.phase == Phase::Visiting || (w.phase == Phase::Opening && node is Directory),
    ensures
        ({
            let after = walk_run(w, answers(mode, exts, node));
            match failure(mode, exts, node) {
                Some(message) => after.phase == Phase::Finished && after.failed == Some(message),
                None => after == gone_on(w, found(mode, exts, node), below),
            }
        }),
    decreases node,
{
    assert(w.pending.drop_last() =~= below);
    assert(w.top() == node.path());
    match node {
        Node::File { path, counted } => {
            if counts(mode, exts, path) {
                lemma_run_two(w, WalkAnswerModel::File, WalkAnswerModel::Counted(counted));
                let met = w.step(WalkAnswerModel::File);
                assert(met.pending == w.pending);
                if let Ok(file) = counted {
                    let after = met.step(WalkAnswerModel::Counted(counted));
                    assert(after.paths =~= w.paths + found(mode, exts, node).paths);
                    assert(after == gone_on(w, found(mode, exts, node), below));
                }
            } else {
                lemma_run_one(w, WalkAnswerModel::File);
                let after = w.step(WalkAnswerModel::File);
                assert(after.paths =~= w.paths + found(mode, exts, node).paths);
                assert(after == gone_on(w, found(mode, exts, node), below));
            }
        },
        Node::Directory { path, listing } => {
            match listing {
                Err(why) => {
                    lemma_run_one(w, WalkAnswerModel::Unlistable(why));
                },
                Ok(entries) => {
                    let listed_as = WalkAnswerModel::Directory(paths_of(entries));
                    let inside = w.step(listed_as);
                    lemma_run_concat(w, seq![listed_as], answers_all(mode, exts, entries));
                    lemma_run_one(w, listed_as);
                    assert(inside == gone_on(
                        w,
                        Summary::nothing(),
                        below + paths_of(entries).reverse(),
                    )) by {
                        assert(inside.paths =~= w.paths + Summary::nothing().paths);
                    }
                    lemma_walk_of_nodes(mode, exts, entries, inside, below);
                    if first_failure(mode, exts, entries) is None {
                        let more = found_all(mode, exts, entries);
                        assert(gone_on(inside, more, below).paths =~= gone_on(w, more, below).paths);
                    }
                },
            }
        },
    }
}

proof fn lemma_walk_of_nodes(
    mode: WalkMode,
    exts: Seq<Seq<char>>,
    nodes: Seq<Node>,
    w: WalkerModel,
    below: Seq<Seq<char>>,
)
    requires
        w.mode == mode,
        w.exts == exts,
        w.failed is None,
        w.pending == below + paths_of(nodes).reverse(),
        w.phase == phase_over(w.pending),
    ensures
        ({
            let after = walk_run(w, answers_all(mode, exts, nodes));
            match first_failure(mode, exts, nodes) {
                Some(message) => after.phase == Phase::Finished && after.failed == Some(message),
                None => after == gone_on(w, found_all(mode, exts, nodes), below),
            }
        }),
    decreases nodes,
{
    if nodes.len() == 0 {
        assert(w.pending =~= below);
        assert(w.paths + Summary::nothing().paths =~= w.paths);
    } else {
        let node = nodes.first();
        let rest = nodes.drop_first();
        let beneath = below + paths_of(rest).reverse();
        assert(w.pending =~= beneath.push(node.path()));
        lemma_walk_of_node(mode, exts, node, w, beneath);
        if failure(mode, exts, node) is None {
            let next = gone_on(w, found(mode, exts, node), beneath);
            lemma_run_concat(w, answers(mode, exts, node), answers_all(mode, exts, rest));
            lemma_walk_of_nodes(mode, exts, rest, next, below);
            if first_failure(mode, exts, rest) is None {
                let here = found(mode, exts, node);
                let there = found_all(mode, exts, rest);
                assert(gone_on(next, there, below).paths =~= gone_on(
                    w,
                    here.followed_by(there),
                    below,
                ).paths);
            }
        }
    }
}

/// The walker arrives at what the recursive definition gives. From its
/// start at the root of a subtree, and fed the answers that the subtree
/// dictates, the walk is over after the last of them, and its outcome is the
/// first failure in depth-first order, or else what the files of the subtree
/// come to.
pub proof fn law_walk_follows_tree(mode: WalkMode, exts: Seq<Seq<char>>, root: Node)
    requires
        root is Directory,
    ensures
        walk_run(
            WalkerModel::start(mode, exts, root.path()),
            answers(mode, exts, root),
        ).outcome() == Some(walk_outcome(mode, exts, root)),
{
    let w = WalkerModel::start(mode, exts, root.path());
    let below = Seq::<Seq<char>>::empty();
    assert(w.pending =~= below.push(root.path()));
    lemma_walk_of_node(mode, exts, root, w, below);
    if failure(mode, exts, root) is None {
        let after = gone_on(w, found(mode, exts, root), below);
        assert(after.paths =~= found(mode, exts, root).paths);
    }
}

/// Two walks that are given the same answers end alike: where two subtrees
/// dictate the same answers, a walk of the one has the outcome of a walk of
/// the other.
pub proof fn law_same_answers_same_outcome(
    mode: WalkMode,
    exts: Seq<Seq<char>>,
    first: Node,
    second: Node,
)
    requires
        first is Directory,
        second is Directory,
        first.path() == second.path(),
        answers(mode, exts, first) == answers(mode, exts, second),
    ensures
        walk_outcome(mode, exts, first) == walk_outcome(mode, exts, second),
{
    law_walk_follows_tree(mode, exts, first);
    law_walk_follows_tree(mode, exts, second);
}

/// What each file of the subtree at `node` adds to a count of rows, file by
/// file in the order in which a walk meets them: the count of a file that
/// the extension filter accepts and that can be counted, and nothing for any
/// other file.
pub open spec fn file_results(exts: Seq<Seq<char>>, node: Node) -> Seq<FileTotal>
    decreases node,
{
    match node {
        Node::File { path, counted } => match counted {
            Ok(file) if listed(path, exts) => seq![file],
            _ => seq![FileTotal { rows: 0, ignore: true }],
        },
        Node::Directory { path, listing } => match listing {
            Err(_) => Seq::empty(),
            Ok(entries) => file_results_all(exts, entries),
        },
    }
}

/// What each file of the subtrees at `nodes` adds to a count of rows.
pub open spec fn file_results_all(exts: Seq<Seq<char>>, nodes: Seq<Node>) -> Seq<FileTotal>
    decreases nodes,
{
    if nodes.len() == 0 {
        Seq::empty()
    } else {
        file_results(exts, nodes.first()) + file_results_all(exts, nodes.drop_first())
    }
}

proof fn lemma_modes_agree(exts: Seq<Seq<char>>, node: Node)
    ensures
        failure(WalkMode::CountFiles, exts, node) == failure(WalkMode::Flatten, exts, node),
        found(WalkMode::CountFiles, exts, node).seen == found(WalkMode::Flatten, exts, node).seen,
        found(WalkMode::Flatten, exts, node).paths.len() == found(
            WalkMode::Flatten,
            exts,
            node,
        ).seen,
        file_results(exts, node).len() == found(WalkMode::Flatten, exts, node).seen,
        found(WalkMode::CountRows, exts, node).seen == found(WalkMode::Flatten, exts, node).seen,
        found(WalkMode::CountRows, exts, node).total == sum_files(file_results(exts, node)),
    decreases node,
{
    match node {
        Node::File { path, counted } => {
            let results = file_results(exts, node);
            assert(results.drop_last() =~= Seq::empty());
            assert(sum_files(results) == sum_files(results.drop_last()).plus(
                results.last().tally(),
            ));
        },
        Node::Directory { path, listing } => {
            if let Ok(entries) = listing {
                lemma_modes_agree_all(exts, entries);
            }
        },
    }
}

proof fn lemma_modes_agree_all(exts: Seq<Seq<char>>, nodes: Seq<Node>)
    ensures
        first_failure(WalkMode::CountFiles, exts, nodes) == first_failure(
            WalkMode::Flatten,
            exts,
            nodes,
        ),
        found_all(WalkMode::CountFiles, exts, nodes).seen == found_all(
            WalkMode::Flatten,
            exts,
            nodes,
        ).seen,
        found_all(WalkMode::Flatten, exts, nodes).paths.len() == found_all(
            WalkMode::Flatten,
            exts,
            nodes,
        ).seen,
        file_results_all(exts, nodes).len() == found_all(WalkMode::Flatten, exts, nodes).seen,
        found_all(WalkMode::CountRows, exts, nodes).seen == found_all(
            WalkMode::Flatten,
            exts,
            nodes,
        ).seen,
        found_all(WalkMode::CountRows, exts, nodes).total == sum_files(
            file_results_all(exts, nodes),
        ),
    decreases nodes,
{
    if nodes.len() > 0 {
        lemma_modes_agree(exts, nodes.first());
        lemma_modes_agree_all(exts, nodes.drop_first());
        law_sum_files_concat(
            file_results(exts, nodes.first()),
            file_results_all(exts, nodes.drop_first()),
        );
    }
}

/// The walk that counts the files and the walk that lists them agree: they
/// fail alike, and the count of the one is the length of the list of the
/// other.
pub proof fn law_count_is_length_of_list(exts: Seq<Seq<char>>, root: Node)
    ensures
        failure(WalkMode::CountFiles, exts, root) == failure(WalkMode::Flatten, exts, root),
        found(WalkMode::CountFiles, exts, root).seen == found(
            WalkMode::Flatten,
            exts,
            root,
        ).paths.len(),
{
    lemma_modes_agree(exts, root);
}

/// The walk that counts rows finds the sum of what the files add, one result
/// for each file that the listing walk lists.
pub proof fn law_rows_are_sum_of_files(exts: Seq<Seq<char>>, root: Node)
    ensures
        found(WalkMode::CountRows, exts, root).total == sum_files(file_results(exts, root)),
        file_results(exts, root).len() == found(WalkMode::Flatten, exts, root).paths.len(),
{
    lemma_modes_agree(exts, root);
}

/// What counting each file of the subtree at `node` comes to, file by file in
/// the order in which a walk meets them.
pub open spec fn file_outcomes(node: Node) -> Seq<Result<FileTotal, Seq<char>>>
    decreases node,
{
    match node {
        Node::File { path, counted } => seq![counted],
        Node::Directory { path, listing } => match listing {
            Err(_) => Seq::empty(),
            Ok(entries) => file_outcomes_all(entries),
        },
    }
}

/// What counting each file of the subtrees at `nodes` comes to.
pub open spec fn file_outcomes_all(nodes: Seq<Node>) -> Seq<Result<FileTotal, Seq<char>>>
    decreases nodes,
{
    if nodes.len() == 0 {
        Seq::empty()
    } else {
        file_outcomes(nodes.first()) + file_outcomes_all(nodes.drop_first())
    }
}

proof fn lemma_results_are_contributions(exts: Seq<Seq<char>>, node: Node)
    ensures
        ({
            let paths = found(WalkMode::Flatten, exts, node).paths;
            let outcomes = file_outcomes(node);
            &&& outcomes.len() == paths.len()
            &&& file_results(exts, node) == contributions(
                paths,
                exts,
                outcomes,
                0,
                paths.len(),
            )
        }),
    decreases node,
{
    let paths = found(WalkMode::Flatten, exts, node).paths;
    let outcomes = file_outcomes(node);
    match node {
        Node::File { path, counted } => {
            assert(file_results(exts, node) =~= contributions(
                paths,
                exts,
                outcomes,
                0,
                paths.len(),
            ));
        },
        Node::Directory { path, listing } => {
            match listing {
                Ok(entries) => {
                    lemma_results_are_contributions_all(exts, entries);
                },
                Err(_) => {
                    assert(file_results(exts, node) =~= contributions(
                        paths,
                        exts,
                        outcomes,
                        0,
                        paths.len(),
                    ));
                },
            }
        },
    }
}

proof fn lemma_results_are_contributions_all(exts: Seq<Seq<char>>, nodes: Seq<Node>)
    ensures
        ({
            let paths = found_all(WalkMode::Flatten, exts, nodes).paths;
            let outcomes = file_outcomes_all(nodes);
            &&& outcomes.len() == paths.len()
            &&& file_results_all(exts, nodes) == contributions(
                paths,
                exts,
                outcomes,
                0,
                paths.len(),
            )
        }),
    decreases nodes,
{
    let paths = found_all(WalkMode::Flatten, exts, nodes).paths;
    let outcomes = file_outcomes_all(nodes);
    if nodes.len() == 0 {
        assert(file_results_all(exts, nodes) =~= contributions(
            paths,
            exts,
            outcomes,
            0,
            paths.len(),
        ));
    } else {
        lemma_results_are_contributions(exts, nodes.first());
        lemma_results_are_contributions_all(exts, nodes.drop_first());
        let here = found(WalkMode::Flatten, exts, nodes.first()).paths;
        let there = found_all(WalkMode::Flatten, exts, nodes.drop_first()).paths;
        let first = file_outcomes(nodes.first());
        let rest = file_outcomes_all(nodes.drop_first());
        assert(paths == here + there);
        assert(outcomes == first + rest);
        let all = contributions(paths, exts, outcomes, 0, paths.len());
        assert forall|i: int| 0 <= i < all.len() implies all[i] == file_results_all(exts, nodes)[i] by {
            if i < here.len() {
                assert(paths[i] == here[i]);
                assert(outcomes[i] == first[i]);
                assert(contributions(here, exts, first, 0, here.len())[i] == contribution(
                    here,
                    exts,
                    first,
                    i,
                ));
            } else {
                let k = i - here.len();
                assert(paths[i] == there[k]);
                assert(outcomes[i] == rest[k]);
                assert(contributions(there, exts, rest, 0, there.len())[k] == contribution(
                    there,
                    exts,
                    rest,
                    k,
                ));
            }
        }
        assert(file_results_all(exts, nodes) =~= all);
    }
}

/// What each file of a subtree adds is what the file at its place in the
/// list of the listing walk adds: the list and the outcomes of counting its
/// files, place by place, give the same results as the subtree.
pub proof fn law_results_are_contributions(exts: Seq<Seq<char>>, root: Node)
    ensures
        file_outcomes(root).len() == found(WalkMode::Flatten, exts, root).paths.len(),
        file_results(exts, root) == contributions(
            found(WalkMode::Flatten, exts, root).paths,
            exts,
            file_outcomes(root),
            0,
            found(WalkMode::Flatten, exts, root).paths.len(),
        ),
{
    lemma_results_are_contributions(exts, root);
}

} // verus!

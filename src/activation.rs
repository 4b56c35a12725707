//! The filesystem side of enabling and disabling: which operations each
//! declared link calls for, and a model of what they do to the files.

use vstd::prelude::*;
use crate::paths::{backup_of, backup_path};

verus! {

/// One filesystem operation on a link target.
#[derive(Clone, Debug, PartialEq, Eq)]
pub enum LinkOp {
    /// Move the file at `from` to `to`, replacing what is there.
    Rename { from: String, to: String },
    /// Create at `link` a symbolic link that points to `target`.
    Symlink { target: String, link: String },
    /// Remove the file or link at `path`.
    Remove { path: String },
}

/// A filesystem operation over paths as character sequences.
pub enum FsOp {
    Rename(Seq<char>, Seq<char>),
    Symlink(Seq<char>, Seq<char>),
    Remove(Seq<char>),
}

impl View for LinkOp {
    type V = FsOp;

    open spec fn view(&self) -> FsOp {
        match self {
            LinkOp::Rename { from, to } => FsOp::Rename(from@, to@),
            LinkOp::Symlink { target, link } => FsOp::Symlink(target@, link@),
            LinkOp::Remove { path } => FsOp::Remove(path@),
        }
    }
}

/// What stands at a path: a file with its content, or a link to a target.
pub enum Node {
    File(Seq<u8>),
    Link(Seq<char>),
}

/// A filesystem, as what stands at each path.
pub type Files = Map<Seq<char>, Node>;

/// The effect of one operation. A rename of a missing file and a link over
/// an existing path fail and change nothing; a rename replaces its target.
pub open spec fn step(fs: Files, op: FsOp) -> Files {
    match op {
        FsOp::Rename(from, to) => if fs.contains_key(from) {
            fs.remove(from).insert(to, fs[from])
        } else {
            fs
        },
        FsOp::Symlink(target, link) => if fs.contains_key(link) {
            fs
        } else {
            fs.insert(link, Node::Link(target))
        },
        FsOp::Remove(path) => fs.remove(path),
    }
}

/// The effect of operations carried out in order.
pub open spec fn run(fs: Files, ops: Seq<FsOp>) -> Files
    decreases ops.len(),
{
    if ops.len() == 0 {
        fs
    } else {
        run(step(fs, ops[0]), ops.drop_first())
    }
}

/// The views of a list of operations.
pub open spec fn ops_view(ops: Seq<LinkOp>) -> Seq<FsOp> {
    ops.map_values(|o: LinkOp| o@)
}

/// Enabling a link: a file already at `to` is moved to its backup, then the
/// link is created.
pub open spec fn enable_ops(from: Seq<char>, to: Seq<char>, to_exists: bool) -> Seq<FsOp> {
    if to_exists {
        seq![FsOp::Rename(to, backup_of(to)), FsOp::Symlink(from, to)]
    } else {
        seq![FsOp::Symlink(from, to)]
    }
}

/// Disabling a link: the link is removed, then a backup, if there is one,
/// is moved back.
pub open spec fn disable_ops(to: Seq<char>, backup_exists: bool) -> Seq<FsOp> {
    if backup_exists {
        seq![FsOp::Remove(to), FsOp::Rename(backup_of(to), to)]
    } else {
        seq![FsOp::Remove(to)]
    }
}

/// The operations that enable the link `to` -> `from`, given whether
/// something stands at `to` now.
pub fn enable_link_ops(from: &str, to: &str, to_exists: bool) -> (r: Vec<LinkOp>)
    ensures
        ops_view(r@) == enable_ops(from@, to@, to_exists),
{
    let mut r: Vec<LinkOp> = Vec::new();
    if to_exists {
        r.push(LinkOp::Rename { from: String::from_str(to), to: backup_path(to) });
    }
    r.push(LinkOp::Symlink { target: String::from_str(from), link: String::from_str(to) });
    assert(ops_view(r@) =~= enable_ops(from@, to@, to_exists));
    r
}

/// What disabling one link calls for.
pub struct DisableStep {
    pub ops: Vec<LinkOp>,
    /// No backup was found, so nothing will stand at the target.
    pub missing_backup: bool,
}

/// The operations that disable the link at `to`, given whether its backup
/// exists now.
pub fn disable_link_ops(to: &str, backup_exists: bool) -> (r: DisableStep)
    ensures
        ops_view(r.ops@) == disable_ops(to@, backup_exists),
        r.missing_backup == !backup_exists,
{
    let mut ops: Vec<LinkOp> = Vec::new();
    ops.push(LinkOp::Remove { path: String::from_str(to) });
    if backup_exists {
        ops.push(LinkOp::Rename { from: backup_path(to), to: String::from_str(to) });
    }
    assert(ops_view(ops@) =~= disable_ops(to@, backup_exists));
    DisableStep { ops, missing_backup: !backup_exists }
}

proof fn lemma_backup_differs(p: Seq<char>)
    ensures
        backup_of(p) != p,
{
    assert(backup_of(p).len() > p.len());
}

/// Enabling a link moves what stood at the target to its backup and puts
/// the link there; disabling it afterwards, deciding on the filesystem as
/// enabling left it, gives back exactly the filesystem from before. When
/// nothing stood at the target, no backup is made and disabling reports
/// the missing backup.
pub proof fn lemma_disable_restores(fs: Files, from: Seq<char>, to: Seq<char>)
    requires
        !fs.contains_key(backup_of(to)),
    ensures
        ({
            let fs1 = run(fs, enable_ops(from, to, fs.contains_key(to)));
            let fs2 = run(fs1, disable_ops(to, fs1.contains_key(backup_of(to))));
            &&& fs1.contains_key(to) && fs1[to] == Node::Link(from)
            &&& fs1.contains_key(backup_of(to)) == fs.contains_key(to)
            &&& fs.contains_key(to) ==> fs1[backup_of(to)] == fs[to]
            &&& fs2 == fs
        }),
{
    let b = backup_of(to);
    lemma_backup_differs(to);
    let ops1 = enable_ops(from, to, fs.contains_key(to));
    let fs1 = run(fs, ops1);
    if fs.contains_key(to) {
        let a = step(fs, FsOp::Rename(to, b));
        assert(a == fs.remove(to).insert(b, fs[to]));
        let c = step(a, FsOp::Symlink(from, to));
        assert(c == a.insert(to, Node::Link(from)));
        assert(ops1.drop_first().drop_first() =~= Seq::<FsOp>::empty());
        assert(run(c, Seq::<FsOp>::empty()) == c);
        assert(ops1.drop_first() =~= seq![FsOp::Symlink(from, to)]);
        assert(run(a, ops1.drop_first()) == c);
        assert(fs1 == c);
        let ops2 = disable_ops(to, true);
        let d = step(c, FsOp::Remove(to));
        let e = step(d, FsOp::Rename(b, to));
        assert(ops2.drop_first().drop_first() =~= Seq::<FsOp>::empty());
        assert(ops2.drop_first() =~= seq![FsOp::Rename(b, to)]);
        assert(run(e, Seq::<FsOp>::empty()) == e);
        assert(run(d, ops2.drop_first()) == e);
        assert(e =~= fs);
    } else {
        let c = step(fs, FsOp::Symlink(from, to));
        assert(c == fs.insert(to, Node::Link(from)));
        assert(ops1.drop_first() =~= Seq::<FsOp>::empty());
        assert(run(c, Seq::<FsOp>::empty()) == c);
        assert(fs1 == c);
        let ops2 = disable_ops(to, false);
        let d = step(c, FsOp::Remove(to));
        assert(ops2.drop_first() =~= Seq::<FsOp>::empty());
        assert(run(d, Seq::<FsOp>::empty()) == d);
        assert(d =~= fs);
    }
}

/// The links `(from, to)` enabled one after another, each deciding on the
/// filesystem as the previous ones left it.
pub open spec fn enable_all(fs: Files, links: Seq<(Seq<char>, Seq<char>)>) -> Files
    decreases links.len(),
{
    if links.len() == 0 {
        fs
    } else {
        let to = links[0].1;
        enable_all(run(fs, enable_ops(links[0].0, to, fs.contains_key(to))), links.drop_first())
    }
}

/// The links disabled one after another, each deciding on the filesystem as
/// the previous ones left it.
pub open spec fn disable_all(fs: Files, links: Seq<(Seq<char>, Seq<char>)>) -> Files
    decreases links.len(),
{
    if links.len() == 0 {
        fs
    } else {
        let to = links[0].1;
        disable_all(run(fs, disable_ops(to, fs.contains_key(backup_of(to)))), links.drop_first())
    }
}

/// The paths a link touches: its target and the target's backup.
pub open spec fn touches(link: (Seq<char>, Seq<char>), p: Seq<char>) -> bool {
    p == link.1 || p == backup_of(link.1)
}

/// No two links touch the same path.
pub open spec fn disjoint_links(links: Seq<(Seq<char>, Seq<char>)>) -> bool {
    forall|i: int, j: int, p: Seq<char>|
        0 <= i < links.len() && 0 <= j < links.len() && i != j && #[trigger] touches(links[i], p) ==> !#[trigger] touches(
            links[j],
            p,
        )
}

spec fn enable_one(fs: Files, link: (Seq<char>, Seq<char>)) -> Files {
    run(fs, enable_ops(link.0, link.1, fs.contains_key(link.1)))
}

spec fn disable_one(fs: Files, link: (Seq<char>, Seq<char>)) -> Files {
    run(fs, disable_ops(link.1, fs.contains_key(backup_of(link.1))))
}

proof fn lemma_enable_one(fs: Files, link: (Seq<char>, Seq<char>))
    ensures
        enable_one(fs, link) == (if fs.contains_key(link.1) {
            fs.remove(link.1).insert(backup_of(link.1), fs[link.1]).insert(link.1, Node::Link(link.0))
        } else {
            fs.insert(link.1, Node::Link(link.0))
        }),
{
    let (from, to) = link;
    let b = backup_of(to);
    lemma_backup_differs(to);
    let ops = enable_ops(from, to, fs.contains_key(to));
    if fs.contains_key(to) {
        let a = step(fs, FsOp::Rename(to, b));
        let c = step(a, FsOp::Symlink(from, to));
        assert(ops.drop_first().drop_first() =~= Seq::<FsOp>::empty());
        assert(run(c, Seq::<FsOp>::empty()) == c);
        assert(ops.drop_first() =~= seq![FsOp::Symlink(from, to)]);
        assert(run(a, ops.drop_first()) == c);
    } else {
        let c = step(fs, FsOp::Symlink(from, to));
        assert(ops.drop_first() =~= Seq::<FsOp>::empty());
        assert(run(c, Seq::<FsOp>::empty()) == c);
    }
}

proof fn lemma_disable_one(fs: Files, link: (Seq<char>, Seq<char>))
    ensures
        disable_one(fs, link) == (if fs.contains_key(backup_of(link.1)) {
            fs.remove(link.1).remove(backup_of(link.1)).insert(link.1, fs[backup_of(link.1)])
        } else {
            fs.remove(link.1)
        }),
{
    let to = link.1;
    let b = backup_of(to);
    lemma_backup_differs(to);
    let ops = disable_ops(to, fs.contains_key(b));
    let d = step(fs, FsOp::Remove(to));
    if fs.contains_key(b) {
        let e = step(d, FsOp::Rename(b, to));
        assert(ops.drop_first().drop_first() =~= Seq::<FsOp>::empty());
        assert(run(e, Seq::<FsOp>::empty()) == e);
        assert(ops.drop_first() =~= seq![FsOp::Rename(b, to)]);
        assert(run(d, ops.drop_first()) == e);
        assert(d.remove(b).insert(to, d[b]) =~= fs.remove(to).remove(b).insert(to, fs[b]));
    } else {
        assert(ops.drop_first() =~= Seq::<FsOp>::empty());
        assert(run(d, Seq::<FsOp>::empty()) == d);
    }
}

proof fn lemma_steps_commute(fs: Files, l0: (Seq<char>, Seq<char>), l1: (Seq<char>, Seq<char>))
    requires
        forall|p: Seq<char>| touches(l0, p) ==> !touches(l1, p),
    ensures
        disable_one(enable_one(fs, l1), l0) == enable_one(disable_one(fs, l0), l1),
{
    assert(touches(l0, l0.1));
    assert(touches(l0, backup_of(l0.1)));
    lemma_backup_differs(l0.1);
    lemma_backup_differs(l1.1);
    let e = enable_one(fs, l1);
    let d = disable_one(fs, l0);
    lemma_enable_one(fs, l1);
    lemma_disable_one(e, l0);
    lemma_disable_one(fs, l0);
    lemma_enable_one(d, l1);
    assert(disable_one(e, l0) =~= enable_one(d, l1));
}

proof fn lemma_disable_passes_enable_all(fs: Files, l0: (Seq<char>, Seq<char>), links: Seq<(Seq<char>, Seq<char>)>)
    requires
        forall|j: int, p: Seq<char>| 0 <= j < links.len() && touches(l0, p) ==> !#[trigger] touches(links[j], p),
    ensures
        disable_one(enable_all(fs, links), l0) == enable_all(disable_one(fs, l0), links),
    decreases links.len(),
{
    if links.len() > 0 {
        let l1 = links[0];
        assert(forall|p: Seq<char>| touches(l0, p) ==> !touches(l1, p));
        lemma_steps_commute(fs, l0, l1);
        let rest = links.drop_first();
        assert forall|j: int, p: Seq<char>| 0 <= j < rest.len() && touches(l0, p) implies !#[trigger] touches(rest[j], p) by {
            assert(rest[j] == links[j + 1]);
        }
        lemma_disable_passes_enable_all(enable_one(fs, l1), l0, rest);
    }
}

/// Enabling a list of links and then disabling the same list, each step
/// deciding on the filesystem as it stands, gives back exactly the
/// filesystem from before, provided no two links touch the same target or
/// backup and no backup exists beforehand.
pub proof fn lemma_disable_all_restores(fs: Files, links: Seq<(Seq<char>, Seq<char>)>)
    requires
        disjoint_links(links),
        forall|i: int| 0 <= i < links.len() ==> !fs.contains_key(backup_of(#[trigger] links[i].1)),
    ensures
        disable_all(enable_all(fs, links), links) == fs,
    decreases links.len(),
{
    if links.len() > 0 {
        let l0 = links[0];
        let rest = links.drop_first();
        let fs0 = enable_one(fs, l0);
        assert forall|j: int, p: Seq<char>| 0 <= j < rest.len() && touches(l0, p) implies !#[trigger] touches(rest[j], p) by {
            assert(rest[j] == links[j + 1]);
            assert(touches(links[0], p));
        }
        lemma_disable_passes_enable_all(fs0, l0, rest);
        lemma_disable_restores(fs, l0.0, l0.1);
        assert(disable_one(fs0, l0) == fs);
        assert forall|i: int, j: int, p: Seq<char>|
            0 <= i < rest.len() && 0 <= j < rest.len() && i != j && #[trigger] touches(rest[i], p) implies !#[trigger] touches(
                rest[j],
                p,
            ) by {
            assert(rest[i] == links[i + 1]);
            assert(rest[j] == links[j + 1]);
        }
        assert forall|i: int| 0 <= i < rest.len() implies !fs.contains_key(backup_of(#[trigger] rest[i].1)) by {
            assert(rest[i] == links[i + 1]);
        }
        lemma_disable_all_restores(fs, rest);
    }
}

} // verus!

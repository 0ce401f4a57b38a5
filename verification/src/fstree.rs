use crate::entry::{ActionData, EntryKind};
use vstd::prelude::*;

verus! {

/// What stands at one path of the output tree after extraction: a file
/// with its bytes, a directory, or a symbolic link with its target.
pub enum Node {
    File(Seq<u8>),
    Dir,
    Link(Seq<u8>),
}

// The output directory is modelled as a map from relative paths
// (component sequences) to the nodes written there.

/// The node one action writes.  Plans never carry `Other` entries; the
/// value chosen for that kind is immaterial.
pub open spec fn node_of(a: ActionData) -> Node {
    match a.kind {
        EntryKind::File => Node::File(a.data),
        EntryKind::Directory => Node::Dir,
        EntryKind::Symlink => Node::Link(
            match a.link {
                Some(t) => t,
                None => Seq::empty(),
            },
        ),
        EntryKind::Other => Node::Dir,
    }
}

/// One action applied to a tree: the node at the action's path is created
/// or overwritten; nothing else changes.
pub open spec fn apply_action(t: Map<Seq<Seq<u8>>, Node>, a: ActionData) -> Map<
    Seq<Seq<u8>>,
    Node,
> {
    t.insert(a.path, node_of(a))
}

/// A whole plan applied in order.
pub open spec fn apply_plan(t: Map<Seq<Seq<u8>>, Node>, p: Seq<ActionData>) -> Map<
    Seq<Seq<u8>>,
    Node,
>
    decreases p.len(),
{
    if p.len() == 0 {
        t
    } else {
        apply_plan(apply_action(t, p[0]), p.skip(1))
    }
}

/// The writes of a plan on their own, independent of any starting tree.
pub open spec fn writes_of(p: Seq<ActionData>) -> Map<Seq<Seq<u8>>, Node> {
    apply_plan(Map::empty(), p)
}

/// Applying a plan lays its writes over the starting tree: whatever stood
/// at a written path is overwritten, everything else is untouched.
pub proof fn lemma_apply_plan_as_union(t: Map<Seq<Seq<u8>>, Node>, p: Seq<ActionData>)
    ensures
        apply_plan(t, p) == t.union_prefer_right(writes_of(p)),
    decreases p.len(),
{
    if p.len() == 0 {
        assert(t.union_prefer_right(writes_of(p)) =~= t);
    } else {
        let t1 = apply_action(t, p[0]);
        let e1 = apply_action(Map::empty(), p[0]);
        let w_rest = writes_of(p.skip(1));
        lemma_apply_plan_as_union(t1, p.skip(1));
        lemma_apply_plan_as_union(e1, p.skip(1));
        assert(t1.union_prefer_right(w_rest) =~= t.union_prefer_right(
            e1.union_prefer_right(w_rest),
        ));
    }
}

/// Idempotent overwrite: extracting the same plan a second time over the
/// tree the first run produced leaves that tree exactly as it was, for
/// any starting tree.
pub proof fn lemma_extract_idempotent(t: Map<Seq<Seq<u8>>, Node>, p: Seq<ActionData>)
    ensures
        apply_plan(apply_plan(t, p), p) == apply_plan(t, p),
{
    lemma_apply_plan_as_union(t, p);
    lemma_apply_plan_as_union(apply_plan(t, p), p);
    assert(apply_plan(t, p).union_prefer_right(writes_of(p)) =~= t.union_prefer_right(
        writes_of(p),
    ));
}

/// The output tree after extracting the decoded entries `es` with
/// configuration `cfg` over a starting tree `t`.
pub open spec fn extracted_tree(
    t: Map<Seq<Seq<u8>>, Node>,
    es: Seq<crate::entry::EntryData>,
    cfg: crate::transform::ConfigData,
) -> Map<Seq<Seq<u8>>, Node> {
    apply_plan(t, crate::plan::plan_spec(es, cfg))
}

/// Idempotent overwrite for a whole archive: extracting the same decoded
/// entries a second time, with the same configuration, into the tree the
/// first run produced leaves that tree exactly as it was.
pub proof fn lemma_extract_twice(
    t: Map<Seq<Seq<u8>>, Node>,
    es: Seq<crate::entry::EntryData>,
    cfg: crate::transform::ConfigData,
)
    ensures
        extracted_tree(extracted_tree(t, es, cfg), es, cfg) == extracted_tree(t, es, cfg),
{
    lemma_extract_idempotent(t, crate::plan::plan_spec(es, cfg));
}

} // verus!

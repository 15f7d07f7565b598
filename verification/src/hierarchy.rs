//! Walking an entity hierarchy: every descendant of an entity in depth-first
//! pre-order, as the tinting of a loaded model's materials needs it.

use vstd::prelude::*;

verus! {

/// A hierarchy of entities numbered `0..children.len()`, each with its list
/// of children in order. Entities are numbered so that every child has a
/// larger number than its parent, which any hierarchy allows (number them
/// in breadth-first order) and which rules out cycles.
pub struct EntityTree {
    pub children: Vec<Vec<usize>>,
}

/// Whether every child is a known entity numbered after its parent.
pub open spec fn tree_well_formed(children: Seq<Seq<usize>>) -> bool {
    forall|e: int, k: int|
        0 <= e < children.len() && 0 <= k < children[e].len() ==> e < #[trigger] children[e][k]
            < children.len()
}

/// The descendants of `entity` reached through its first `k` children, in
/// depth-first pre-order: each child, then that child's descendants.
pub open spec fn descendants_through(children: Seq<Seq<usize>>, entity: int, k: int) -> Seq<usize>
    decreases children.len() - entity, k,
{
    if k <= 0 || entity < 0 || entity >= children.len() || k > children[entity].len() {
        Seq::empty()
    } else {
        let child = children[entity][k - 1] as int;
        let before = descendants_through(children, entity, k - 1);
        if entity < child < children.len() {
            before + seq![child as usize] + descendants_through(
                children,
                child,
                children[child].len() as int,
            )
        } else {
            before
        }
    }
}

/// All descendants of `entity`, in depth-first pre-order.
pub open spec fn descendants(children: Seq<Seq<usize>>, entity: int) -> Seq<usize> {
    if 0 <= entity < children.len() {
        descendants_through(children, entity, children[entity].len() as int)
    } else {
        Seq::empty()
    }
}

impl EntityTree {
    /// A tree of the given children lists, or `None` when some child is not
    /// a known entity numbered after its parent.
    pub fn from_children(children: Vec<Vec<usize>>) -> (tree: Option<EntityTree>)
        ensures
            match tree {
                Some(t) => t.children@ == children@ && t.well_formed(),
                None => !tree_well_formed(Seq::new(children@.len(), |e: int| children@[e]@)),
            },
    {
        let ghost view = Seq::new(children@.len(), |e: int| children@[e]@);
        let count = children.len();
        let mut e: usize = 0;
        while e < count
            invariant
                count == children@.len(),
                e <= count,
                view == Seq::new(children@.len(), |e: int| children@[e]@),
                forall|p: int, k: int|
                    0 <= p < e && 0 <= k < view[p].len() ==> p < #[trigger] view[p][k] < count,
            decreases count - e,
        {
            let list = &children[e];
            let mut k: usize = 0;
            while k < list.len()
                invariant
                    count == children@.len(),
                    e < count,
                    list@ == view[e as int],
                    k <= list@.len(),
                    view == Seq::new(children@.len(), |e: int| children@[e]@),
                    forall|j: int| 0 <= j < k ==> e < #[trigger] list@[j] < count,
                decreases list@.len() - k,
            {
                let child = list[k];
                if !(e < child && child < count) {
                    assert(!(e < view[e as int][k as int] < count));
                    return None;
                }
                k = k + 1;
            }
            e = e + 1;
        }
        Some(EntityTree { children })
    }

    /// The children lists, one per entity.
    pub open spec fn view_children(&self) -> Seq<Seq<usize>> {
        Seq::new(self.children@.len(), |e: int| self.children@[e]@)
    }

    /// Whether the numbering keeps every child after its parent.
    pub open spec fn well_formed(&self) -> bool {
        tree_well_formed(self.view_children())
    }
}

/// Appends every descendant of `entity` to `found`, in depth-first
/// pre-order. An entity without children, or unknown to the tree, adds
/// nothing.
pub fn collect_descendants(tree: &EntityTree, entity: usize, found: &mut Vec<usize>)
    requires
        tree.well_formed(),
    ensures
        final(found)@ == old(found)@ + descendants(tree.view_children(), entity as int),
    decreases tree.children@.len() - entity,
{
    let ghost children = tree.view_children();
    let ghost start = found@;
    if entity >= tree.children.len() {
        assert(found@ =~= start + Seq::<usize>::empty());
        return;
    }
    let list = &tree.children[entity];
    assert(list@ == children[entity as int]);
    let mut k: usize = 0;
    assert(found@ =~= start + descendants_through(children, entity as int, 0));
    while k < list.len()
        invariant
            tree.well_formed(),
            children == tree.view_children(),
            entity < children.len(),
            list@ == children[entity as int],
            k <= list@.len(),
            found@ == start + descendants_through(children, entity as int, k as int),
        decreases list@.len() - k,
    {
        let child = list[k];
        assert(entity < child < children.len());
        let ghost before = found@;
        found.push(child);
        collect_descendants(tree, child, found);
        assert(found@ =~= start + descendants_through(children, entity as int, k + 1));
        k = k + 1;
    }
}

/// An entity followed by all its descendants, in depth-first pre-order.
pub fn entity_and_descendants(tree: &EntityTree, entity: usize) -> (entities: Vec<usize>)
    requires
        tree.well_formed(),
    ensures
        entities@ == seq![entity] + descendants(tree.view_children(), entity as int),
{
    let mut entities: Vec<usize> = Vec::new();
    entities.push(entity);
    collect_descendants(tree, entity, &mut entities);
    entities
}

/// Every descendant comes after its ancestor in the numbering and is a
/// known entity.
pub proof fn lemma_descendants_follow_ancestor(children: Seq<Seq<usize>>, entity: int, k: int)
    requires
        tree_well_formed(children),
    ensures
        forall|i: int|
            0 <= i < descendants_through(children, entity, k).len() ==> entity < #[trigger] descendants_through(
                children,
                entity,
                k,
            )[i] < children.len(),
    decreases children.len() - entity, k,
{
    if !(k <= 0 || entity < 0 || entity >= children.len() || k > children[entity].len()) {
        let child = children[entity][k - 1] as int;
        lemma_descendants_follow_ancestor(children, entity, k - 1);
        if entity < child < children.len() {
            lemma_descendants_follow_ancestor(children, child, children[child].len() as int);
            let before = descendants_through(children, entity, k - 1);
            let below = descendants_through(children, child, children[child].len() as int);
            let all = descendants_through(children, entity, k);
            assert forall|i: int| 0 <= i < all.len() implies entity < #[trigger] all[i] < children.len() by {
                if i < before.len() {
                    assert(all[i] == before[i]);
                } else if i == before.len() {
                    assert(all[i] == child);
                } else {
                    assert(all[i] == below[i - before.len() - 1]);
                }
            }
        }
    }
}

} // verus!

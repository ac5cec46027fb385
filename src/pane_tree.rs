use vstd::prelude::*;
use crate::pane::{Pane, PaneId, PaneView};

verus! {

broadcast use vstd::std_specs::vec::group_vec_axioms, vstd::seq::group_seq_axioms;

pub enum SplitOrientation {
    Horizontal,
    Vertical,
}

/// A layout of panes: a single pane, or a split whose children are trees.
pub enum PaneTree {
    Split { orientation: SplitOrientation, children: Vec<PaneTree> },
    Pane(Pane),
}

/// The panes of a list of trees, left to right.
pub open spec fn panes_of(s: Seq<PaneTree>) -> Seq<PaneView>
    decreases s,
{
    if s.len() == 0 {
        Seq::empty()
    } else {
        panes_of(s.drop_last()) + s.last().panes()
    }
}

/// The first index at or after `i` of a pane with id `id`, or -1.
pub open spec fn index_of_from(s: Seq<PaneView>, id: PaneId, i: int) -> int
    decreases s.len() - i,
{
    if i < 0 || i >= s.len() {
        -1
    } else if s[i].id == id {
        i
    } else {
        index_of_from(s, id, i + 1)
    }
}

/// No id is shared by two panes.
pub open spec fn ids_unique(s: Seq<PaneView>) -> bool {
    forall|a: int, b: int| 0 <= a < b < s.len() ==> #[trigger] s[a].id != #[trigger] s[b].id
}

pub open spec fn seq_has_id(s: Seq<PaneView>, id: PaneId) -> bool {
    exists|k: int| 0 <= k < s.len() && #[trigger] s[k].id == id
}

impl PaneTree {
    /// The panes of the tree, depth first, left to right.
    pub open spec fn panes(self) -> Seq<PaneView>
        decreases self,
    {
        match self {
            PaneTree::Split { children, .. } => panes_of(children@),
            PaneTree::Pane(p) => seq![p@],
        }
    }

    /// Both trees have the same splits, with the same orientations and
    /// numbers of children, and leaves in the same places.
    pub open spec fn same_shape(self, other: PaneTree) -> bool
        decreases self,
    {
        match (self, other) {
            (PaneTree::Split { orientation: o1, children: c1 }, PaneTree::Split { orientation: o2, children: c2 }) => {
                &&& o1 == o2
                &&& c1@.len() == c2@.len()
                &&& forall|i: int| 0 <= i < c1@.len() ==> (#[trigger] c1@[i]).same_shape(c2@[i])
            },
            (PaneTree::Pane(_), PaneTree::Pane(_)) => true,
            _ => false,
        }
    }

    pub open spec fn has_pane(self, id: PaneId) -> bool {
        seq_has_id(self.panes(), id)
    }

    /// Where the pane with id `id` stands in `panes()`, or -1.
    pub open spec fn index_of(self, id: PaneId) -> int {
        index_of_from(self.panes(), id, 0)
    }

    /// A tree of one empty pane with id 0.
    pub fn new() -> (r: PaneTree)
        ensures
            r is Pane,
            r->Pane_0@ == (PaneView { id: 0, items: Seq::empty(), active_item_index: 0 }),
            r.panes() == seq![PaneView { id: 0, items: Seq::empty(), active_item_index: 0 }],
    {
        PaneTree::Pane(Pane::new(0))
    }

    /// Whether a pane with id `id` stands anywhere in the tree.
    pub fn contains_pane(&self, pane_id: PaneId) -> (r: bool)
        ensures
            r == self.has_pane(pane_id),
        decreases self,
    {
        match self {
            PaneTree::Split { children, .. } => {
                let i = first_child_with(children, pane_id);
                proof {
                    lemma_panes_of_has(children@, pane_id);
                    assert(self.panes() == panes_of(children@));
                    if i < children.len() {
                        assert(children@[i as int].has_pane(pane_id));
                    }
                }
                i < children.len()
            },
            PaneTree::Pane(p) => {
                proof {
                    assert(self.panes()[0] == p@);
                }
                p.id() == pane_id
            },
        }
    }

    /// The pane with id `pane_id`, to change in place. Only that pane
    /// changes: the tree's other panes and their order stay as they are.
    pub fn pane_mut(&mut self, pane_id: PaneId) -> (r: Option<&mut Pane>)
        ensures
            !old(self).has_pane(pane_id) ==> r is None && *final(self) == *old(self),
            old(self).has_pane(pane_id) ==> {
                &&& r is Some
                &&& 0 <= old(self).index_of(pane_id) < old(self).panes().len()
                &&& (*r.unwrap())@ == old(self).panes()[old(self).index_of(pane_id)]
                &&& final(self).panes() == old(self).panes().update(
                    old(self).index_of(pane_id),
                    (*final(r.unwrap()))@,
                )
                &&& old(self).same_shape(*final(self))
            },
        decreases *old(self),
    {
        match self {
            PaneTree::Split { children, .. } => {
                let i = first_child_with(children, pane_id);
                proof {
                    lemma_panes_of_has(children@, pane_id);
                }
                if i < children.len() {
                    proof {
                        lemma_index_of(children@[i as int].panes(), pane_id, 0);
                    }
                    let ghost s = children@;
                    let child = &mut children[i];
                    let ghost t2 = *final(child);
                    let r = child.pane_mut(pane_id);
                    proof {
                        lemma_child_update(s, i as int, t2, pane_id, (*final(r.unwrap()))@);
                        assert forall|j: int| 0 <= j < s.len() && j != i implies (#[trigger] s[j]).same_shape(s[j]) by {
                            lemma_same_shape_refl(s[j]);
                        }
                    }
                    r
                } else {
                    None
                }
            },
            PaneTree::Pane(p) => {
                if p.id() == pane_id {
                    proof {
                        lemma_index_of(seq![p@], pane_id, 0);
                        assert(old(self).panes()[0] == p@);
                        assert(old(self).panes().len() == 1);
                    }
                    Some(p)
                } else {
                    None
                }
            },
        }
    }
}

/// The index of the first tree in `children` that holds a pane with id
/// `pane_id`, or the length where none does.
fn first_child_with(children: &Vec<PaneTree>, pane_id: PaneId) -> (r: usize)
    ensures
        r <= children@.len(),
        forall|j: int| 0 <= j < r ==> !(#[trigger] children@[j]).has_pane(pane_id),
        r < children@.len() ==> children@[r as int].has_pane(pane_id),
    decreases children,
{
    let mut i: usize = 0;
    while i < children.len()
        invariant
            i <= children@.len(),
            forall|j: int| 0 <= j < i ==> !(#[trigger] children@[j]).has_pane(pane_id),
        decreases children@.len() - i,
    {
        if children[i].contains_pane(pane_id) {
            return i;
        }
        i = i + 1;
    }
    i
}

/// Every tree has its own shape.
pub proof fn lemma_same_shape_refl(t: PaneTree)
    ensures
        t.same_shape(t),
    decreases t,
{
    if let PaneTree::Split { children, .. } = t {
        assert forall|i: int| 0 <= i < children@.len() implies (#[trigger] children@[i]).same_shape(children@[i]) by {
            lemma_same_shape_refl(children@[i]);
        }
    }
}

/// The panes of two lists of trees put together are the panes of each.
pub proof fn lemma_panes_of_append(a: Seq<PaneTree>, b: Seq<PaneTree>)
    ensures
        panes_of(a + b) == panes_of(a) + panes_of(b),
    decreases b.len(),
{
    if b.len() == 0 {
        assert(a + b =~= a);
        assert(panes_of(b) =~= Seq::<PaneView>::empty());
        assert(panes_of(a) + panes_of(b) =~= panes_of(a));
    } else {
        assert((a + b).drop_last() =~= a + b.drop_last());
        lemma_panes_of_append(a, b.drop_last());
        assert(panes_of(a + b) =~= panes_of(a) + panes_of(b));
    }
}

/// A list of trees holds a pane with id `id` exactly where one of them does.
pub proof fn lemma_panes_of_has(s: Seq<PaneTree>, id: PaneId)
    ensures
        seq_has_id(panes_of(s), id) <==> exists|j: int| 0 <= j < s.len() && (#[trigger] s[j]).has_pane(id),
    decreases s.len(),
{
    if s.len() > 0 {
        let a = s.drop_last();
        let t = s.last();
        lemma_panes_of_has(a, id);
        let pa = panes_of(a);
        let pt = t.panes();
        let p = panes_of(s);
        assert(p == pa + pt);
        if seq_has_id(p, id) {
            let k = choose|k: int| 0 <= k < p.len() && #[trigger] p[k].id == id;
            if k < pa.len() {
                assert(pa[k].id == id);
                let j = choose|j: int| 0 <= j < a.len() && (#[trigger] a[j]).has_pane(id);
                assert(s[j] == a[j]);
            } else {
                assert(pt[k - pa.len()].id == id);
                assert(s[s.len() - 1].has_pane(id));
            }
        }
        if exists|j: int| 0 <= j < s.len() && (#[trigger] s[j]).has_pane(id) {
            let j = choose|j: int| 0 <= j < s.len() && (#[trigger] s[j]).has_pane(id);
            if j < s.len() - 1 {
                assert(a[j] == s[j]);
                let k = choose|k: int| 0 <= k < pa.len() && #[trigger] pa[k].id == id;
                assert(p[k] == pa[k]);
            } else {
                let k = choose|k: int| 0 <= k < pt.len() && #[trigger] pt[k].id == id;
                assert(p[pa.len() + k] == pt[k]);
            }
        }
    }
}

/// `index_of_from` finds the first pane with the id at or after `i`, and
/// -1 only where none stands there.
pub proof fn lemma_index_of(s: Seq<PaneView>, id: PaneId, i: int)
    requires
        0 <= i,
    ensures
        index_of_from(s, id, i) == -1 <==> !(exists|k: int| i <= k < s.len() && #[trigger] s[k].id == id),
        index_of_from(s, id, i) != -1 ==> {
            &&& i <= index_of_from(s, id, i) < s.len()
            &&& s[index_of_from(s, id, i)].id == id
            &&& forall|k: int| i <= k < index_of_from(s, id, i) ==> #[trigger] s[k].id != id
        },
    decreases s.len() - i,
{
    if i < s.len() && s[i].id != id {
        lemma_index_of(s, id, i + 1);
    }
}

proof fn lemma_child_update(s: Seq<PaneTree>, i: int, t2: PaneTree, id: PaneId, v: PaneView)
    requires
        0 <= i < s.len(),
        forall|j: int| 0 <= j < i ==> !(#[trigger] s[j]).has_pane(id),
        s[i].has_pane(id),
        t2.panes() == s[i].panes().update(s[i].index_of(id), v),
    ensures
        ({
            let k = index_of_from(panes_of(s), id, 0);
            &&& 0 <= s[i].index_of(id) < s[i].panes().len()
            &&& k == panes_of(s.take(i)).len() + s[i].index_of(id)
            &&& 0 <= k < panes_of(s).len()
            &&& panes_of(s)[k] == s[i].panes()[s[i].index_of(id)]
            &&& panes_of(s.update(i, t2)) == panes_of(s).update(k, v)
        }),
{
    let a = s.take(i);
    let b = s.skip(i + 1);
    let t = s[i];
    assert(s =~= a + seq![t] + b);
    assert(s.update(i, t2) =~= a + seq![t2] + b);
    lemma_panes_of_append(a + seq![t], b);
    lemma_panes_of_append(a, seq![t]);
    lemma_panes_of_append(a + seq![t2], b);
    lemma_panes_of_append(a, seq![t2]);
    assert(seq![t].drop_last() =~= Seq::<PaneTree>::empty());
    assert(seq![t2].drop_last() =~= Seq::<PaneTree>::empty());
    assert(panes_of(Seq::<PaneTree>::empty()) + t.panes() =~= t.panes());
    assert(panes_of(Seq::<PaneTree>::empty()) + t2.panes() =~= t2.panes());
    let pa = panes_of(a);
    let pt = t.panes();
    let pb = panes_of(b);
    let p = panes_of(s);
    assert(p == pa + pt + pb);
    lemma_panes_of_has(a, id);
    assert forall|j: int| 0 <= j < a.len() implies !(#[trigger] a[j]).has_pane(id) by {
        assert(a[j] == s[j]);
    }
    lemma_index_of(pt, id, 0);
    let kt = t.index_of(id);
    lemma_index_of(p, id, 0);
    let k = index_of_from(p, id, 0);
    assert(p[pa.len() + kt] == pt[kt]);
    assert forall|j: int| 0 <= j < pa.len() + kt implies #[trigger] p[j].id != id by {
        if j < pa.len() {
            assert(p[j] == pa[j]);
            if pa[j].id == id {
                assert(seq_has_id(pa, id));
            }
        } else {
            assert(p[j] == pt[j - pa.len()]);
        }
    }
    assert(k == pa.len() + kt) by {
        if k < pa.len() + kt {
            assert(p[k].id != id);
        }
        if k > pa.len() + kt {
            assert(p[pa.len() + kt].id == id);
        }
    }
    assert(panes_of(s.update(i, t2)) =~= p.update(k, v));
}

} // verus!

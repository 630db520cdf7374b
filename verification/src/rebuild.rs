//! The reconstruction engine. A persisted tree is turned back into a live
//! pane tree in two steps: the host first collects one rehydration request
//! per item, in document order, and performs them however it likes; the
//! engine is then handed one outcome per request — the live item's handle,
//! or nothing where rehydration failed — and deterministically rebuilds the
//! live tree. A pane left with no items yields no node; a group keeps its
//! surviving children in order, collapses to a single survivor, and yields
//! no node when none survive. The first pane in document order that was
//! persisted active becomes the tree's active pane.

use crate::model::pane_group_view;
use crate::model::pane_group_views;
use crate::model::lemma_pane_group_views;
use crate::model::Axis;
use crate::model::ItemView;
use crate::model::PaneGroupView;
use crate::model::PaneView;
use crate::model::SerializedPane;
use crate::model::SerializedPaneGroup;
use vstd::prelude::*;

verus! {

/// One rehydration request: which deserializer to call, and with which
/// persisted identifier.
#[derive(Debug, Clone, PartialEq, Eq)]
pub struct ItemRequest {
    pub kind: String,
    pub item_id: u64,
}

/// Mathematical value of an `ItemRequest`.
pub struct ItemRequestView {
    pub kind: Seq<char>,
    pub item_id: u64,
}

impl View for ItemRequest {
    type V = ItemRequestView;

    open spec fn view(&self) -> ItemRequestView {
        ItemRequestView { kind: self.kind@, item_id: self.item_id }
    }
}

impl DeepView for ItemRequest {
    type V = ItemRequestView;

    open spec fn deep_view(&self) -> ItemRequestView {
        self@
    }
}

/// A live pane: the handles of the items that were successfully rehydrated,
/// in persisted order, and the resolved positions (into `items`) of the
/// active and the previewed item, when their persisted originals survived.
#[derive(Debug, Clone, PartialEq, Eq)]
pub struct LivePane {
    pub items: Vec<u64>,
    pub active_item_index: Option<usize>,
    pub preview_item_index: Option<usize>,
}

/// Mathematical value of a `LivePane`.
pub struct LivePaneView {
    pub items: Seq<u64>,
    pub active_item_index: Option<usize>,
    pub preview_item_index: Option<usize>,
}

impl View for LivePane {
    type V = LivePaneView;

    open spec fn view(&self) -> LivePaneView {
        LivePaneView {
            items: self.items@,
            active_item_index: self.active_item_index,
            preview_item_index: self.preview_item_index,
        }
    }
}

impl LivePane {
    /// An identical copy of the pane.
    pub fn duplicate(&self) -> (r: Self)
        ensures
            r@ == self@,
    {
        let mut items: Vec<u64> = Vec::new();
        let mut i: usize = 0;
        while i < self.items.len()
            invariant
                i <= self.items.len(),
                items@ == self.items@.take(i as int),
            decreases self.items.len() - i,
        {
            items.push(self.items[i]);
            proof {
                assert(items@ =~= self.items@.take(i + 1));
            }
            i += 1;
        }
        proof {
            assert(items@ =~= self.items@);
        }
        LivePane {
            items,
            active_item_index: self.active_item_index,
            preview_item_index: self.preview_item_index,
        }
    }
}

/// The live tree: an axis-aligned container of live members, or one live
/// pane. A single-member container is never materialized; the member takes
/// its place.
#[derive(Debug)]
pub enum Member {
    Axis { axis: Axis, flexes: Option<Vec<u32>>, members: Vec<Member> },
    Pane(LivePane),
}

/// Mathematical value of a `Member`.
pub enum MemberView {
    Axis { axis: Axis, flexes: Option<Seq<u32>>, members: Seq<MemberView> },
    Pane(LivePaneView),
}

/// Mathematical value of a `Member`.
pub open spec fn member_view(m: Member) -> MemberView
    decreases m, 0int,
    via member_view_decreases
{
    match m {
        Member::Axis { axis, flexes, .. } => MemberView::Axis {
            axis,
            flexes: match flexes {
                Some(f) => Some(f@),
                None => None,
            },
            members: member_views(m->Axis_members@, 0),
        },
        Member::Pane(p) => MemberView::Pane(p@),
    }
}

/// The views of `members[i..]`, in order.
pub open spec fn member_views(members: Seq<Member>, i: int) -> Seq<MemberView>
    decreases members, members.len() - i + 1,
{
    if i < 0 || i >= members.len() {
        Seq::empty()
    } else {
        seq![member_view(members[i])] + member_views(members, i + 1)
    }
}

#[via_fn]
proof fn member_view_decreases(m: Member) {
    if let Member::Axis { .. } = m {
        assert(decreases_to!(m => m->Axis_members));
        assert(decreases_to!(m->Axis_members => m->Axis_members@));
    }
}

/// How `member_views` unrolls: one view per member, in the same order.
pub proof fn lemma_member_views(members: Seq<Member>, i: int)
    requires
        0 <= i <= members.len(),
    ensures
        member_views(members, i).len() == members.len() - i,
        forall|k: int|
            0 <= k < members.len() - i ==> #[trigger] member_views(members, i)[k]
                == member_view(members[i + k]),
    decreases members.len() - i,
{
    if i < members.len() {
        lemma_member_views(members, i + 1);
        assert forall|k: int| 0 <= k < members.len() - i implies #[trigger] member_views(
            members,
            i,
        )[k] == member_view(members[i + k]) by {
            if k > 0 {
                assert(member_views(members, i)[k] == member_views(members, i + 1)[k - 1]);
            }
        }
    }
}

impl View for Member {
    type V = MemberView;

    open spec fn view(&self) -> MemberView {
        member_view(*self)
    }
}

/// What reconstructing one node produced: the live member, the active-pane
/// signal it reports upward, and the per-item outcomes of the panes it
/// kept, in document order.
#[derive(Debug)]
pub struct Rebuilt {
    pub member: Member,
    pub active_pane: Option<LivePane>,
    pub items: Vec<Option<u64>>,
}

/// Mathematical value of a `Rebuilt`.
pub struct RebuiltView {
    pub member: MemberView,
    pub active_pane: Option<LivePaneView>,
    pub items: Seq<Option<u64>>,
}

impl View for Rebuilt {
    type V = RebuiltView;

    open spec fn view(&self) -> RebuiltView {
        RebuiltView {
            member: member_view(self.member),
            active_pane: match &self.active_pane {
                Some(p) => Some(p@),
                None => None,
            },
            items: self.items@,
        }
    }
}

/// The view of an optional reconstruction result.
pub open spec fn rebuilt_opt_view(r: Option<Rebuilt>) -> Option<RebuiltView> {
    match r {
        Some(rb) => Some(rb@),
        None => None,
    }
}

// ---------------------------------------------------------------------------
// Item accounting: how many outcomes a node consumes, and which slice of
// the outcome sequence belongs to which child.
// ---------------------------------------------------------------------------
/// How many items — hence rehydration outcomes — a node holds.
pub open spec fn item_count(n: PaneGroupView) -> nat
    decreases n, 0int,
{
    match n {
        PaneGroupView::Pane(p) => p.children.len(),
        PaneGroupView::Group { .. } => items_in_children(n->Group_children, 0),
    }
}

/// How many items `children[i..]` hold together.
pub open spec fn items_in_children(children: Seq<PaneGroupView>, i: int) -> nat
    decreases children, children.len() - i + 1,
{
    if i < 0 || i >= children.len() {
        0
    } else {
        item_count(children[i]) + items_in_children(children, i + 1)
    }
}

/// How many items `children[..i]` hold together.
pub open spec fn items_before(children: Seq<PaneGroupView>, i: int) -> nat
    decreases i,
{
    if i <= 0 || i > children.len() {
        0
    } else {
        items_before(children, i - 1) + item_count(children[i - 1])
    }
}

/// The slice of a group's outcome sequence that belongs to child `i`.
pub open spec fn child_span(
    children: Seq<PaneGroupView>,
    res: Seq<Option<u64>>,
    i: int,
) -> Seq<Option<u64>> {
    res.subrange(
        items_before(children, i) as int,
        items_before(children, i) + item_count(children[i]) as int,
    )
}

/// Prefix and suffix counts add up to the whole.
pub proof fn lemma_items_split(children: Seq<PaneGroupView>, i: int)
    requires
        0 <= i <= children.len(),
    ensures
        items_before(children, i) + items_in_children(children, i) == items_in_children(
            children,
            0,
        ),
    decreases i,
{
    if i > 0 {
        lemma_items_split(children, i - 1);
    }
}

// ---------------------------------------------------------------------------
// The pane leaf: surviving items, and flag resolution.
// ---------------------------------------------------------------------------
/// The handles of the outcomes that succeeded, in order.
pub open spec fn survivors(res: Seq<Option<u64>>) -> Seq<u64>
    decreases res.len(),
{
    if res.len() == 0 {
        Seq::empty()
    } else {
        survivors(res.drop_last()) + match res.last() {
            Some(h) => seq![h],
            None => Seq::empty(),
        }
    }
}

/// The last index whose item carries the given flag — the persisted flag
/// resolution keeps the last marked item, as writing does.
pub open spec fn last_flagged(items: Seq<ItemView>, flag: spec_fn(ItemView) -> bool) -> Option<
    int,
>
    decreases items.len(),
{
    if items.len() == 0 {
        None
    } else if flag(items.last()) {
        Some(items.len() - 1)
    } else {
        last_flagged(items.drop_last(), flag)
    }
}

/// A found flag index is in range and carries the flag.
pub proof fn lemma_last_flagged_bounds(items: Seq<ItemView>, flag: spec_fn(ItemView) -> bool)
    ensures
        last_flagged(items, flag) matches Some(j) ==> 0 <= j < items.len() && flag(items[j]),
    decreases items.len(),
{
    if items.len() > 0 && !flag(items.last()) {
        lemma_last_flagged_bounds(items.drop_last(), flag);
    }
}

/// Where the flagged item ends up in the live pane: at its position among
/// the survivors when its own rehydration succeeded, and nowhere at all
/// when it failed — the flag is not remapped to a neighbour.
pub open spec fn resolve_flag(
    items: Seq<ItemView>,
    res: Seq<Option<u64>>,
    flag: spec_fn(ItemView) -> bool,
) -> Option<usize> {
    match last_flagged(items, flag) {
        None => None,
        Some(j) => if 0 <= j < res.len() && res[j] is Some {
            Some(survivors(res.take(j)).len() as usize)
        } else {
            None
        },
    }
}

/// The item marked active.
pub open spec fn active_flag() -> spec_fn(ItemView) -> bool {
    |it: ItemView| it.active
}

/// The item marked previewed.
pub open spec fn preview_flag() -> spec_fn(ItemView) -> bool {
    |it: ItemView| it.preview
}

/// Reconstructing one pane from its outcomes: the survivors become the live
/// items, flags resolve against the original indices, and a pane left with
/// no items yields no node.
pub open spec fn rebuild_pane(p: PaneView, res: Seq<Option<u64>>) -> Option<RebuiltView> {
    let items = survivors(res);
    if items.len() == 0 {
        None
    } else {
        let pane = LivePaneView {
            items,
            active_item_index: resolve_flag(p.children, res, active_flag()),
            preview_item_index: resolve_flag(p.children, res, preview_flag()),
        };
        Some(
            RebuiltView {
                member: MemberView::Pane(pane),
                active_pane: if p.active {
                    Some(pane)
                } else {
                    None
                },
                items: res,
            },
        )
    }
}

// ---------------------------------------------------------------------------
// The tree: group recursion.
// ---------------------------------------------------------------------------
/// Reconstructing `children[i..]`, whose outcomes start at `off` in `res`:
/// the members that survived in order, the first active-pane signal, and
/// the per-item outcomes of the surviving children.
pub open spec fn rebuild_children(
    children: Seq<PaneGroupView>,
    res: Seq<Option<u64>>,
    i: int,
    off: int,
) -> (Seq<MemberView>, Option<LivePaneView>, Seq<Option<u64>>)
    decreases children, children.len() - i + 1,
{
    if i < 0 || i >= children.len() {
        (Seq::empty(), None, Seq::empty())
    } else {
        let child = rebuild(
            children[i],
            res.subrange(off, off + item_count(children[i])),
        );
        let rest = rebuild_children(children, res, i + 1, off + item_count(children[i]));
        match child {
            None => rest,
            Some(rb) => (
                seq![rb.member] + rest.0,
                if rb.active_pane is Some {
                    rb.active_pane
                } else {
                    rest.1
                },
                rb.items + rest.2,
            ),
        }
    }
}

/// Reconstructing one node from exactly its own outcomes. A group with no
/// surviving child yields no node; with exactly one it collapses to that
/// child; otherwise it becomes an axis container around the survivors,
/// with the original flex weights passed through unchanged.
pub open spec fn rebuild(n: PaneGroupView, res: Seq<Option<u64>>) -> Option<RebuiltView>
    decreases n, 1int,
{
    match n {
        PaneGroupView::Pane(p) => rebuild_pane(p, res),
        PaneGroupView::Group { axis, flexes, .. } => {
            let built = rebuild_children(n->Group_children, res, 0, 0);
            if built.0.len() == 0 {
                None
            } else if built.0.len() == 1 {
                Some(RebuiltView { member: built.0[0], active_pane: built.1, items: built.2 })
            } else {
                Some(
                    RebuiltView {
                        member: MemberView::Axis { axis, flexes, members: built.0 },
                        active_pane: built.1,
                        items: built.2,
                    },
                )
            }
        },
    }
}

// ---------------------------------------------------------------------------
// Executable reconstruction.
// ---------------------------------------------------------------------------
/// How flag resolution grows by one trailing item.
pub proof fn lemma_resolve_flag_step(
    items: Seq<ItemView>,
    res: Seq<Option<u64>>,
    flag: spec_fn(ItemView) -> bool,
)
    requires
        items.len() == res.len(),
        items.len() > 0,
    ensures
        resolve_flag(items, res, flag) == (if flag(items.last()) {
            if res.last() is Some {
                Some(survivors(res.drop_last()).len() as usize)
            } else {
                None::<usize>
            }
        } else {
            resolve_flag(items.drop_last(), res.drop_last(), flag)
        }),
{
    let n = items.len() as int;
    if flag(items.last()) {
        assert(res[n - 1] == res.last());
        assert(res.take(n - 1) =~= res.drop_last());
    } else {
        lemma_last_flagged_bounds(items.drop_last(), flag);
        match last_flagged(items.drop_last(), flag) {
            None => {},
            Some(j) => {
                assert(res.drop_last()[j] == res[j]);
                assert(res.drop_last().take(j) =~= res.take(j));
            },
        }
    }
}

impl SerializedPane {
    /// Reconstruct this pane's live value from its own rehydration
    /// outcomes, `results[offset .. offset + children.len()]`: the
    /// survivors become the live items in persisted order, the active and
    /// preview flags resolve against the original indices, and the outcome
    /// slice itself is returned alongside.
    #[verifier::loop_isolation(false)]
    pub fn deserialize_to(&self, results: &Vec<Option<u64>>, offset: usize) -> (r: (
        LivePane,
        Vec<Option<u64>>,
    ))
        requires
            offset + self.children@.len() <= results@.len(),
        ensures
            ({
                let res = results@.subrange(offset as int, offset + self.children@.len());
                &&& r.0@.items == survivors(res)
                &&& r.0@.active_item_index == resolve_flag(self@.children, res, active_flag())
                &&& r.0@.preview_item_index == resolve_flag(self@.children, res, preview_flag())
                &&& r.1@ == res
            }),
    {
        proof {
            assert(results.len() == results@.len());
        }
        let n = self.children.len();
        let mut items: Vec<u64> = Vec::new();
        let mut span: Vec<Option<u64>> = Vec::new();
        let mut active_item_index: Option<usize> = None;
        let mut preview_item_index: Option<usize> = None;
        let mut i: usize = 0;
        while i < n
            invariant
                i <= n,
                items@ == survivors(results@.subrange(offset as int, offset + i)),
                span@ == results@.subrange(offset as int, offset + i),
                active_item_index == resolve_flag(
                    self@.children.take(i as int),
                    results@.subrange(offset as int, offset + i),
                    active_flag(),
                ),
                preview_item_index == resolve_flag(
                    self@.children.take(i as int),
                    results@.subrange(offset as int, offset + i),
                    preview_flag(),
                ),
            decreases n - i,
        {
            let ghost prev_items = self@.children.take(i as int);
            let ghost prev_res = results@.subrange(offset as int, offset + i);
            let ghost cur_items = self@.children.take(i + 1);
            let ghost cur_res = results@.subrange(offset as int, offset + i + 1);
            let outcome = results[offset + i];
            let it_active = self.children[i].active;
            let it_preview = self.children[i].preview;
            proof {
                assert(cur_items.drop_last() =~= prev_items);
                assert(cur_res.drop_last() =~= prev_res);
                assert(cur_items.last() == self@.children[i as int]);
                assert(cur_res.last() == results@[offset + i]);
                assert(self@.children[i as int] == self.children@[i as int]@);
                lemma_resolve_flag_step(cur_items, cur_res, active_flag());
                lemma_resolve_flag_step(cur_items, cur_res, preview_flag());
            }
            match outcome {
                Some(h) => {
                    if it_active {
                        active_item_index = Some(items.len());
                    }
                    if it_preview {
                        preview_item_index = Some(items.len());
                    }
                    items.push(h);
                },
                None => {
                    if it_active {
                        active_item_index = None;
                    }
                    if it_preview {
                        preview_item_index = None;
                    }
                },
            }
            span.push(outcome);
            proof {
                assert(span@ =~= cur_res);
                assert(items@ =~= survivors(cur_res));
            }
            i += 1;
        }
        proof {
            assert(self@.children.take(n as int) =~= self@.children);
        }
        (LivePane { items, active_item_index, preview_item_index }, span)
    }
}

/// Pushing one member onto the back extends the view list by its view.
pub proof fn lemma_member_views_push(members: Seq<Member>, m: Member)
    ensures
        member_views(members.push(m), 0) == member_views(members, 0) + seq![member_view(m)],
{
    lemma_member_views(members, 0);
    lemma_member_views(members.push(m), 0);
    assert forall|k: int| 0 <= k < members.len() + 1 implies member_views(members.push(m), 0)[k]
        == (member_views(members, 0) + seq![member_view(m)])[k] by {
        if k < members.len() {
            assert(members.push(m)[k] == members[k]);
        } else {
            assert(members.push(m)[k] == m);
        }
    }
    assert(member_views(members.push(m), 0) =~= member_views(members, 0) + seq![
        member_view(m),
    ]);
}

/// An identical copy of a group's flex weights.
fn clone_flexes(flexes: &Option<Vec<u32>>) -> (r: Option<Vec<u32>>)
    ensures
        match flexes {
            Some(f) => r matches Some(g) && g@ == f@,
            None => r is None,
        },
{
    match flexes {
        Some(f) => {
            let mut g: Vec<u32> = Vec::new();
            let mut i: usize = 0;
            while i < f.len()
                invariant
                    i <= f.len(),
                    g@ == f@.take(i as int),
                decreases f.len() - i,
            {
                g.push(f[i]);
                proof {
                    assert(g@ =~= f@.take(i + 1));
                }
                i += 1;
            }
            proof {
                assert(g@ =~= f@);
            }
            Some(g)
        },
        None => None,
    }
}

impl SerializedPaneGroup {
    proof fn lemma_child_decreases(&self, i: int)
        requires
            self is Group,
            0 <= i < self->Group_children@.len(),
        ensures
            decreases_to!(*self => self->Group_children@[i]),
    {
        assert(decreases_to!(*self => self->Group_children));
        assert(decreases_to!(self->Group_children => self->Group_children@));
        assert(decreases_to!(self->Group_children@ => self->Group_children@[i]));
    }

    /// Reconstruct the live tree below this node from the rehydration
    /// outcomes `results[offset ..]`, one entry per item of the subtree in
    /// document order: the rebuilt node — or nothing when no pane below
    /// survived — together with the index of the first outcome after the
    /// subtree.
    #[verifier::loop_isolation(false)]
    pub fn deserialize(&self, results: &Vec<Option<u64>>, offset: usize) -> (r: (
        Option<Rebuilt>,
        usize,
    ))
        requires
            offset + item_count(self@) <= results@.len(),
        ensures
            r.1 == offset + item_count(self@),
            rebuilt_opt_view(r.0) == rebuild(
                self@,
                results@.subrange(offset as int, offset + item_count(self@) as int),
            ),
        decreases *self,
    {
        proof {
            assert(results.len() == results@.len());
        }
        match self {
            SerializedPaneGroup::Pane(pane) => {
                let n = pane.children.len();
                proof {
                    assert(item_count(self@) == pane.children@.len());
                }
                let (live, span) = pane.deserialize_to(results, offset);
                if live.items.len() > 0 {
                    let active_pane = if pane.active {
                        Some(live.duplicate())
                    } else {
                        None
                    };
                    (
                        Some(Rebuilt { member: Member::Pane(live), active_pane, items: span }),
                        offset + n,
                    )
                } else {
                    (None, offset + n)
                }
            },
            SerializedPaneGroup::Group { axis, flexes, children } => {
                let ghost cs = pane_group_views(children@, 0);
                let ghost whole = results@.subrange(
                    offset as int,
                    offset + item_count(self@) as int,
                );
                proof {
                    lemma_pane_group_views(children@, 0);
                }
                let mut members: Vec<Member> = Vec::new();
                let mut active_pane: Option<LivePane> = None;
                let mut span: Vec<Option<u64>> = Vec::new();
                let mut cur: usize = offset;
                let mut i: usize = 0;
                while i < children.len()
                    invariant
                        i <= children@.len(),
                        offset <= cur,
                        cur + items_in_children(cs, i as int) == offset + item_count(self@),
                        ({
                            let rest = rebuild_children(cs, whole, i as int, cur - offset);
                            let done = rebuild_children(cs, whole, 0, 0);
                            &&& done.0 == member_views(members@, 0) + rest.0
                            &&& done.1 == (match active_pane {
                                Some(p) => Some(p@),
                                None => rest.1,
                            })
                            &&& done.2 == span@ + rest.2
                        }),
                    decreases children@.len() - i,
                {
                    let ghost cnt = item_count(cs[i as int]) as int;
                    let ghost off_i = cur - offset;
                    let ghost rest_here = rebuild_children(cs, whole, i as int, off_i);
                    let ghost rest_next = rebuild_children(cs, whole, i + 1, off_i + cnt);
                    let c = &children[i];
                    proof {
                        self.lemma_child_decreases(i as int);
                        assert(c@ == cs[i as int]);
                    }
                    proof {
                        assert(items_in_children(cs, i as int) == item_count(cs[i as int])
                            + items_in_children(cs, i + 1));
                        assert(off_i + cnt <= item_count(self@));
                        assert(whole.len() == item_count(self@));
                    }
                    let (child, next) = c.deserialize(results, cur);
                    proof {
                        assert forall|k: int| 0 <= k < cnt implies #[trigger] results@.subrange(
                            cur as int,
                            cur + cnt,
                        )[k] == whole.subrange(off_i, off_i + cnt)[k] by {
                            assert(whole.subrange(off_i, off_i + cnt)[k] == whole[off_i + k]);
                            assert(whole[off_i + k] == results@[offset + off_i + k]);
                        }
                        assert(results@.subrange(cur as int, cur + cnt) =~= whole.subrange(
                            off_i,
                            off_i + cnt,
                        ));
                    }
                    match child {
                        Some(rb) => {
                            let member = rb.member;
                            let child_active = rb.active_pane;
                            let mut child_items = rb.items;
                            proof {
                                lemma_member_views_push(members@, member);
                                assert(member_views(members@, 0) + (seq![member_view(member)]
                                    + rest_next.0) =~= (member_views(members@, 0) + seq![
                                    member_view(member),
                                ]) + rest_next.0);
                                assert(span@ + (child_items@ + rest_next.2) =~= (span@
                                    + child_items@) + rest_next.2);
                            }
                            members.push(member);
                            if active_pane.is_none() {
                                active_pane = child_active;
                            }
                            span.append(&mut child_items);
                        },
                        None => {},
                    }
                    cur = next;
                    i += 1;
                }
                proof {
                    assert(member_views(members@, 0) + Seq::<MemberView>::empty()
                        =~= member_views(members@, 0));
                    assert(span@ + Seq::<Option<u64>>::empty() =~= span@);
                    lemma_member_views(members@, 0);
                }
                if members.len() == 0 {
                    (None, cur)
                } else if members.len() == 1 {
                    let ghost pre = members@;
                    let m = members.remove(0);
                    proof {
                        assert(member_views(pre, 0)[0] == member_view(pre[0]));
                    }
                    (Some(Rebuilt { member: m, active_pane, items: span }), cur)
                } else {
                    let fl = clone_flexes(flexes);
                    let m = Member::Axis { axis: *axis, flexes: fl, members };
                    (Some(Rebuilt { member: m, active_pane, items: span }), cur)
                }
            },
        }
    }
}

// ---------------------------------------------------------------------------
// Rehydration requests.
// ---------------------------------------------------------------------------
/// The rehydration requests of one pane, in item order.
pub open spec fn pane_requests(items: Seq<ItemView>) -> Seq<ItemRequestView> {
    Seq::new(items.len(), |i: int| ItemRequestView { kind: items[i].kind, item_id: items[i].item_id })
}

/// The rehydration requests of a subtree, in document order.
pub open spec fn node_requests(n: PaneGroupView) -> Seq<ItemRequestView>
    decreases n, 1int,
{
    match n {
        PaneGroupView::Pane(p) => pane_requests(p.children),
        PaneGroupView::Group { .. } => children_requests(n->Group_children, 0),
    }
}

/// The rehydration requests of `children[i..]`, in document order.
pub open spec fn children_requests(children: Seq<PaneGroupView>, i: int) -> Seq<ItemRequestView>
    decreases children, children.len() - i + 1,
{
    if i < 0 || i >= children.len() {
        Seq::empty()
    } else {
        node_requests(children[i]) + children_requests(children, i + 1)
    }
}

/// One rehydration outcome is owed per request.
pub proof fn lemma_node_requests_len(n: PaneGroupView)
    ensures
        node_requests(n).len() == item_count(n),
    decreases n, 1int,
{
    if let PaneGroupView::Group { .. } = n {
        lemma_children_requests_len(n->Group_children, 0);
    }
}

proof fn lemma_children_requests_len(children: Seq<PaneGroupView>, i: int)
    ensures
        children_requests(children, i).len() == items_in_children(children, i),
    decreases children, children.len() - i + 1,
{
    if 0 <= i < children.len() {
        lemma_node_requests_len(children[i]);
        lemma_children_requests_len(children, i + 1);
    }
}

impl SerializedPaneGroup {
    /// Append the subtree's rehydration requests to `out`, in document
    /// order: one request per item, naming the item's kind and persisted
    /// identifier. The host answers them with one outcome each, in the
    /// same order, and hands the outcomes to [`Self::deserialize`].
    #[verifier::loop_isolation(false)]
    pub fn collect_requests(&self, out: &mut Vec<ItemRequest>)
        ensures
            final(out).deep_view() == old(out).deep_view() + node_requests(self@),
        decreases *self,
    {
        match self {
            SerializedPaneGroup::Pane(pane) => {
                let mut i: usize = 0;
                while i < pane.children.len()
                    invariant
                        i <= pane.children@.len(),
                        out.deep_view() == old(out).deep_view() + pane_requests(
                            pane@.children.take(i as int),
                        ),
                    decreases pane.children@.len() - i,
                {
                    let ghost prev = out.deep_view();
                    let item = &pane.children[i];
                    out.push(ItemRequest { kind: item.kind.clone(), item_id: item.item_id });
                    proof {
                        let goal = old(out).deep_view() + pane_requests(
                            pane@.children.take(i + 1),
                        );
                        assert(pane@.children[i as int] == pane.children@[i as int]@);
                        assert forall|k: int| 0 <= k < prev.len() + 1 implies #[trigger] out.deep_view()[k]
                            == goal[k] by {
                            if k < prev.len() {
                                assert(out.deep_view()[k] == prev[k]);
                                if k >= old(out).deep_view().len() {
                                    let k2 = k - old(out).deep_view().len();
                                    assert(pane@.children.take(i as int)[k2]
                                        == pane@.children[k2]);
                                    assert(pane@.children.take(i + 1)[k2]
                                        == pane@.children[k2]);
                                }
                            } else {
                                assert(pane@.children.take(i + 1)[i as int] == pane@.children[i as int]);
                            }
                        }
                        assert(out.deep_view() =~= goal);
                    }
                    i += 1;
                }
                proof {
                    assert(pane@.children.take(pane.children@.len() as int) =~= pane@.children);
                }
            },
            SerializedPaneGroup::Group { children, .. } => {
                let ghost cs = pane_group_views(children@, 0);
                proof {
                    lemma_pane_group_views(children@, 0);
                }
                let mut i: usize = 0;
                while i < children.len()
                    invariant
                        i <= children@.len(),
                        out.deep_view() + children_requests(cs, i as int) == old(out).deep_view()
                            + children_requests(cs, 0),
                    decreases children@.len() - i,
                {
                    let ghost before = out.deep_view();
                    let c = &children[i];
                    proof {
                        self.lemma_child_decreases(i as int);
                        assert(c@ == cs[i as int]);
                    }
                    c.collect_requests(out);
                    proof {
                        assert(before + (node_requests(cs[i as int]) + children_requests(
                            cs,
                            i + 1,
                        )) =~= (before + node_requests(cs[i as int])) + children_requests(
                            cs,
                            i + 1,
                        ));
                    }
                    i += 1;
                }
                proof {
                    assert(out.deep_view() + Seq::<ItemRequestView>::empty()
                        =~= out.deep_view());
                    assert(old(out).deep_view() + children_requests(cs, 0) =~= out.deep_view()
                        + Seq::<ItemRequestView>::empty());
                }
            },
        }
    }
}

// ---------------------------------------------------------------------------
// What the engine guarantees of whole trees.
// ---------------------------------------------------------------------------
/// Every rehydration outcome succeeded.
pub open spec fn all_ok(res: Seq<Option<u64>>) -> bool {
    forall|k: int| 0 <= k < res.len() ==> #[trigger] res[k] is Some
}

/// The handles of fully successful outcomes, in order.
pub open spec fn handles_of(res: Seq<Option<u64>>) -> Seq<u64> {
    Seq::new(res.len(), |k: int| res[k]->0)
}

/// When every outcome succeeded, the survivors are all the handles.
pub proof fn lemma_survivors_all_ok(res: Seq<Option<u64>>)
    requires
        all_ok(res),
    ensures
        survivors(res) == handles_of(res),
    decreases res.len(),
{
    if res.len() > 0 {
        assert forall|k: int| 0 <= k < res.drop_last().len() implies #[trigger] res.drop_last()[k]
            is Some by {
            assert(res.drop_last()[k] == res[k]);
        }
        lemma_survivors_all_ok(res.drop_last());
        assert(res.last() is Some);
        assert(survivors(res) =~= handles_of(res));
    }
}

/// Every pane holds at least one item and every group at least one child.
pub open spec fn well_formed(n: PaneGroupView) -> bool
    decreases n, 1int,
{
    match n {
        PaneGroupView::Pane(p) => p.children.len() > 0,
        PaneGroupView::Group { .. } => n->Group_children.len() > 0 && children_well_formed(
            n->Group_children,
            0,
        ),
    }
}

/// Well-formedness of `children[i..]`.
pub open spec fn children_well_formed(children: Seq<PaneGroupView>, i: int) -> bool
    decreases children, children.len() - i + 1,
{
    if i < 0 || i >= children.len() {
        true
    } else {
        well_formed(children[i]) && children_well_formed(children, i + 1)
    }
}

/// The live member `m` mirrors the persisted subtree `n` with outcomes
/// `res`: pane for pane in order, item for item in order, with
/// single-child groups collapsed into their child.
pub open spec fn mirrors(n: PaneGroupView, res: Seq<Option<u64>>, m: MemberView) -> bool
    decreases n, 1int,
{
    match n {
        PaneGroupView::Pane(p) => m matches MemberView::Pane(lp) && lp.items == handles_of(res),
        PaneGroupView::Group { axis, flexes, .. } => {
            let cs = n->Group_children;
            if cs.len() == 1 {
                mirrors(cs[0], res, m)
            } else {
                &&& m matches MemberView::Axis { axis: a2, flexes: f2, members }
                &&& a2 == axis
                &&& f2 == flexes
                &&& members.len() == cs.len()
                &&& children_mirror(cs, res, 0, members)
            }
        },
    }
}

/// The members mirror `children[i..]`, child by child.
pub open spec fn children_mirror(
    children: Seq<PaneGroupView>,
    res: Seq<Option<u64>>,
    i: int,
    members: Seq<MemberView>,
) -> bool
    decreases children, children.len() - i + 1,
{
    if i < 0 || i >= children.len() {
        true
    } else {
        &&& members.len() == children.len() - i
        &&& mirrors(children[i], child_span(children, res, i), members[0])
        &&& children_mirror(children, res, i + 1, members.subrange(1, members.len() as int))
    }
}

/// With every item rehydrated and no degenerate panes or groups, the live
/// tree mirrors the persisted tree: same children in the same order, same
/// items per pane in the same order — save that a single-child group
/// collapses into its child.
pub proof fn lemma_total_success_mirrors(n: PaneGroupView, res: Seq<Option<u64>>)
    requires
        res.len() == item_count(n),
        all_ok(res),
        well_formed(n),
    ensures
        rebuild(n, res) matches Some(rb) && mirrors(n, res, rb.member),
    decreases n, 1int,
{
    match n {
        PaneGroupView::Pane(p) => {
            lemma_survivors_all_ok(res);
        },
        PaneGroupView::Group { .. } => {
            let cs = n->Group_children;
            lemma_children_total_success(cs, res, 0);
            let built = rebuild_children(cs, res, 0, 0);
            if cs.len() == 1 {
                assert(items_in_children(cs, 1) == 0);
                assert(child_span(cs, res, 0) =~= res);
            }
        },
    }
}

proof fn lemma_children_total_success(children: Seq<PaneGroupView>, res: Seq<Option<u64>>, i: int)
    requires
        0 <= i <= children.len(),
        res.len() == items_in_children(children, 0),
        all_ok(res),
        children_well_formed(children, i),
    ensures
        ({
            let built = rebuild_children(children, res, i, items_before(children, i) as int);
            &&& built.0.len() == children.len() - i
            &&& children_mirror(children, res, i, built.0)
        }),
    decreases children, children.len() - i + 1,
{
    if i < children.len() {
        let off = items_before(children, i) as int;
        let cnt = item_count(children[i]) as int;
        lemma_items_split(children, i);
        assert(items_in_children(children, i) == cnt + items_in_children(children, i + 1));
        let span = res.subrange(off, off + cnt);
        assert(span =~= child_span(children, res, i));
        assert forall|k: int| 0 <= k < span.len() implies #[trigger] span[k] is Some by {
            assert(span[k] == res[off + k]);
        }
        lemma_total_success_mirrors(children[i], span);
        lemma_children_total_success(children, res, i + 1);
        assert(items_before(children, i + 1) == off + cnt);
        let rbc = rebuild(children[i], span)->0;
        let rest = rebuild_children(children, res, i + 1, off + cnt);
        let built = rebuild_children(children, res, i, off);
        assert(built.0 == seq![rbc.member] + rest.0);
        assert(built.0[0] == rbc.member);
        assert(built.0.subrange(1, built.0.len() as int) =~= rest.0);
    }
}

/// A child that yields no node is dropped in place: of three children
/// whose middle one fails entirely, the group keeps the outer two, in
/// that order, under the original axis and flex weights.
pub proof fn lemma_failed_child_dropped(
    g: PaneGroupView,
    res: Seq<Option<u64>>,
    ra: RebuiltView,
    rc: RebuiltView,
)
    requires
        g is Group,
        g->Group_children.len() == 3,
        res.len() == item_count(g),
        rebuild(g->Group_children[0], child_span(g->Group_children, res, 0)) == Some(ra),
        rebuild(g->Group_children[1], child_span(g->Group_children, res, 1)) is None,
        rebuild(g->Group_children[2], child_span(g->Group_children, res, 2)) == Some(rc),
    ensures
        rebuild(g, res) matches Some(rb) && rb.member == (MemberView::Axis {
            axis: g->Group_axis,
            flexes: g->Group_flexes,
            members: seq![ra.member, rc.member],
        }),
{
    let cs = g->Group_children;
    let c0 = item_count(cs[0]) as int;
    let c1 = item_count(cs[1]) as int;
    let c2 = item_count(cs[2]) as int;
    assert(items_before(cs, 1) == c0);
    assert(items_before(cs, 2) == c0 + c1);
    assert(items_in_children(cs, 3) == 0);
    assert(items_in_children(cs, 2) == c2);
    assert(items_in_children(cs, 1) == c1 + c2);
    assert(items_in_children(cs, 0) == c0 + c1 + c2);
    assert(res.subrange(0, c0) =~= child_span(cs, res, 0));
    assert(res.subrange(c0, c0 + c1) =~= child_span(cs, res, 1));
    assert(res.subrange(c0 + c1, c0 + c1 + c2) =~= child_span(cs, res, 2));
    let r3 = rebuild_children(cs, res, 3, c0 + c1 + c2);
    let r2 = rebuild_children(cs, res, 2, c0 + c1);
    let r1 = rebuild_children(cs, res, 1, c0);
    let r0 = rebuild_children(cs, res, 0, 0);
    assert(r3.0 == Seq::<MemberView>::empty());
    assert(r2.0 == seq![rc.member] + r3.0);
    assert(r1 == r2);
    assert(r0.0 == seq![ra.member] + r2.0);
    assert(r0.0 =~= seq![ra.member, rc.member]);
}

/// When every child of a group fails, the group yields no node.
pub proof fn lemma_all_children_fail(g: PaneGroupView, res: Seq<Option<u64>>)
    requires
        g is Group,
        forall|i: int|
            0 <= i < g->Group_children.len() ==> #[trigger] rebuild(
                g->Group_children[i],
                child_span(g->Group_children, res, i),
            ) is None,
    ensures
        rebuild(g, res) is None,
{
    lemma_children_all_fail(g->Group_children, res, 0);
}

proof fn lemma_children_all_fail(children: Seq<PaneGroupView>, res: Seq<Option<u64>>, i: int)
    requires
        0 <= i <= children.len(),
        forall|k: int|
            0 <= k < children.len() ==> #[trigger] rebuild(
                children[k],
                child_span(children, res, k),
            ) is None,
    ensures
        rebuild_children(children, res, i, items_before(children, i) as int).0 == Seq::<
            MemberView,
        >::empty(),
    decreases children.len() - i,
{
    if i < children.len() {
        assert(rebuild(children[i], child_span(children, res, i)) is None);
        assert(child_span(children, res, i) == res.subrange(
            items_before(children, i) as int,
            items_before(children, i) + item_count(children[i]) as int,
        ));
        assert(items_before(children, i + 1) == items_before(children, i) + item_count(
            children[i],
        ));
        lemma_children_all_fail(children, res, i + 1);
    }
}

/// A pane whose persisted active item failed to rehydrate selects no
/// active item at all: the index is not remapped to a surviving
/// neighbour. The previewed item resolves the same way.
pub proof fn lemma_failed_active_item_selects_none(p: PaneView, res: Seq<Option<u64>>, j: int)
    requires
        last_flagged(p.children, active_flag()) == Some(j),
        0 <= j < res.len(),
        res[j] is None,
    ensures
        rebuild_pane(p, res) matches Some(rb) ==> rb.member->Pane_0.active_item_index is None,
{
}

/// The first pane in document order that was persisted active wins: when a
/// group's first child already reports an active pane, the group reports
/// that pane, whatever its later siblings report and whenever their
/// rehydrations complete.
pub proof fn lemma_first_active_pane_wins(
    g: PaneGroupView,
    res: Seq<Option<u64>>,
    r0: RebuiltView,
    a: LivePaneView,
)
    requires
        g is Group,
        g->Group_children.len() >= 1,
        res.len() == item_count(g),
        rebuild(g->Group_children[0], child_span(g->Group_children, res, 0)) == Some(r0),
        r0.active_pane == Some(a),
    ensures
        rebuild(g, res) matches Some(rb) && rb.active_pane == Some(a),
{
    let cs = g->Group_children;
    let c0 = item_count(cs[0]) as int;
    assert(res.subrange(0, c0) =~= child_span(cs, res, 0));
    let rest = rebuild_children(cs, res, 1, c0);
    let built = rebuild_children(cs, res, 0, 0);
    assert(built.0 == seq![r0.member] + rest.0);
    assert(built.1 == Some(a));
    assert(built.0.len() >= 1);
}

} // verus!

use vstd::prelude::*;
use std::collections::HashMap;
use crate::transform::{FlutterTransformation, FIXED_ONE, identity, merged};

verus! {

broadcast use vstd::std_specs::hash::group_hash_axioms;

/// The flags the engine sets on a semantics node; the flag declared at
/// position `i` is bit `i` of the engine's bit field.
#[derive(Clone, Copy, PartialEq, Eq, Debug, Hash, Structural)]
pub enum FlutterSemanticsFlag {
    HasCheckedState,
    IsChecked,
    IsSelected,
    IsButton,
    IsTextField,
    IsFocused,
    HasEnabledState,
    IsEnabled,
    IsInMutuallyExclusiveGroup,
    IsHeader,
    IsObscured,
    ScopesRoute,
    NamesRoute,
    IsHidden,
    IsImage,
    IsLiveRegion,
    HasToggledState,
    IsToggled,
    HasImplicitScrolling,
    IsMultiline,
    IsReadOnly,
    IsFocusable,
    IsLink,
    IsSlider,
    IsKeyboardKey,
    IsCheckStateMixed,
}

/// How many flags there are.
pub const FLAG_COUNT: u32 = 26;

/// The flag of bit `i`.
pub open spec fn flag_of_bit(i: int) -> FlutterSemanticsFlag {
    if i == 0 { FlutterSemanticsFlag::HasCheckedState }
    else if i == 1 { FlutterSemanticsFlag::IsChecked }
    else if i == 2 { FlutterSemanticsFlag::IsSelected }
    else if i == 3 { FlutterSemanticsFlag::IsButton }
    else if i == 4 { FlutterSemanticsFlag::IsTextField }
    else if i == 5 { FlutterSemanticsFlag::IsFocused }
    else if i == 6 { FlutterSemanticsFlag::HasEnabledState }
    else if i == 7 { FlutterSemanticsFlag::IsEnabled }
    else if i == 8 { FlutterSemanticsFlag::IsInMutuallyExclusiveGroup }
    else if i == 9 { FlutterSemanticsFlag::IsHeader }
    else if i == 10 { FlutterSemanticsFlag::IsObscured }
    else if i == 11 { FlutterSemanticsFlag::ScopesRoute }
    else if i == 12 { FlutterSemanticsFlag::NamesRoute }
    else if i == 13 { FlutterSemanticsFlag::IsHidden }
    else if i == 14 { FlutterSemanticsFlag::IsImage }
    else if i == 15 { FlutterSemanticsFlag::IsLiveRegion }
    else if i == 16 { FlutterSemanticsFlag::HasToggledState }
    else if i == 17 { FlutterSemanticsFlag::IsToggled }
    else if i == 18 { FlutterSemanticsFlag::HasImplicitScrolling }
    else if i == 19 { FlutterSemanticsFlag::IsMultiline }
    else if i == 20 { FlutterSemanticsFlag::IsReadOnly }
    else if i == 21 { FlutterSemanticsFlag::IsFocusable }
    else if i == 22 { FlutterSemanticsFlag::IsLink }
    else if i == 23 { FlutterSemanticsFlag::IsSlider }
    else if i == 24 { FlutterSemanticsFlag::IsKeyboardKey }
    else { FlutterSemanticsFlag::IsCheckStateMixed }
}

fn flag_for_bit(i: u32) -> (f: FlutterSemanticsFlag)
    ensures
        f == flag_of_bit(i as int),
{
    if i == 0 { FlutterSemanticsFlag::HasCheckedState }
    else if i == 1 { FlutterSemanticsFlag::IsChecked }
    else if i == 2 { FlutterSemanticsFlag::IsSelected }
    else if i == 3 { FlutterSemanticsFlag::IsButton }
    else if i == 4 { FlutterSemanticsFlag::IsTextField }
    else if i == 5 { FlutterSemanticsFlag::IsFocused }
    else if i == 6 { FlutterSemanticsFlag::HasEnabledState }
    else if i == 7 { FlutterSemanticsFlag::IsEnabled }
    else if i == 8 { FlutterSemanticsFlag::IsInMutuallyExclusiveGroup }
    else if i == 9 { FlutterSemanticsFlag::IsHeader }
    else if i == 10 { FlutterSemanticsFlag::IsObscured }
    else if i == 11 { FlutterSemanticsFlag::ScopesRoute }
    else if i == 12 { FlutterSemanticsFlag::NamesRoute }
    else if i == 13 { FlutterSemanticsFlag::IsHidden }
    else if i == 14 { FlutterSemanticsFlag::IsImage }
    else if i == 15 { FlutterSemanticsFlag::IsLiveRegion }
    else if i == 16 { FlutterSemanticsFlag::HasToggledState }
    else if i == 17 { FlutterSemanticsFlag::IsToggled }
    else if i == 18 { FlutterSemanticsFlag::HasImplicitScrolling }
    else if i == 19 { FlutterSemanticsFlag::IsMultiline }
    else if i == 20 { FlutterSemanticsFlag::IsReadOnly }
    else if i == 21 { FlutterSemanticsFlag::IsFocusable }
    else if i == 22 { FlutterSemanticsFlag::IsLink }
    else if i == 23 { FlutterSemanticsFlag::IsSlider }
    else if i == 24 { FlutterSemanticsFlag::IsKeyboardKey }
    else { FlutterSemanticsFlag::IsCheckStateMixed }
}

/// Bit `i` of `bits` is set.
pub open spec fn bit_set(bits: u32, i: u32) -> bool {
    (bits >> i) & 1u32 == 1u32
}

/// The flags of the bits below `n` that are set in `bits`, lowest bit first.
pub open spec fn flags_below(bits: u32, n: int) -> Seq<FlutterSemanticsFlag>
    decreases n,
{
    if n <= 0 {
        Seq::empty()
    } else if bit_set(bits, (n - 1) as u32) {
        flags_below(bits, n - 1).push(flag_of_bit(n - 1))
    } else {
        flags_below(bits, n - 1)
    }
}

/// The flags that the engine's bit field `bits` sets, in declaration order.
pub fn to_flags(bits: u32) -> (flags: Vec<FlutterSemanticsFlag>)
    ensures
        flags@ == flags_below(bits, FLAG_COUNT as int),
{
    let mut flags: Vec<FlutterSemanticsFlag> = Vec::new();
    let mut i: u32 = 0;
    while i < FLAG_COUNT
        invariant
            i <= FLAG_COUNT,
            flags@ == flags_below(bits, i as int),
        decreases FLAG_COUNT - i,
    {
        if (bits >> i) & 1u32 == 1u32 {
            flags.push(flag_for_bit(i));
        }
        i += 1;
    }
    flags
}

/// A rectangle in fixed point (see `FIXED_ONE`).
#[derive(Clone, Copy, PartialEq, Eq, Debug, Structural)]
pub struct FlutterRect {
    pub left: i64,
    pub top: i64,
    pub right: i64,
    pub bottom: i64,
}

/// One node of the accessibility tree, as the engine last described it.
pub struct FlutterSemanticsNode {
    pub label: String,
    pub flags: Vec<FlutterSemanticsFlag>,
    pub value: String,
    pub rect: FlutterRect,
    pub transform: FlutterTransformation,
}

/// `a` and `b` hold the same description.
pub open spec fn same_node(a: FlutterSemanticsNode, b: FlutterSemanticsNode) -> bool {
    &&& a.label@ == b.label@
    &&& a.flags@ == b.flags@
    &&& a.value@ == b.value@
    &&& a.rect == b.rect
    &&& a.transform == b.transform
}

/// The node shows a label: it is not hidden and its label is not empty.
pub open spec fn shows_label(n: FlutterSemanticsNode) -> bool {
    !n.flags@.contains(FlutterSemanticsFlag::IsHidden) && n.label@.len() > 0
}

impl FlutterSemanticsNode {
    /// A copy of the node.
    pub fn duplicate(&self) -> (n: FlutterSemanticsNode)
        ensures
            same_node(n, *self),
    {
        let mut flags: Vec<FlutterSemanticsFlag> = Vec::new();
        let mut i: usize = 0;
        while i < self.flags.len()
            invariant
                i <= self.flags@.len(),
                flags@ == self.flags@.take(i as int),
            decreases self.flags@.len() - i,
        {
            flags.push(self.flags[i]);
            assert(self.flags@.take(i + 1) =~= self.flags@.take(i as int).push(self.flags@[i as int]));
            i += 1;
        }
        assert(self.flags@.take(self.flags@.len() as int) =~= self.flags@);
        FlutterSemanticsNode {
            label: self.label.clone(),
            flags,
            value: self.value.clone(),
            rect: self.rect,
            transform: self.transform,
        }
    }

    pub fn is_hidden(&self) -> (hidden: bool)
        ensures
            hidden == self.flags@.contains(FlutterSemanticsFlag::IsHidden),
    {
        let mut i: usize = 0;
        while i < self.flags.len()
            invariant
                i <= self.flags@.len(),
                forall|k: int| 0 <= k < i ==> self.flags@[k] != FlutterSemanticsFlag::IsHidden,
            decreases self.flags@.len() - i,
        {
            if self.flags[i] == FlutterSemanticsFlag::IsHidden {
                return true;
            }
            i += 1;
        }
        false
    }

    /// Whether the node shows a label.
    pub fn shows_label(&self) -> (shown: bool)
        ensures
            shown == shows_label(*self),
    {
        !self.is_hidden() && !self.label.as_str().is_empty()
    }
}

/// What the engine says of one node: its children, in traversal order, and
/// its description.
pub struct SemanticsUpdate {
    pub id: i32,
    pub children: Vec<i32>,
    pub node: FlutterSemanticsNode,
}

/// The id of the root node.
pub const ROOT_ID: i32 = 0;

/// `nodes` after the updates, applied in order.
pub open spec fn apply_nodes(nodes: Map<i32, FlutterSemanticsNode>, updates: Seq<SemanticsUpdate>) -> Map<i32, FlutterSemanticsNode>
    decreases updates.len(),
{
    if updates.len() == 0 {
        nodes
    } else {
        apply_nodes(nodes, updates.drop_last()).insert(updates.last().id, updates.last().node)
    }
}

/// The children lists after the updates, applied in order.
pub open spec fn apply_children(children: Map<i32, Seq<i32>>, updates: Seq<SemanticsUpdate>) -> Map<i32, Seq<i32>>
    decreases updates.len(),
{
    if updates.len() == 0 {
        children
    } else {
        apply_children(children, updates.drop_last()).insert(updates.last().id, updates.last().children@)
    }
}

/// Applying a second update to an id after a first one leaves that id with
/// the second update's description and children, and leaves every other id
/// as it was before both.
pub proof fn lemma_partial_update(
    nodes: Map<i32, FlutterSemanticsNode>,
    children: Map<i32, Seq<i32>>,
    first: SemanticsUpdate,
    second: SemanticsUpdate,
)
    requires
        first.id == second.id,
    ensures
        apply_nodes(apply_nodes(nodes, seq![first]), seq![second]) == nodes.insert(second.id, second.node),
        apply_children(apply_children(children, seq![first]), seq![second]) == children.insert(
            second.id,
            second.children@,
        ),
        apply_nodes(nodes, seq![first, second]) == nodes.insert(second.id, second.node),
        apply_children(children, seq![first, second]) == children.insert(second.id, second.children@),
{
    let one = seq![first];
    let two = seq![second];
    let both = seq![first, second];
    assert(one.drop_last() =~= Seq::<SemanticsUpdate>::empty());
    assert(two.drop_last() =~= Seq::<SemanticsUpdate>::empty());
    assert(both.drop_last() =~= one);
    assert(one.last() == first);
    assert(two.last() == second);
    assert(both.last() == second);
    assert(apply_nodes(nodes, one.drop_last()) == nodes);
    assert(apply_children(children, one.drop_last()) == children);
    assert(apply_nodes(nodes, one) =~= nodes.insert(first.id, first.node));
    assert(apply_children(children, one) =~= children.insert(first.id, first.children@));
    let n1 = apply_nodes(nodes, one);
    let c1 = apply_children(children, one);
    assert(apply_nodes(n1, two.drop_last()) == n1);
    assert(apply_children(c1, two.drop_last()) == c1);
    assert(apply_nodes(n1, two) =~= nodes.insert(second.id, second.node));
    assert(apply_children(c1, two) =~= children.insert(second.id, second.children@));
    assert(apply_nodes(nodes, both) =~= nodes.insert(second.id, second.node));
    assert(apply_children(children, both) =~= children.insert(second.id, second.children@));
}

/// A node of the tree rebuilt from the root: its description and its
/// children's subtrees, in traversal order.
pub struct GraphNode {
    pub current: FlutterSemanticsNode,
    pub children: Vec<GraphNode>,
}

/// Walking down from `id`, at most `fuel` levels deep, finds a description
/// and a children list for every node it meets.
pub open spec fn complete(nodes: Map<i32, FlutterSemanticsNode>, children: Map<i32, Seq<i32>>, id: i32, fuel: nat) -> bool
    decreases fuel, 0nat, 0nat,
{
    if fuel == 0 || !nodes.contains_key(id) || !children.contains_key(id) {
        false
    } else {
        complete_list(nodes, children, children[id], (fuel - 1) as nat)
    }
}

/// `complete` holds of every id of `ids`.
pub open spec fn complete_list(nodes: Map<i32, FlutterSemanticsNode>, children: Map<i32, Seq<i32>>, ids: Seq<i32>, fuel: nat) -> bool
    decreases fuel, 1nat, ids.len(),
{
    if ids.len() == 0 {
        true
    } else {
        complete_list(nodes, children, ids.drop_last(), fuel) && complete(nodes, children, ids.last(), fuel)
    }
}

/// `g` is the subtree of `id`, rebuilt at most `fuel` levels deep.
pub open spec fn graph_matches(
    g: GraphNode,
    nodes: Map<i32, FlutterSemanticsNode>,
    children: Map<i32, Seq<i32>>,
    id: i32,
    fuel: nat,
) -> bool
    decreases fuel, 0nat, 0nat,
{
    if fuel == 0 || !nodes.contains_key(id) || !children.contains_key(id) {
        false
    } else {
        same_node(g.current, nodes[id]) && graphs_match(g.children@, nodes, children, children[id], (fuel - 1) as nat)
    }
}

/// Each of `gs` is the subtree of the id at the same place in `ids`.
pub open spec fn graphs_match(
    gs: Seq<GraphNode>,
    nodes: Map<i32, FlutterSemanticsNode>,
    children: Map<i32, Seq<i32>>,
    ids: Seq<i32>,
    fuel: nat,
) -> bool
    decreases fuel, 1nat, ids.len(),
{
    if ids.len() == 0 {
        gs.len() == 0
    } else {
        &&& gs.len() == ids.len()
        &&& graphs_match(gs.drop_last(), nodes, children, ids.drop_last(), fuel)
        &&& graph_matches(gs.last(), nodes, children, ids.last(), fuel)
    }
}

proof fn lemma_complete_list_prefix(nodes: Map<i32, FlutterSemanticsNode>, children: Map<i32, Seq<i32>>, ids: Seq<i32>, fuel: nat, j: int)
    requires
        complete_list(nodes, children, ids, fuel),
        0 <= j <= ids.len(),
    ensures
        complete_list(nodes, children, ids.take(j), fuel),
    decreases ids.len(),
{
    if j == ids.len() {
        assert(ids.take(j) =~= ids);
    } else {
        lemma_complete_list_prefix(nodes, children, ids.drop_last(), fuel, j);
        assert(ids.drop_last().take(j) =~= ids.take(j));
    }
}

/// Where a label goes, in pixels, for a translation and a scale: their
/// product, rounded half away from zero; below zero it is zero.
pub open spec fn anchor_coord(trans: i64, scale: i64) -> usize {
    let p = trans * scale;
    let d = FIXED_ONE * FIXED_ONE;
    if p <= 0 {
        0
    } else if (p + d / 2) / d > usize::MAX {
        usize::MAX
    } else {
        ((p + d / 2) / d) as usize
    }
}

pub fn anchor(trans: i64, scale: i64) -> (c: usize)
    ensures
        c == anchor_coord(trans, scale),
{
    assert(-0x4000_0000_0000_0000_0000_0000_0000_0000 <= trans * scale <= 0x4000_0000_0000_0000_0000_0000_0000_0000)
        by (nonlinear_arith)
        requires
            i64::MIN <= trans <= i64::MAX,
            i64::MIN <= scale <= i64::MAX,
    ;
    let p: i128 = trans as i128 * scale as i128;
    let d: i128 = 0x1_0000_0000;
    assert(d == FIXED_ONE * FIXED_ONE);
    if p <= 0 {
        0
    } else {
        let r: u128 = ((p + d / 2) as u128) / (d as u128);
        if r > usize::MAX as u128 {
            usize::MAX
        } else {
            r as usize
        }
    }
}

/// A label and where it goes, in pixels.
pub struct LabelPosition {
    pub x: usize,
    pub y: usize,
    pub label: String,
}

pub open spec fn labels_view(v: Seq<LabelPosition>) -> Seq<(usize, usize, Seq<char>)> {
    v.map_values(|l: LabelPosition| (l.x, l.y, l.label@))
}

/// The labels of the subtree of `id`, depth first, whose parent's composed
/// transform is `parent`.
pub open spec fn labels_of(
    nodes: Map<i32, FlutterSemanticsNode>,
    children: Map<i32, Seq<i32>>,
    id: i32,
    parent: FlutterTransformation,
    fuel: nat,
) -> Seq<(usize, usize, Seq<char>)>
    decreases fuel, 0nat, 0nat,
{
    if fuel == 0 || !nodes.contains_key(id) || !children.contains_key(id) {
        Seq::empty()
    } else {
        let node = nodes[id];
        let t = merged(node.transform, parent);
        let own = if shows_label(node) {
            seq![(anchor_coord(t.trans_x, t.scale_x), anchor_coord(t.trans_y, t.scale_y), node.label@)]
        } else {
            Seq::empty()
        };
        own + labels_of_list(nodes, children, children[id], t, (fuel - 1) as nat)
    }
}

/// The labels of the subtrees of `ids`, in order.
pub open spec fn labels_of_list(
    nodes: Map<i32, FlutterSemanticsNode>,
    children: Map<i32, Seq<i32>>,
    ids: Seq<i32>,
    parent: FlutterTransformation,
    fuel: nat,
) -> Seq<(usize, usize, Seq<char>)>
    decreases fuel, 1nat, ids.len(),
{
    if ids.len() == 0 {
        Seq::empty()
    } else {
        labels_of_list(nodes, children, ids.drop_last(), parent, fuel) + labels_of(
            nodes,
            children,
            ids.last(),
            parent,
            fuel,
        )
    }
}

/// The accessibility tree as the engine has described it so far: each
/// node's description and its children, by id.
pub struct FlutterSemanticsTree {
    id_map: HashMap<i32, FlutterSemanticsNode>,
    adjacency_list: HashMap<i32, Vec<i32>>,
}

impl FlutterSemanticsTree {
    /// The description of each node, by id.
    pub closed spec fn nodes(&self) -> Map<i32, FlutterSemanticsNode> {
        self.id_map@
    }

    /// The children of each node, by id.
    pub closed spec fn children(&self) -> Map<i32, Seq<i32>> {
        Map::new(|id: i32| self.adjacency_list@.contains_key(id), |id: i32| self.adjacency_list@[id]@)
    }

    pub fn new() -> (t: FlutterSemanticsTree)
        ensures
            t.nodes() == Map::<i32, FlutterSemanticsNode>::empty(),
            t.children() == Map::<i32, Seq<i32>>::empty(),
    {
        let t = FlutterSemanticsTree { id_map: HashMap::new(), adjacency_list: HashMap::new() };
        assert(t.children() =~= Map::<i32, Seq<i32>>::empty());
        t
    }

    /// Merges the updates, in order, into the tree: each one replaces the
    /// description and the children of its own id, and nothing else.
    pub fn update(&mut self, updates: Vec<SemanticsUpdate>)
        ensures
            final(self).nodes() == apply_nodes(old(self).nodes(), updates@),
            final(self).children() == apply_children(old(self).children(), updates@),
    {
        let ghost all = updates@;
        let ghost n = updates@.len();
        let mut updates = updates;
        let mut reversed: Vec<SemanticsUpdate> = Vec::new();
        while updates.len() > 0
            invariant
                n == all.len(),
                updates@ == all.take(updates@.len() as int),
                reversed@.len() == n - updates@.len(),
                forall|k: int| 0 <= k < reversed@.len() ==> #[trigger] reversed@[k] == all[n - 1 - k],
            decreases updates@.len(),
        {
            let u = updates.pop().unwrap();
            reversed.push(u);
            assert(updates@ =~= all.take(updates@.len() as int));
        }
        let ghost start_children = self.children();
        while reversed.len() > 0
            invariant
                n == all.len(),
                reversed@.len() <= n,
                forall|k: int| 0 <= k < reversed@.len() ==> #[trigger] reversed@[k] == all[n - 1 - k],
                self.id_map@ == apply_nodes(old(self).nodes(), all.take(n - reversed@.len())),
                self.children() == apply_children(start_children, all.take(n - reversed@.len())),
            decreases reversed@.len(),
        {
            let ghost i = n - reversed@.len();
            let u = reversed.pop().unwrap();
            assert(u == all[i]);
            assert(all.take(i + 1).drop_last() =~= all.take(i));
            let SemanticsUpdate { id, children, node } = u;
            self.id_map.insert(id, node);
            self.adjacency_list.insert(id, children);
            assert(self.children() =~= apply_children(start_children, all.take(i)).insert(id, children@));
        }
        assert(all.take(n as int) =~= all);
    }

    /// The description of node `id`, if the engine gave one.
    pub fn node(&self, id: i32) -> (n: Option<&FlutterSemanticsNode>)
        ensures
            n is Some <==> self.nodes().contains_key(id),
            n matches Some(n) ==> *n == self.nodes()[id],
    {
        self.id_map.get(&id)
    }

    /// The children of node `id`, if the engine gave them.
    pub fn children_of(&self, id: i32) -> (c: Option<&Vec<i32>>)
        ensures
            c is Some <==> self.children().contains_key(id),
            c matches Some(c) ==> c@ == self.children()[id],
    {
        self.adjacency_list.get(&id)
    }

    /// Rebuilds the tree from the root. There is `None` where some node met
    /// on the way has no description or no children list yet, or the walk
    /// goes deeper than there are nodes.
    pub fn as_graph(&self) -> (g: Option<GraphNode>)
        ensures
            g is Some <==> complete(self.nodes(), self.children(), ROOT_ID, self.nodes().len()),
            g matches Some(g) ==> graph_matches(g, self.nodes(), self.children(), ROOT_ID, self.nodes().len()),
    {
        self.as_graph_recur(ROOT_ID, self.id_map.len())
    }

    fn as_graph_recur(&self, id: i32, fuel: usize) -> (g: Option<GraphNode>)
        ensures
            g is Some <==> complete(self.nodes(), self.children(), id, fuel as nat),
            g matches Some(g) ==> graph_matches(g, self.nodes(), self.children(), id, fuel as nat),
        decreases fuel,
    {
        if fuel == 0 {
            return None;
        }
        let node = match self.id_map.get(&id) {
            Some(n) => n,
            None => return None,
        };
        let kids = match self.adjacency_list.get(&id) {
            Some(k) => k,
            None => return None,
        };
        assert(self.children().contains_key(id));
        assert(kids@ == self.children()[id]);
        let ghost f: nat = (fuel - 1) as nat;
        let mut subtrees: Vec<GraphNode> = Vec::new();
        let mut i: usize = 0;
        assert(kids@.take(0) =~= Seq::<i32>::empty());
        while i < kids.len()
            invariant
                fuel > 0,
                f == fuel - 1,
                self.nodes().contains_key(id),
                self.children().contains_key(id),
                kids@ == self.children()[id],
                i <= kids@.len(),
                complete_list(self.nodes(), self.children(), kids@.take(i as int), f),
                graphs_match(subtrees@, self.nodes(), self.children(), kids@.take(i as int), f),
            decreases kids@.len() - i,
        {
            assert(kids@.take(i + 1).drop_last() =~= kids@.take(i as int));
            assert(kids@.take(i + 1).last() == kids@[i as int]);
            match self.as_graph_recur(kids[i], fuel - 1) {
                Some(g) => {
                    let ghost before = subtrees@;
                    subtrees.push(g);
                    assert(subtrees@.drop_last() =~= before);
                },
                None => {
                    proof {
                        if complete(self.nodes(), self.children(), id, fuel as nat) {
                            lemma_complete_list_prefix(self.nodes(), self.children(), kids@, f, i + 1);
                        }
                    }
                    return None;
                },
            }
            i += 1;
        }
        assert(kids@.take(kids@.len() as int) =~= kids@);
        Some(GraphNode { current: node.duplicate(), children: subtrees })
    }

    /// The labels to show, with where they go in pixels: a depth-first walk
    /// from the root in the children's order, composing each node's
    /// transform with its parent's, and leaving out hidden nodes and empty
    /// labels. There is `None` where the walk cannot be made (see
    /// `as_graph`).
    pub fn as_label_positions(&self) -> (labels: Option<Vec<LabelPosition>>)
        ensures
            labels is Some <==> complete(self.nodes(), self.children(), ROOT_ID, self.nodes().len()),
            labels matches Some(v) ==> labels_view(v@) == labels_of(
                self.nodes(),
                self.children(),
                ROOT_ID,
                identity(),
                self.nodes().len(),
            ),
    {
        let mut out: Vec<LabelPosition> = Vec::new();
        let root_transform = FlutterTransformation::empty();
        let ok = self.collect_labels(ROOT_ID, &root_transform, self.id_map.len(), &mut out);
        assert(labels_view(Seq::<LabelPosition>::empty()) =~= Seq::empty());
        if ok {
            assert(labels_view(out@) =~= labels_of(self.nodes(), self.children(), ROOT_ID, identity(), self.nodes().len()));
            Some(out)
        } else {
            None
        }
    }

    fn collect_labels(&self, id: i32, parent: &FlutterTransformation, fuel: usize, out: &mut Vec<LabelPosition>) -> (ok: bool)
        ensures
            ok == complete(self.nodes(), self.children(), id, fuel as nat),
            ok ==> labels_view(final(out)@) == labels_view(old(out)@) + labels_of(
                self.nodes(),
                self.children(),
                id,
                *parent,
                fuel as nat,
            ),
        decreases fuel,
    {
        if fuel == 0 {
            return false;
        }
        let node = match self.id_map.get(&id) {
            Some(n) => n,
            None => return false,
        };
        let kids = match self.adjacency_list.get(&id) {
            Some(k) => k,
            None => return false,
        };
        assert(self.children().contains_key(id));
        assert(kids@ == self.children()[id]);
        let ghost f: nat = (fuel - 1) as nat;
        let ghost start = labels_view(out@);
        let t = node.transform.merge_with(parent);
        let ghost own: Seq<(usize, usize, Seq<char>)> = if shows_label(*node) {
            seq![(anchor_coord(t.trans_x, t.scale_x), anchor_coord(t.trans_y, t.scale_y), node.label@)]
        } else {
            Seq::empty()
        };
        if node.shows_label() {
            let ghost before = out@;
            out.push(LabelPosition { x: anchor(t.trans_x, t.scale_x), y: anchor(t.trans_y, t.scale_y), label: node.label.clone() });
            assert(labels_view(out@) =~= labels_view(before).push((anchor_coord(t.trans_x, t.scale_x), anchor_coord(t.trans_y, t.scale_y), node.label@)));
        }
        assert(kids@.take(0) =~= Seq::<i32>::empty());
        assert(labels_view(out@) =~= start + own + labels_of_list(self.nodes(), self.children(), kids@.take(0), t, f));
        let mut i: usize = 0;
        while i < kids.len()
            invariant
                fuel > 0,
                f == fuel - 1,
                self.nodes().contains_key(id),
                self.children().contains_key(id),
                kids@ == self.children()[id],
                i <= kids@.len(),
                complete_list(self.nodes(), self.children(), kids@.take(i as int), f),
                labels_view(out@) == start + own + labels_of_list(self.nodes(), self.children(), kids@.take(i as int), t, f),
            decreases kids@.len() - i,
        {
            assert(kids@.take(i + 1).drop_last() =~= kids@.take(i as int));
            assert(kids@.take(i + 1).last() == kids@[i as int]);
            let ok = self.collect_labels(kids[i], &t, fuel - 1, out);
            if !ok {
                proof {
                    if complete(self.nodes(), self.children(), id, fuel as nat) {
                        lemma_complete_list_prefix(self.nodes(), self.children(), kids@, f, i + 1);
                    }
                }
                return false;
            }
            assert(labels_view(out@) =~= start + own + labels_of_list(self.nodes(), self.children(), kids@.take(i + 1), t, f));
            i += 1;
        }
        assert(kids@.take(kids@.len() as int) =~= kids@);
        assert(labels_view(out@) =~= labels_view(old(out)@) + labels_of(self.nodes(), self.children(), id, *parent, fuel as nat));
        true
    }
}

} // verus!

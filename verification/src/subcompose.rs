//! Children of an item.
//!
//! The content of one item is instantiated as a handful of root nodes. Once
//! they are measured, the item's size follows: the nodes are stacked along
//! the scrolling axis, and the widest of them gives the size across it.

use crate::extent::{is_extent, MAX_EXTENT};
use crate::measured_item::LazyListMeasuredItem;
use vstd::prelude::*;

verus! {

/// Identifier of an instantiated node.
pub type NodeId = usize;

/// Width and height of a node.
#[derive(Clone, Copy, Debug, PartialEq, Eq, Structural)]
pub struct Size {
    pub width: i64,
    pub height: i64,
}

/// A node that has been instantiated for an item and may have been measured.
#[derive(Clone, Copy, Debug)]
pub struct SubcomposeChild {
    node_id: NodeId,
    measured_size: Option<Size>,
}

impl SubcomposeChild {
    /// The identifier of the node.
    pub closed spec fn spec_node_id(&self) -> NodeId {
        self.node_id
    }

    /// The measured size of the node, if it has been measured.
    pub closed spec fn spec_measured_size(&self) -> Option<Size> {
        self.measured_size
    }

    /// The size of the node; zero if it has not been measured.
    pub open spec fn spec_size(&self) -> Size {
        match self.spec_measured_size() {
            Some(size) => size,
            None => Size { width: 0, height: 0 },
        }
    }

    /// A node that has not been measured.
    pub fn new(node_id: NodeId) -> (child: Self)
        ensures
            child.spec_node_id() == node_id,
            child.spec_measured_size() is None,
    {
        Self { node_id, measured_size: None }
    }

    /// A node of known size.
    pub fn with_size(node_id: NodeId, size: Size) -> (child: Self)
        ensures
            child.spec_node_id() == node_id,
            child.spec_measured_size() == Some(size),
    {
        Self { node_id, measured_size: Some(size) }
    }

    /// The identifier of the node.
    pub fn node_id(&self) -> (id: NodeId)
        ensures
            id == self.spec_node_id(),
    {
        self.node_id
    }

    /// The size of the node; zero if it has not been measured.
    pub fn size(&self) -> (size: Size)
        ensures
            size == self.spec_size(),
    {
        match self.measured_size {
            Some(size) => size,
            None => Size { width: 0, height: 0 },
        }
    }

    /// The width of the node; zero if it has not been measured.
    pub fn width(&self) -> (width: i64)
        ensures
            width == self.spec_size().width,
    {
        self.size().width
    }

    /// The height of the node; zero if it has not been measured.
    pub fn height(&self) -> (height: i64)
        ensures
            height == self.spec_size().height,
    {
        self.size().height
    }

    /// Records the measured size of the node.
    pub fn set_size(&mut self, size: Size)
        ensures
            final(self).spec_node_id() == old(self).spec_node_id(),
            final(self).spec_measured_size() == Some(size),
    {
        self.measured_size = Some(size);
    }
}

/// A measured node that is ready to be placed.
#[derive(Clone, Copy, Debug)]
pub struct SubcomposePlaceable {
    node_id: NodeId,
    size: Size,
}

impl SubcomposePlaceable {
    /// The identifier of the node.
    pub closed spec fn spec_node_id(&self) -> NodeId {
        self.node_id
    }

    /// The size of the node.
    pub closed spec fn spec_size(&self) -> Size {
        self.size
    }

    /// The node `node_id` measured as `size`.
    pub fn new(node_id: NodeId, size: Size) -> (placeable: Self)
        ensures
            placeable.spec_node_id() == node_id,
            placeable.spec_size() == size,
    {
        Self { node_id, size }
    }

    /// The identifier of the node.
    pub fn node_id(&self) -> (id: NodeId)
        ensures
            id == self.spec_node_id(),
    {
        self.node_id
    }

    /// The width of the node.
    pub fn width(&self) -> (width: i64)
        ensures
            width == self.spec_size().width,
    {
        self.size.width
    }

    /// The height of the node.
    pub fn height(&self) -> (height: i64)
        ensures
            height == self.spec_size().height,
    {
        self.size.height
    }
}

/// The length nearest to `x`.
pub open spec fn clamp_extent(x: int) -> int {
    if x < 0 {
        0
    } else if x > MAX_EXTENT {
        MAX_EXTENT as int
    } else {
        x
    }
}

/// Size of a node along the scrolling axis, as a length.
pub open spec fn main_size(placeable: SubcomposePlaceable, is_vertical: bool) -> int {
    clamp_extent(
        if is_vertical {
            placeable.spec_size().height as int
        } else {
            placeable.spec_size().width as int
        },
    )
}

/// Size of a node across the scrolling axis.
pub open spec fn cross_size(placeable: SubcomposePlaceable, is_vertical: bool) -> int {
    if is_vertical {
        placeable.spec_size().width as int
    } else {
        placeable.spec_size().height as int
    }
}

/// Sizes of the nodes along the scrolling axis, added up.
pub open spec fn stacked_size(children: Seq<SubcomposePlaceable>, is_vertical: bool) -> int
    decreases children.len(),
{
    if children.len() == 0 {
        0
    } else {
        stacked_size(children.drop_last(), is_vertical) + main_size(children.last(), is_vertical)
    }
}

/// Largest size of the nodes across the scrolling axis; zero at least.
pub open spec fn widest_size(children: Seq<SubcomposePlaceable>, is_vertical: bool) -> int
    decreases children.len(),
{
    if children.len() == 0 {
        0
    } else {
        let rest = widest_size(children.drop_last(), is_vertical);
        let last = cross_size(children.last(), is_vertical);
        if last > rest {
            last
        } else {
            rest
        }
    }
}

/// Offset of every node from the start of its item.
pub open spec fn stacked_offsets(children: Seq<SubcomposePlaceable>, is_vertical: bool) -> Seq<
    i64,
> {
    Seq::new(
        children.len(),
        |j: int| clamp_extent(stacked_size(children.take(j), is_vertical)) as i64,
    )
}

/// The stacked size of lengths never shrinks as nodes are added.
proof fn lemma_stacked_size_nonnegative(children: Seq<SubcomposePlaceable>, is_vertical: bool)
    ensures
        0 <= stacked_size(children, is_vertical) <= children.len() * MAX_EXTENT,
    decreases children.len(),
{
    if children.len() > 0 {
        lemma_stacked_size_nonnegative(children.drop_last(), is_vertical);
        assert((children.len() - 1) * MAX_EXTENT + MAX_EXTENT == children.len() * MAX_EXTENT)
            by (nonlinear_arith);
    }
}

/// Makes the measured item of the item at `index` from its measured root
/// nodes: the nodes are stacked along the scrolling axis, so the item is as
/// long as all of them together (held within `MAX_EXTENT`) and as wide as the
/// widest. Returns the item and the offset of every node within it.
pub fn measured_item_from_children(
    index: usize,
    key: u64,
    content_type: Option<u64>,
    is_vertical: bool,
    children: &[SubcomposePlaceable],
) -> (out: (LazyListMeasuredItem, Vec<i64>))
    ensures
        out.0.index == index,
        out.0.key == key,
        out.0.content_type == content_type,
        out.0.offset == 0,
        out.0.main_axis_size == clamp_extent(stacked_size(children@, is_vertical)),
        out.0.cross_axis_size == widest_size(children@, is_vertical),
        out.0.node_ids@ == Seq::new(children@.len(), |j: int| children@[j].spec_node_id() as u64),
        out.1@ == stacked_offsets(children@, is_vertical),
        is_extent(out.0.main_axis_size as int),
{
    let mut total_main_size: i64 = 0;
    let mut max_cross_size: i64 = 0;
    let mut node_ids: Vec<u64> = Vec::new();
    let mut child_offsets: Vec<i64> = Vec::new();
    let mut i: usize = 0;
    while i < children.len()
        invariant
            i <= children@.len(),
            total_main_size == clamp_extent(stacked_size(children@.take(i as int), is_vertical)),
            max_cross_size == widest_size(children@.take(i as int), is_vertical),
            node_ids@ == Seq::new(i as nat, |j: int| children@[j].spec_node_id() as u64),
            child_offsets@ == Seq::new(
                i as nat,
                |j: int| clamp_extent(stacked_size(children@.take(j), is_vertical)) as i64,
            ),
        decreases children.len() - i,
    {
        let child = &children[i];
        let (main, cross): (i64, i64) = if is_vertical {
            (child.height(), child.width())
        } else {
            (child.width(), child.height())
        };
        let length: i64 = if main < 0 {
            0
        } else if main > MAX_EXTENT {
            MAX_EXTENT
        } else {
            main
        };
        proof {
            let done = children@.take(i as int);
            let next = children@.take(i + 1);
            assert(next.drop_last() =~= done);
            assert(next.last() == children@[i as int]);
            lemma_stacked_size_nonnegative(done, is_vertical);
            assert(length == main_size(children@[i as int], is_vertical));
        }
        child_offsets.push(total_main_size);
        node_ids.push(child.node_id() as u64);
        let sum: i64 = total_main_size + length;
        total_main_size = if sum > MAX_EXTENT {
            MAX_EXTENT
        } else {
            sum
        };
        if cross > max_cross_size {
            max_cross_size = cross;
        }
        i += 1;
        proof {
            assert(node_ids@ =~= Seq::new(i as nat, |j: int| children@[j].spec_node_id() as u64));
            assert(child_offsets@ =~= Seq::new(
                i as nat,
                |j: int| clamp_extent(stacked_size(children@.take(j), is_vertical)) as i64,
            ));
        }
    }
    proof {
        assert(children@.take(i as int) =~= children@);
        assert(child_offsets@ =~= stacked_offsets(children@, is_vertical));
    }
    let mut item = LazyListMeasuredItem::new(
        index,
        key,
        content_type,
        total_main_size,
        max_cross_size,
    );
    item.node_ids = node_ids;
    (item, child_offsets)
}

} // verus!

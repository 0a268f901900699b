//! Selecting nodes with a rectangle.

use vstd::prelude::*;
use crate::geometry::Rect;
use crate::key::NodeId;

verus! {

/// The selection after a selection rectangle was held against the nodes'
/// rectangles, taken in order: each node of the graph whose rectangle meets
/// the area joins the selection, unless it is in it already.
pub open spec fn box_selected(
    selected: Seq<NodeId>,
    rects: Seq<(NodeId, Rect)>,
    area: Rect,
    live: Set<u64>,
) -> Seq<NodeId>
    decreases rects.len(),
{
    if rects.len() == 0 {
        selected
    } else {
        let earlier = box_selected(selected, rects.drop_last(), area, live);
        let (id, rect) = rects.last();
        if rect.overlaps(area) && live.contains(id@) && !earlier.contains(id) {
            earlier.push(id)
        } else {
            earlier
        }
    }
}

/// Some rectangle listed for node `n` meets the area.
pub open spec fn is_boxed(rects: Seq<(NodeId, Rect)>, area: Rect, n: NodeId) -> bool {
    exists|j: int| 0 <= j < rects.len() && #[trigger] rects[j].0 == n && rects[j].1.overlaps(area)
}

/// After a selection rectangle was applied, a node is selected exactly if
/// it was selected before or is a node of the graph with a rectangle that
/// meets the area. No node is selected twice.
pub proof fn lemma_box_selected(
    selected: Seq<NodeId>,
    rects: Seq<(NodeId, Rect)>,
    area: Rect,
    live: Set<u64>,
)
    requires
        selected.no_duplicates(),
    ensures
        box_selected(selected, rects, area, live).no_duplicates(),
        forall|n: NodeId|
            box_selected(selected, rects, area, live).contains(n) <==> selected.contains(n) || (
            live.contains(n@) && is_boxed(rects, area, n)),
    decreases rects.len(),
{
    let result = box_selected(selected, rects, area, live);
    if rects.len() == 0 {
    } else {
        let front = rects.drop_last();
        lemma_box_selected(selected, front, area, live);
        let earlier = box_selected(selected, front, area, live);
        let (id, rect) = rects.last();
        let joins = rect.overlaps(area) && live.contains(id@) && !earlier.contains(id);
        assert forall|n: NodeId| is_boxed(rects, area, n) <==> is_boxed(front, area, n) || (n == id
            && rect.overlaps(area)) by {
            if is_boxed(front, area, n) {
                let j = choose|j: int|
                    0 <= j < front.len() && #[trigger] front[j].0 == n && front[j].1.overlaps(area);
                assert(rects[j].0 == n && rects[j].1.overlaps(area));
            }
            if n == id && rect.overlaps(area) {
                assert(rects[rects.len() - 1].0 == n);
            }
            if is_boxed(rects, area, n) {
                let j = choose|j: int|
                    0 <= j < rects.len() && #[trigger] rects[j].0 == n && rects[j].1.overlaps(area);
                if j < front.len() {
                    assert(front[j].0 == n && front[j].1.overlaps(area));
                }
            }
        }
        assert forall|n: NodeId| result.contains(n) <==> earlier.contains(n) || (joins && n
            == id) by {
            if joins {
                if result.contains(n) {
                    let j = choose|j: int| 0 <= j < result.len() && result[j] == n;
                    if j < earlier.len() {
                        assert(earlier[j] == n);
                    }
                }
                if earlier.contains(n) {
                    let j = choose|j: int| 0 <= j < earlier.len() && earlier[j] == n;
                    assert(result[j] == n);
                }
                if n == id {
                    assert(result[result.len() - 1] == n);
                }
            }
        }
        assert forall|n: NodeId|
            result.contains(n) <==> selected.contains(n) || (live.contains(n@) && is_boxed(
                rects,
                area,
                n,
            )) by {
            assert(earlier.contains(n) <==> selected.contains(n) || (live.contains(n@) && is_boxed(
                front,
                area,
                n,
            )));
            assert(is_boxed(rects, area, n) <==> is_boxed(front, area, n) || (n == id
                && rect.overlaps(area)));
            assert(result.contains(n) <==> earlier.contains(n) || (joins && n == id));
        }
        if joins {
            assert forall|a: int, b: int|
                0 <= a < result.len() && 0 <= b < result.len() && a != b implies result[a]
                != result[b] by {
                if a < earlier.len() {
                    assert(earlier.contains(earlier[a]));
                }
                if b < earlier.len() {
                    assert(earlier.contains(earlier[b]));
                }
            }
        }
    }
}

} // verus!

//! Canvas layers: which layer takes new strokes and in which order the
//! strokes of the visible layers are drawn. Layers and strokes are known
//! here by what these rules read of them: flags, stacking order and the
//! 128-bit values of their identifiers.

use vstd::prelude::*;

verus! {

/// Canvas mode: an unbounded canvas with pan and zoom, or a page of fixed
/// size.
#[derive(Debug, Clone, Copy, PartialEq, Eq, Structural)]
pub enum CanvasMode {
    Infinite,
    FixedPage { width: u32, height: u32 },
}

/// What the layer rules read of a layer.
#[derive(Debug, Clone, Copy, PartialEq, Eq, Structural)]
pub struct LayerKey {
    pub visible: bool,
    pub locked: bool,
    /// Stacking order: higher is on top.
    pub order: i32,
}

/// A layer can take new strokes when it is visible and not locked.
pub open spec fn is_editable(l: LayerKey) -> bool {
    l.visible && !l.locked
}

/// Layer `i` is the active one: editable, with the highest order among the
/// editable layers, and the last such layer when several share that order.
pub open spec fn is_active_layer(ls: Seq<LayerKey>, i: int) -> bool {
    &&& 0 <= i < ls.len()
    &&& is_editable(ls[i])
    &&& forall|j: int| 0 <= j < ls.len() && is_editable(#[trigger] ls[j]) ==> ls[j].order <= ls[i].order
    &&& forall|j: int| i < j < ls.len() && is_editable(#[trigger] ls[j]) ==> ls[j].order < ls[i].order
}

/// The layer new strokes go to: the topmost editable layer (the last one
/// listed among equals), or `None` when no layer is editable.
pub fn active_layer(layers: &Vec<LayerKey>) -> (res: Option<usize>)
    ensures
        match res {
            Some(i) => is_active_layer(layers@, i as int),
            None => forall|j: int| 0 <= j < layers@.len() ==> !is_editable(#[trigger] layers@[j]),
        },
{
    let mut best: Option<usize> = None;
    let mut i: usize = 0;
    while i < layers.len()
        invariant
            i <= layers@.len(),
            match best {
                Some(b) => {
                    &&& b < i
                    &&& is_editable(layers@[b as int])
                    &&& forall|j: int|
                        0 <= j < i && is_editable(#[trigger] layers@[j]) ==> layers@[j].order
                            <= layers@[b as int].order
                    &&& forall|j: int|
                        b < j < i && is_editable(#[trigger] layers@[j]) ==> layers@[j].order
                            < layers@[b as int].order
                },
                None => forall|j: int| 0 <= j < i ==> !is_editable(#[trigger] layers@[j]),
            },
        decreases layers@.len() - i,
    {
        let l = layers[i];
        if l.visible && !l.locked {
            match best {
                Some(b) => {
                    if layers[b].order <= l.order {
                        best = Some(i);
                    }
                },
                None => {
                    best = Some(i);
                },
            }
        }
        i = i + 1;
    }
    best
}

/// Layer `j` is drawn before layer `i`: lower in the stack, or at the same
/// order and listed earlier.
pub open spec fn drawn_before(ls: Seq<LayerKey>, j: int, i: int) -> bool {
    ls[j].order < ls[i].order || (ls[j].order == ls[i].order && j < i)
}

/// `ord` lists the visible layers, each once, from the bottom up.
pub open spec fn is_drawing_order(ls: Seq<LayerKey>, ord: Seq<usize>) -> bool {
    &&& forall|k: int| 0 <= k < ord.len() ==> #[trigger] ord[k] < ls.len() && ls[ord[k] as int].visible
    &&& forall|i: int| 0 <= i < ls.len() && (#[trigger] ls[i]).visible ==> ord.contains(i as usize)
    &&& forall|a: int, b: int|
        0 <= a < b < ord.len() ==> drawn_before(ls, #[trigger] ord[a] as int, #[trigger] ord[b] as int)
}

/// The visible layers from the bottom up.
pub fn drawing_order(layers: &Vec<LayerKey>) -> (res: Vec<usize>)
    ensures
        is_drawing_order(layers@, res@),
{
    let mut ord: Vec<usize> = Vec::new();
    let mut i: usize = 0;
    while i < layers.len()
        invariant
            i <= layers@.len(),
            forall|k: int| 0 <= k < ord@.len() ==> #[trigger] ord@[k] < i && layers@[ord@[k] as int].visible,
            forall|m: int| 0 <= m < i && (#[trigger] layers@[m]).visible ==> ord@.contains(m as usize),
            forall|a: int, b: int|
                0 <= a < b < ord@.len() ==> drawn_before(
                    layers@,
                    #[trigger] ord@[a] as int,
                    #[trigger] ord@[b] as int,
                ),
        decreases layers@.len() - i,
    {
        if layers[i].visible {
            let key = layers[i].order;
            let mut p: usize = 0;
            while p < ord.len() && layers[ord[p]].order <= key
                invariant
                    p <= ord@.len(),
                    forall|k: int| 0 <= k < ord@.len() ==> #[trigger] ord@[k] < i && layers@[ord@[k] as int].visible,
                    forall|k: int| 0 <= k < p ==> layers@[#[trigger] ord@[k] as int].order <= key,
                    i < layers@.len(),
                    key == layers@[i as int].order,
                decreases ord@.len() - p,
            {
                p = p + 1;
            }
            proof {
                if p < ord@.len() {
                    assert(layers@[ord@[p as int] as int].order > key);
                }
            }
            let ghost old_ord = ord@;
            ord.insert(p, i);
            proof {
                assert forall|k: int| 0 <= k < ord@.len() implies #[trigger] ord@[k] < i + 1
                    && layers@[ord@[k] as int].visible by {
                    if k < p {
                        assert(ord@[k] == old_ord[k]);
                    } else if k > p {
                        assert(ord@[k] == old_ord[k - 1]);
                    }
                }
                assert forall|m: int| 0 <= m < i + 1 && (#[trigger] layers@[m]).visible implies ord@.contains(
                    m as usize,
                ) by {
                    if m == i {
                        assert(ord@[p as int] == i);
                    } else {
                        let w = choose|w: int| 0 <= w < old_ord.len() && old_ord[w] == m as usize;
                        if w < p {
                            assert(ord@[w] == m as usize);
                        } else {
                            assert(ord@[w + 1] == m as usize);
                        }
                    }
                }
                assert forall|a: int, b: int| 0 <= a < b < ord@.len() implies drawn_before(
                    layers@,
                    #[trigger] ord@[a] as int,
                    #[trigger] ord@[b] as int,
                ) by {
                    if b < p {
                        assert(ord@[a] == old_ord[a] && ord@[b] == old_ord[b]);
                    } else if b == p {
                        assert(ord@[a] == old_ord[a]);
                    } else if a < p {
                        assert(ord@[a] == old_ord[a] && ord@[b] == old_ord[b - 1]);
                        assert(drawn_before(layers@, old_ord[a] as int, old_ord[p as int] as int)
                            || a == p);
                    } else if a == p {
                        assert(ord@[b] == old_ord[b - 1]);
                    } else {
                        assert(ord@[a] == old_ord[a - 1] && ord@[b] == old_ord[b - 1]);
                    }
                }
            }
        }
        i = i + 1;
    }
    ord
}

/// The position of the first stroke with identifier `id`, if any.
pub open spec fn first_with_id(ids: Seq<u128>, id: u128, p: int) -> bool {
    0 <= p < ids.len() && ids[p] == id && forall|q: int| 0 <= q < p ==> ids[q] != id
}

/// The positions of the strokes that the identifiers `sids` name (each the
/// first stroke with that identifier; identifiers of no stroke are passed
/// over).
pub open spec fn strokes_named(stroke_ids: Seq<u128>, sids: Seq<u128>) -> Seq<usize>
    decreases sids.len(),
{
    if sids.len() == 0 {
        Seq::empty()
    } else {
        let rest = strokes_named(stroke_ids, sids.drop_last());
        let id = sids.last();
        if stroke_ids.contains(id) {
            rest.push((choose|p: int| first_with_id(stroke_ids, id, p)) as usize)
        } else {
            rest
        }
    }
}

/// The strokes of the first `n` layers of `ord`, layer after layer.
pub open spec fn strokes_in_order(
    ord: Seq<usize>,
    layer_strokes: Seq<Seq<u128>>,
    stroke_ids: Seq<u128>,
    n: int,
) -> Seq<usize>
    decreases n,
{
    if n <= 0 {
        Seq::empty()
    } else {
        strokes_in_order(ord, layer_strokes, stroke_ids, n - 1) + strokes_named(
            stroke_ids,
            layer_strokes[ord[n - 1] as int],
        )
    }
}

/// The position of the first stroke with identifier `id`.
fn find_stroke(stroke_ids: &Vec<u128>, id: u128) -> (res: Option<usize>)
    ensures
        match res {
            Some(p) => first_with_id(stroke_ids@, id, p as int),
            None => !stroke_ids@.contains(id),
        },
{
    let mut p: usize = 0;
    while p < stroke_ids.len()
        invariant
            p <= stroke_ids@.len(),
            forall|q: int| 0 <= q < p ==> stroke_ids@[q] != id,
        decreases stroke_ids@.len() - p,
    {
        if stroke_ids[p] == id {
            return Some(p);
        }
        p = p + 1;
    }
    None
}

/// The strokes to draw, bottom layer first: for each visible layer in
/// drawing order, the strokes its identifier list names, in that list's
/// order. `layer_strokes[i]` lists the stroke identifiers of layer `i`,
/// `stroke_ids` the identifiers of the canvas's strokes.
pub fn visible_strokes(
    layers: &Vec<LayerKey>,
    layer_strokes: &Vec<Vec<u128>>,
    stroke_ids: &Vec<u128>,
) -> (res: Vec<usize>)
    requires
        layer_strokes@.len() == layers@.len(),
    ensures
        exists|ord: Seq<usize>|
            {
                &&& is_drawing_order(layers@, ord)
                &&& res@ == strokes_in_order(
                    ord,
                    layer_strokes@.map_values(|v: Vec<u128>| v@),
                    stroke_ids@,
                    ord.len() as int,
                )
            },
{
    let ord = drawing_order(layers);
    let ghost ls = layer_strokes@.map_values(|v: Vec<u128>| v@);
    let mut out: Vec<usize> = Vec::new();
    let mut k: usize = 0;
    while k < ord.len()
        invariant
            is_drawing_order(layers@, ord@),
            layer_strokes@.len() == layers@.len(),
            ls == layer_strokes@.map_values(|v: Vec<u128>| v@),
            k <= ord@.len(),
            out@ == strokes_in_order(ord@, ls, stroke_ids@, k as int),
        decreases ord@.len() - k,
    {
        let li = ord[k];
        assert(li < layers@.len());
        let sids = &layer_strokes[li];
        assert(ls[li as int] == sids@);
        let ghost base = out@;
        let mut m: usize = 0;
        while m < sids.len()
            invariant
                m <= sids@.len(),
                out@ == base + strokes_named(stroke_ids@, sids@.take(m as int)),
            decreases sids@.len() - m,
        {
            assert(sids@.take(m + 1).drop_last() =~= sids@.take(m as int));
            match find_stroke(stroke_ids, sids[m]) {
                Some(p) => {
                    out.push(p);
                    proof {
                        let q = choose|q: int| first_with_id(stroke_ids@, sids@[m as int], q);
                        assert(q == p as int) by {
                            if q < p {
                                assert(stroke_ids@[q] != sids@[m as int]);
                            } else if q > p {
                                assert(stroke_ids@[p as int] != sids@[m as int]);
                            }
                        }
                        assert(stroke_ids@.contains(sids@[m as int]));
                    }
                    assert(out@ =~= base + strokes_named(stroke_ids@, sids@.take(m + 1)));
                },
                None => {
                    assert(out@ =~= base + strokes_named(stroke_ids@, sids@.take(m + 1)));
                },
            }
            m = m + 1;
        }
        assert(sids@.take(m as int) =~= sids@);
        k = k + 1;
    }
    out
}

} // verus!

//! Black-and-white pictures and their connected parts.
use vstd::prelude::*;

verus! {

/// A black-and-white picture, row by row.
pub struct Mask {
    pub width: int,
    pub height: int,
    pub dark: Seq<bool>,
}

impl Mask {
    /// Whether a pixel is dark. Around the picture it is light.
    pub open spec fn at(self, x: int, y: int) -> bool {
        0 <= x < self.width && 0 <= y < self.height && self.dark[y * self.width + x]
    }
}

/// A black-and-white picture, row by row.
pub struct Raster {
    pub width: usize,
    pub height: usize,
    pub dark: Vec<bool>,
}

impl View for Raster {
    type V = Mask;

    open spec fn view(&self) -> Mask {
        Mask { width: self.width as int, height: self.height as int, dark: self.dark@ }
    }
}

impl Raster {
    /// There is one mark for each pixel.
    pub open spec fn well_formed(self) -> bool {
        self.dark@.len() == self.width * self.height
    }

    /// Whether a pixel is dark. Around the picture it is light.
    pub fn is_dark(&self, x: usize, y: usize) -> (dark: bool)
        requires
            self.well_formed(),
        ensures
            dark == self@.at(x as int, y as int),
    {
        if x < self.width && y < self.height {
            proof {
                lemma_index(self.width as int, self.height as int, x as int, y as int);
                assert(self.dark.len() == self.dark@.len());
            }
            self.dark[y * self.width + x]
        } else {
            false
        }
    }
}

/// The place of a pixel in a row-by-row list.
pub proof fn lemma_index(width: int, height: int, x: int, y: int)
    requires
        0 <= x < width,
        0 <= y < height,
    ensures
        0 <= y * width,
        0 <= y * width + x < width * height,
{
    assert(0 <= y * width && y * width + x < width * height) by (nonlinear_arith)
        requires
            0 <= x < width,
            0 <= y < height,
    ;
}

/// Whether two pixels touch at an edge, by their places in the row-by-row list.
pub open spec fn adjacent(width: int, p: int, q: int) -> bool {
    ||| q == p + 1 && q % width != 0
    ||| p == q + 1 && p % width != 0
    ||| q == p + width
    ||| p == q + width
}

/// Whether a labelling gives dark pixels that touch the same label.
pub open spec fn respects(m: Mask, label: spec_fn(int) -> int) -> bool {
    forall|p: int, q: int|
        0 <= p < m.dark.len() && 0 <= q < m.dark.len() && m.dark[p] && m.dark[q] && #[trigger] adjacent(
            m.width,
            p,
            q,
        ) ==> label(p) == label(q)
}

/// Whether two dark pixels belong to the same connected part of the picture: no
/// labelling that is the same on touching dark pixels tells them apart.
pub open spec fn connected(m: Mask, p: int, q: int) -> bool {
    forall|label: spec_fn(int) -> int| #[trigger] respects(m, label) ==> label(p) == label(q)
}

/// What is known of a labelling while the parts are being marked. The places
/// that have a label are listed in `order`, and the first `done` of them have
/// handed it on.
spec fn marking(m: Mask, labels: Seq<usize>, order: Seq<usize>, done: int) -> bool {
    let n = m.dark.len();
    &&& labels.len() == n
    &&& 0 <= done <= order.len()
    &&& order.no_duplicates()
    &&& forall|i: int|
        0 <= i < order.len() ==> (#[trigger] order[i]) < n && m.dark[order[i] as int]
            && labels[order[i] as int] < n
    &&& forall|p: int|
        0 <= p < n && #[trigger] labels[p] < n ==> order.contains(p as usize)
    &&& forall|p: int| 0 <= p < n ==> #[trigger] labels[p] <= n
    &&& forall|p: int, label: spec_fn(int) -> int|
        0 <= p < n && #[trigger] labels[p] < n && #[trigger] respects(m, label) ==> label(p)
            == label(labels[p] as int)
    &&& forall|i: int, q: int|
        0 <= i < done && 0 <= q < n && m.dark[q] && #[trigger] adjacent(
            m.width,
            order[i] as int,
            q,
        ) ==> labels[q] == labels[order[i] as int]
}

/// A marking in which the places that have not handed their label on are all
/// labelled `mark`.
spec fn growing(m: Mask, labels: Seq<usize>, order: Seq<usize>, done: int, mark: usize) -> bool {
    &&& marking(m, labels, order, done)
    &&& forall|i: int| done <= i < order.len() ==> labels[(#[trigger] order[i]) as int] == mark
}

/// No label that was given is changed.
spec fn keeps(n: nat, before: Seq<usize>, after: Seq<usize>) -> bool {
    forall|k: int| 0 <= k < n && before[k] < n ==> #[trigger] after[k] == before[k]
}

/// Hands the label of the next place in the list on to a dark place that
/// touches it.
fn hand_on(raster: &Raster, labels: &mut Vec<usize>, order: &mut Vec<usize>, done: usize, q: usize)
    requires
        raster.well_formed(),
        done < old(order)@.len(),
        q < raster@.dark.len(),
        growing(
            raster@,
            old(labels)@,
            old(order)@,
            done as int,
            old(labels)@[old(order)@[done as int] as int],
        ),
        adjacent(raster@.width, old(order)@[done as int] as int, q as int),
    ensures
        done < final(order)@.len(),
        final(order)@[done as int] == old(order)@[done as int],
        growing(
            raster@,
            final(labels)@,
            final(order)@,
            done as int,
            old(labels)@[old(order)@[done as int] as int],
        ),
        raster@.dark[q as int] ==> final(labels)@[q as int] == old(labels)@[old(
            order,
        )@[done as int] as int],
        keeps(raster@.dark.len(), old(labels)@, final(labels)@),
{
    let n: usize = raster.dark.len();
    let p: usize = order[done];
    if !raster.dark[q] {
        return;
    }
    if labels[q] < n {
        proof {
            let i = order@.index_of(q);
            assert(order@[i] == q);
            if i < done {
                assert(adjacent(raster@.width, order@[i] as int, p as int));
            } else {
                assert(labels@[order@[i] as int] == labels@[p as int]);
            }
        }
        return;
    }
    let ghost before = labels@;
    let ghost listed = order@;
    labels.set(q, labels[p]);
    order.push(q);
    proof {
        assert(!listed.contains(q)) by {
            if listed.contains(q) {
                let i = listed.index_of(q);
                assert(listed[i] == q);
            }
        }
        assert(order@.no_duplicates());
        assert forall|k: int| 0 <= k < n && #[trigger] labels@[k] < n implies order@.contains(
            k as usize,
        ) by {
            if k == q {
                assert(order@[listed.len() as int] == q);
            } else {
                assert(before[k] < n);
                let i = listed.index_of(k as usize);
                assert(order@[i] == k);
            }
        }
        assert forall|k: int, label: spec_fn(int) -> int|
            0 <= k < n && #[trigger] labels@[k] < n && #[trigger] respects(raster@, label) implies label(
            k,
        ) == label(labels@[k] as int) by {
            if k == q {
                assert(label(p as int) == label(q as int));
                assert(before[p as int] < n);
            } else {
                assert(before[k] < n);
            }
        }
        assert forall|i: int, k: int|
            0 <= i < done && 0 <= k < n && raster@.dark[k] && #[trigger] adjacent(
                raster@.width,
                order@[i] as int,
                k,
            ) implies labels@[k] == labels@[order@[i] as int] by {
            assert(order@[i] == listed[i]);
            assert(adjacent(raster@.width, listed[i] as int, k));
            assert(before[k] == before[listed[i] as int]);
        }
    }
}

/// A list of different places under a limit is no longer than the limit.
proof fn lemma_places(places: Seq<usize>, limit: nat)
    requires
        places.no_duplicates(),
        forall|i: int| 0 <= i < places.len() ==> #[trigger] places[i] < limit,
    ensures
        places.len() <= limit,
    decreases limit,
{
    if limit == 0 {
        if places.len() > 0 {
            assert(places[0] < limit);
        }
    } else {
        let top = (limit - 1) as nat;
        if places.contains(top as usize) {
            let i = places.index_of(top as usize);
            let rest = places.remove(i);
            assert forall|j: int| 0 <= j < rest.len() implies #[trigger] rest[j] < top by {
                assert(rest[j] == places[if j < i { j } else { j + 1 }]);
            }
            lemma_places(rest, top);
        } else {
            assert forall|j: int| 0 <= j < places.len() implies #[trigger] places[j] < top by {
                assert(places.contains(places[j]));
            }
            lemma_places(places, top);
        }
    }
}

/// Hands the label of the next place in the list on to all that touch it.
fn spread(raster: &Raster, labels: &mut Vec<usize>, order: &mut Vec<usize>, done: usize)
    requires
        raster.well_formed(),
        raster@.width > 0,
        done < old(order)@.len(),
        growing(
            raster@,
            old(labels)@,
            old(order)@,
            done as int,
            old(labels)@[old(order)@[done as int] as int],
        ),
    ensures
        growing(
            raster@,
            final(labels)@,
            final(order)@,
            done + 1,
            old(labels)@[old(order)@[done as int] as int],
        ),
        keeps(raster@.dark.len(), old(labels)@, final(labels)@),
{
    let n: usize = raster.dark.len();
    let width: usize = raster.width;
    let p: usize = order[done];
    if p + 1 < n && (p + 1) % width != 0 {
        hand_on(raster, labels, order, done, p + 1);
    }
    if p > 0 && p % width != 0 {
        hand_on(raster, labels, order, done, p - 1);
    }
    if n - p > width {
        hand_on(raster, labels, order, done, p + width);
    }
    if p >= width {
        hand_on(raster, labels, order, done, p - width);
    }
}

/// Labels the dark pixels by the connected part that they belong to.
pub fn parts(raster: &Raster) -> (labels: Vec<usize>)
    requires
        raster.well_formed(),
    ensures
        labels@.len() == raster@.dark.len(),
        forall|p: int, q: int|
            0 <= p < labels@.len() && 0 <= q < labels@.len() && raster@.dark[p] && raster@.dark[q] ==> (
            #[trigger] connected(raster@, p, q) <==> labels@[p] == labels@[q]),
{
    let n: usize = raster.dark.len();
    let mut labels: Vec<usize> = vec![n; n];
    let mut order: Vec<usize> = Vec::new();
    let mut k: usize = 0;
    while k < n
        invariant
            raster.well_formed(),
            n == raster@.dark.len(),
            k <= n,
            marking(raster@, labels@, order@, order@.len() as int),
            forall|j: int| 0 <= j < k && raster@.dark[j] ==> #[trigger] labels@[j] < n,
        decreases n - k,
    {
        if raster.dark[k] && labels[k] == n {
            let mut done: usize = order.len();
            assert(raster.width > 0) by {
                assert(raster.width == 0 ==> raster.width * raster.height == 0) by (nonlinear_arith);
            }
            proof {
                let i = order@.index_of(k);
                assert(!order@.contains(k)) by {
                    if order@.contains(k) {
                        assert(labels@[order@[i] as int] < n);
                    }
                }
            }
            let ghost before = labels@;
            let ghost listed = order@;
            labels.set(k, k);
            order.push(k);
            proof {
                assert(order@[done as int] == k);
                assert forall|j: int| 0 <= j < n && #[trigger] labels@[j] < n implies order@.contains(
                    j as usize,
                ) by {
                    if j != k {
                        assert(before[j] < n);
                        let i = listed.index_of(j as usize);
                        assert(order@[i] == j);
                    }
                }
                assert forall|i: int, q: int|
                    0 <= i < done && 0 <= q < n && raster@.dark[q] && #[trigger] adjacent(
                        raster@.width,
                        order@[i] as int,
                        q,
                    ) implies labels@[q] == labels@[order@[i] as int] by {
                    assert(order@[i] == listed[i]);
                    assert(adjacent(raster@.width, listed[i] as int, q));
                    assert(before[q] == before[listed[i] as int]);
                }
            }
            while done < order.len()
                invariant
                    raster.well_formed(),
                    n == raster@.dark.len(),
                    raster@.width > 0,
                    k < n,
                    growing(raster@, labels@, order@, done as int, k),
                    forall|j: int| 0 <= j <= k && raster@.dark[j] ==> #[trigger] labels@[j] < n,
                decreases n - done,
            {
                proof {
                    lemma_places(order@, n as nat);
                }
                spread(raster, &mut labels, &mut order, done);
                done = done + 1;
            }
        }
        k = k + 1;
    }
    proof {
        lemma_marked(raster@, labels@, order@);
    }
    labels
}

/// A finished marking tells the connected parts apart.
proof fn lemma_marked(m: Mask, labels: Seq<usize>, order: Seq<usize>)
    requires
        m.dark.len() <= usize::MAX,
        marking(m, labels, order, order.len() as int),
        forall|p: int| 0 <= p < m.dark.len() && m.dark[p] ==> #[trigger] labels[p] < m.dark.len(),
    ensures
        forall|p: int, q: int|
            0 <= p < labels.len() && 0 <= q < labels.len() && m.dark[p] && m.dark[q] ==> (
            #[trigger] connected(m, p, q) <==> labels[p] == labels[q]),
{
    let marks = |p: int| labels[p] as int;
    assert(respects(m, marks)) by {
        assert forall|p: int, q: int|
            0 <= p < m.dark.len() && 0 <= q < m.dark.len() && m.dark[p] && m.dark[q]
                && #[trigger] adjacent(m.width, p, q) implies marks(p) == marks(q) by {
            assert(labels[p] < m.dark.len());
            let i = order.index_of(p as usize);
            assert(adjacent(m.width, order[i] as int, q));
        }
    }
    assert forall|p: int, q: int|
        0 <= p < labels.len() && 0 <= q < labels.len() && m.dark[p] && m.dark[q] implies (
    #[trigger] connected(m, p, q) <==> labels[p] == labels[q]) by {
        if connected(m, p, q) {
            assert(marks(p) == marks(q));
        }
        if labels[p] == labels[q] {
            assert(labels[p] < m.dark.len() && labels[q] < m.dark.len());
        }
    }
}

/// Being connected is an equivalence, and dark pixels that touch are connected.
pub proof fn law_connected(m: Mask, p: int, q: int, r: int)
    ensures
        connected(m, p, p),
        connected(m, p, q) ==> connected(m, q, p),
        connected(m, p, q) && connected(m, q, r) ==> connected(m, p, r),
        0 <= p < m.dark.len() && 0 <= q < m.dark.len() && m.dark[p] && m.dark[q] && adjacent(
            m.width,
            p,
            q,
        ) ==> connected(m, p, q),
{
    if connected(m, p, q) && connected(m, q, r) {
        assert forall|label: spec_fn(int) -> int| #[trigger] respects(m, label) implies label(p) == label(
            r,
        ) by {
            assert(label(p) == label(q));
        }
    }
}

/// A set of pixels that no dark pixel outside touches holds every pixel that is
/// connected to one of its own.
pub proof fn law_connected_stays_inside(m: Mask, inside: spec_fn(int) -> bool, p: int, q: int)
    requires
        forall|a: int, b: int|
            0 <= a < m.dark.len() && 0 <= b < m.dark.len() && m.dark[a] && m.dark[b]
                && #[trigger] adjacent(m.width, a, b) && inside(a) ==> inside(b),
        inside(p),
        connected(m, p, q),
    ensures
        inside(q),
{
    let label = |k: int|
        if inside(k) {
            1int
        } else {
            0
        };
    assert(respects(m, label)) by {
        assert forall|a: int, b: int|
            0 <= a < m.dark.len() && 0 <= b < m.dark.len() && m.dark[a] && m.dark[b]
                && #[trigger] adjacent(m.width, a, b) implies label(a) == label(b) by {
            assert(adjacent(m.width, b, a));
        }
    }
    assert(label(p) == label(q));
}

/// Two pixels touch exactly if they are one apart in one direction and not at
/// all in the other.
pub proof fn law_adjacent(width: int, x: int, y: int, u: int, v: int)
    requires
        0 <= x < width,
        0 <= u < width,
        0 <= y,
        0 <= v,
    ensures
        adjacent(width, y * width + x, v * width + u) <==> (y == v && (x == u + 1 || u == x + 1)) || (x == u
            && (y == v + 1 || v == y + 1)),
{
    let p = y * width + x;
    let q = v * width + u;
    vstd::arithmetic::div_mod::lemma_fundamental_div_mod_converse(p, width, y, x);
    vstd::arithmetic::div_mod::lemma_fundamental_div_mod_converse(q, width, v, u);
    assert(y < v ==> y * width + width <= v * width) by (nonlinear_arith)
        requires
            width > 0,
    ;
    assert(v < y ==> v * width + width <= y * width) by (nonlinear_arith)
        requires
            width > 0,
    ;
    assert(y + 1 < v ==> y * width + 2 * width <= v * width) by (nonlinear_arith)
        requires
            width > 0,
    ;
    assert(v + 1 < y ==> v * width + 2 * width <= y * width) by (nonlinear_arith)
        requires
            width > 0,
    ;
    assert((y + 1) * width == y * width + width && (v + 1) * width == v * width + width)
        by (nonlinear_arith);
}

/// A picture is dark where its list says so, row by row, and light around.
pub proof fn law_mask_at(m: Mask, x: int, y: int)
    ensures
        m.at(x, y) ==> 0 <= x < m.width && 0 <= y < m.height,
        0 <= x < m.width && 0 <= y < m.height ==> m.at(x, y) == m.dark[y * m.width + x],
{
}

}

//! Ordered-list maintenance: every placed item belongs to one container and holds
//! one position in it, and the positions of a container are always `0, 1, .., n - 1`.
//!
//! The store keeps one row per item, the way a table with a position column does,
//! and reorders by shifting positions. Its contracts speak of the order that the
//! rows stand for: for each container the sequence of its items by position.
use vstd::prelude::*;

verus! {

/// Identifier of a board, column, card, tag, user or any other record.
pub type Id = u128;

/// A scope within which positions are dense.
#[derive(Clone, Copy, Debug, PartialEq, Eq, Structural)]
pub enum Container {
    /// The columns of a board.
    Board(Id),
    /// The cards of a column.
    Column(Id),
    /// The cards attached to a board, in one of its columns or in none.
    Lane(Id, Option<Id>),
    /// The cards of a user that stand in no column.
    Inbox(Id),
}

/// One row: where an item stands.
#[derive(Clone, Copy, Debug, PartialEq, Eq, Structural)]
pub struct Slot {
    pub item: Id,
    pub container: Container,
    pub position: i32,
}

/// Why a reordering request was turned down. Nothing is changed when one is returned.
#[derive(Clone, Copy, Debug, PartialEq, Eq, Structural)]
pub enum PositionError {
    /// The item has no row.
    UnknownItem,
    /// The item already has a row.
    DuplicateItem,
    /// The wanted position is negative or beyond the end of the container.
    OutOfRange,
    /// The container holds as many items as positions can number.
    Full,
}

/// The number of rows of `rows` that lie in `c`.
pub open spec fn count_in(rows: Seq<Slot>, c: Container) -> nat
    decreases rows.len(),
{
    if rows.len() == 0 {
        0
    } else {
        count_in(rows.drop_last(), c) + if rows.last().container == c {
            1nat
        } else {
            0nat
        }
    }
}

/// Row `j` lies in `c` at position `p`.
pub open spec fn at(rows: Seq<Slot>, j: int, c: Container, p: int) -> bool {
    0 <= j < rows.len() && rows[j].container == c && rows[j].position == p
}

/// Some row lies in `c` at position `p`.
pub open spec fn occupied(rows: Seq<Slot>, c: Container, p: int) -> bool {
    exists|j: int| at(rows, j, c, p)
}

/// Some row belongs to `item`.
pub open spec fn listed(rows: Seq<Slot>, item: Id) -> bool {
    exists|j: int| 0 <= j < rows.len() && #[trigger] rows[j].item == item
}

/// The row of `item`, where it has one.
pub open spec fn row_of(rows: Seq<Slot>, item: Id) -> int {
    choose|j: int| 0 <= j < rows.len() && #[trigger] rows[j].item == item
}

/// The row content of `item`, where it has one.
pub open spec fn slot_in(rows: Seq<Slot>, item: Id) -> Slot {
    rows[row_of(rows, item)]
}

/// The slot after a place has been opened in `c` at `p`.
pub open spec fn pushed_back(s: Slot, c: Container, p: int) -> Slot {
    if s.container == c && s.position >= p {
        Slot { position: (s.position + 1) as i32, ..s }
    } else {
        s
    }
}

/// The slot after the place `p` of `c` has been closed.
pub open spec fn pulled_up(s: Slot, c: Container, p: int) -> Slot {
    if s.container == c && s.position > p {
        Slot { position: (s.position - 1) as i32, ..s }
    } else {
        s
    }
}

/// The row that lies in `c` at position `p`, where there is one.
pub open spec fn row_at(rows: Seq<Slot>, c: Container, p: int) -> int {
    choose|j: int| at(rows, j, c, p)
}

/// The items of `c` by position.
pub open spec fn order_of(rows: Seq<Slot>, c: Container) -> Seq<Id> {
    Seq::new(count_in(rows, c), |p: int| rows[row_at(rows, c, p)].item)
}

/// The density invariant on rows: no item has two rows, no two rows of a container
/// share a position, and the positions of a container with `n` rows are exactly
/// `0 .. n`.
pub open spec fn dense(rows: Seq<Slot>) -> bool {
    &&& forall|i: int, j: int|
        0 <= i < j < rows.len() ==> (#[trigger] rows[i]).item != (#[trigger] rows[j]).item
    &&& forall|i: int, j: int|
        0 <= i < j < rows.len() && (#[trigger] rows[i]).container == (#[trigger] rows[j]).container
            ==> rows[i].position != rows[j].position
    &&& forall|i: int|
        0 <= i < rows.len() ==> 0 <= (#[trigger] rows[i]).position < count_in(
            rows,
            rows[i].container,
        )
    &&& forall|c: Container, p: int| 0 <= p < count_in(rows, c) ==> #[trigger] occupied(rows, c, p)
}

/// The rows after every row of `c` at or behind `p` has moved one place back.
pub open spec fn opened(rows: Seq<Slot>, c: Container, p: int) -> Seq<Slot> {
    Seq::new(rows.len(), |k: int| pushed_back(rows[k], c, p))
}

/// The rows after every row of `c` behind `p` has moved one place forward.
pub open spec fn closed_up(rows: Seq<Slot>, c: Container, p: int) -> Seq<Slot> {
    Seq::new(rows.len(), |k: int| pulled_up(rows[k], c, p))
}

/// Counting looks at containers only.
pub proof fn lemma_count_by_container(a: Seq<Slot>, b: Seq<Slot>, c: Container)
    requires
        a.len() == b.len(),
        forall|k: int| 0 <= k < a.len() ==> (#[trigger] a[k]).container == (#[trigger] b[k]).container,
    ensures
        count_in(a, c) == count_in(b, c),
    decreases a.len(),
{
    if a.len() > 0 {
        assert(a.last().container == b.last().container);
        lemma_count_by_container(a.drop_last(), b.drop_last(), c);
    }
}

/// A count never exceeds the number of rows.
pub proof fn lemma_count_bound(rows: Seq<Slot>, c: Container)
    ensures
        count_in(rows, c) <= rows.len(),
    decreases rows.len(),
{
    if rows.len() > 0 {
        lemma_count_bound(rows.drop_last(), c);
    }
}

/// A pushed row counts once, in its own container.
pub proof fn lemma_count_push(rows: Seq<Slot>, s: Slot, c: Container)
    ensures
        count_in(rows.push(s), c) == count_in(rows, c) + if s.container == c {
            1nat
        } else {
            0nat
        },
{
    assert(rows.push(s).drop_last() =~= rows);
}

/// A removed row no longer counts in its container.
pub proof fn lemma_count_remove(rows: Seq<Slot>, k: int, c: Container)
    requires
        0 <= k < rows.len(),
    ensures
        count_in(rows.remove(k), c) + (if rows[k].container == c {
            1nat
        } else {
            0nat
        }) == count_in(rows, c),
    decreases rows.len(),
{
    if k == rows.len() - 1 {
        assert(rows.remove(k) =~= rows.drop_last());
    } else {
        assert(rows.remove(k).drop_last() =~= rows.drop_last().remove(k));
        assert(rows.remove(k).last() == rows.last());
        lemma_count_remove(rows.drop_last(), k, c);
    }
}

/// In dense rows a place is held by one row only.
pub proof fn lemma_one_row_per_place(rows: Seq<Slot>, i: int, j: int, c: Container, p: int)
    requires
        dense(rows),
        at(rows, i, c, p),
        at(rows, j, c, p),
    ensures
        i == j,
{
    if i < j {
        assert(rows[i].position != rows[j].position);
    } else if j < i {
        assert(rows[j].position != rows[i].position);
    }
}

/// In dense rows two rows of one container differ in position.
pub proof fn lemma_places_differ(rows: Seq<Slot>, i: int, j: int)
    requires
        dense(rows),
        0 <= i < rows.len(),
        0 <= j < rows.len(),
        i != j,
        rows[i].container == rows[j].container,
    ensures
        rows[i].position != rows[j].position,
{
    if i < j {
        assert(rows[i].position != rows[j].position);
    } else {
        assert(rows[j].position != rows[i].position);
    }
}

/// In dense rows an item is held by one row only.
pub proof fn lemma_one_row_per_item(rows: Seq<Slot>, i: int, j: int)
    requires
        dense(rows),
        0 <= i < rows.len(),
        0 <= j < rows.len(),
        rows[i].item == rows[j].item,
    ensures
        i == j,
{
    if i < j {
        assert(rows[i].item != rows[j].item);
    } else if j < i {
        assert(rows[j].item != rows[i].item);
    }
}

/// In dense rows the order of a container lists the rows by position.
pub proof fn lemma_order_index(rows: Seq<Slot>, j: int)
    requires
        dense(rows),
        0 <= j < rows.len(),
    ensures
        0 <= rows[j].position < order_of(rows, rows[j].container).len(),
        order_of(rows, rows[j].container)[rows[j].position as int] == rows[j].item,
{
    let c = rows[j].container;
    let p: int = rows[j].position as int;
    assert(at(rows, j, c, p));
    lemma_one_row_per_place(rows, row_at(rows, c, p), j, c, p);
}

/// In dense rows every entry of an order belongs to a row at that place.
pub proof fn lemma_order_entry(rows: Seq<Slot>, c: Container, p: int)
    requires
        dense(rows),
        0 <= p < order_of(rows, c).len(),
    ensures
        at(rows, row_at(rows, c, p), c, p),
        order_of(rows, c)[p] == rows[row_at(rows, c, p)].item,
{
    assert(occupied(rows, c, p));
}

/// Opening a place in `c` at `p` and putting a new item there keeps the rows dense
/// and inserts the item into the order of `c`, leaving every other order as it was.
pub proof fn lemma_insert(rows: Seq<Slot>, c: Container, item: Id, p: int)
    requires
        dense(rows),
        !listed(rows, item),
        0 <= p <= count_in(rows, c),
        count_in(rows, c) <= i32::MAX,
    ensures
        ({
            let after = opened(rows, c, p).push(Slot { item, container: c, position: p as i32 });
            &&& dense(after)
            &&& order_of(after, c) == order_of(rows, c).insert(p, item)
            &&& forall|d: Container| d != c ==> #[trigger] order_of(after, d) == order_of(rows, d)
            &&& forall|id: Id| #[trigger] listed(after, id) <==> listed(rows, id) || id == item
            &&& slot_in(after, item) == Slot { item, container: c, position: p as i32 }
            &&& forall|id: Id|
                listed(rows, id) ==> #[trigger] slot_in(after, id) == pushed_back(
                    slot_in(rows, id),
                    c,
                    p,
                )
        }),
{
    let mid = opened(rows, c, p);
    let fresh = Slot { item, container: c, position: p as i32 };
    let after = mid.push(fresh);
    let n: int = rows.len() as int;
    assert forall|d: Container| #[trigger]
        count_in(after, d) == count_in(rows, d) + if d == c {
            1nat
        } else {
            0nat
        } by {
        lemma_count_by_container(rows, mid, d);
        lemma_count_push(mid, fresh, d);
    }
    assert forall|k: int| 0 <= k < n implies (#[trigger] rows[k]).item != item by {
        if rows[k].item == item {
            assert(listed(rows, item));
        }
    }
    assert forall|d: Container, q: int| 0 <= q < count_in(after, d) implies #[trigger] occupied(
        after,
        d,
        q,
    ) by {
        if d == c && q == p {
            assert(at(after, n, d, q));
        } else if d == c && q > p {
            assert(occupied(rows, c, q - 1));
            assert(at(after, row_at(rows, c, q - 1), d, q));
        } else {
            assert(occupied(rows, d, q));
            assert(at(after, row_at(rows, d, q), d, q));
        }
    }
    assert(dense(after));
    assert forall|id: Id| #[trigger] listed(after, id) <==> listed(rows, id) || id == item by {
        if listed(after, id) {
            let j: int = row_of(after, id);
            if j < n {
                assert(rows[j].item == id);
            }
        }
        if listed(rows, id) {
            let j: int = row_of(rows, id);
            assert(after[j].item == id);
        }
        if id == item {
            assert(after[n].item == id);
        }
    }
    assert forall|d: Container| d != c implies #[trigger] order_of(after, d) == order_of(
        rows,
        d,
    ) by {
        assert forall|q: int| 0 <= q < count_in(rows, d) implies order_of(after, d)[q] == order_of(
            rows,
            d,
        )[q] by {
            lemma_order_entry(rows, d, q);
            lemma_order_index(after, row_at(rows, d, q));
        }
        assert(order_of(after, d) =~= order_of(rows, d));
    }
    assert(after[n].item == item);
    lemma_one_row_per_item(after, row_of(after, item), n);
    assert forall|id: Id| listed(rows, id) implies #[trigger] slot_in(after, id) == pushed_back(
        slot_in(rows, id),
        c,
        p,
    ) by {
        let j: int = row_of(rows, id);
        assert(after[j].item == id);
        lemma_one_row_per_item(after, row_of(after, id), j);
    }
    let want = order_of(rows, c).insert(p, item);
    assert forall|q: int| 0 <= q < want.len() implies order_of(after, c)[q] == want[q] by {
        if q < p {
            lemma_order_entry(rows, c, q);
            lemma_order_index(after, row_at(rows, c, q));
        } else if q == p {
            lemma_order_index(after, n);
        } else {
            lemma_order_entry(rows, c, q - 1);
            lemma_order_index(after, row_at(rows, c, q - 1));
        }
    }
    assert(order_of(after, c) =~= want);
}

/// The rows after row `k` has been taken out and its place closed.
pub open spec fn without(rows: Seq<Slot>, k: int) -> Seq<Slot> {
    closed_up(rows, rows[k].container, rows[k].position as int).remove(k)
}

/// The row of `rows` that row `j` of `without(rows, k)` comes from.
pub open spec fn source_row(k: int, j: int) -> int {
    if j < k {
        j
    } else {
        j + 1
    }
}

/// The row of `without(rows, k)` that row `j` of `rows` goes to, for `j != k`.
pub open spec fn target_row(k: int, j: int) -> int {
    if j < k {
        j
    } else {
        j - 1
    }
}

/// What each row of `without(rows, k)` holds.
pub proof fn lemma_without_rows(rows: Seq<Slot>, k: int)
    requires
        dense(rows),
        0 <= k < rows.len(),
    ensures
        without(rows, k).len() == rows.len() - 1,
        forall|j: int|
            #![trigger without(rows, k)[j]]
            0 <= j < rows.len() - 1 ==> {
                let from = rows[source_row(k, j)];
                let to = without(rows, k)[j];
                &&& to.item == from.item
                &&& to.container == from.container
                &&& from.container == rows[k].container ==> from.position != rows[k].position
                &&& to.position == if from.container == rows[k].container && from.position
                    > rows[k].position {
                    from.position - 1
                } else {
                    from.position as int
                }
            },
        forall|d: Container| #[trigger]
            count_in(without(rows, k), d) + (if d == rows[k].container {
                1nat
            } else {
                0nat
            }) == count_in(rows, d),
{
    let c = rows[k].container;
    let p: int = rows[k].position as int;
    let mid = closed_up(rows, c, p);
    assert forall|j: int|
        #![trigger without(rows, k)[j]]
        0 <= j < rows.len() - 1 implies {
            let from = rows[source_row(k, j)];
            let to = without(rows, k)[j];
            &&& to.item == from.item
            &&& to.container == from.container
            &&& from.container == rows[k].container ==> from.position != rows[k].position
            &&& to.position == if from.container == rows[k].container && from.position
                > rows[k].position {
                from.position - 1
            } else {
                from.position as int
            }
        } by {
        assert(without(rows, k)[j] == mid[source_row(k, j)]);
        if rows[source_row(k, j)].container == c {
            lemma_places_differ(rows, source_row(k, j), k);
        }
    }
    assert forall|d: Container| #[trigger]
        count_in(without(rows, k), d) + (if d == rows[k].container {
            1nat
        } else {
            0nat
        }) == count_in(rows, d) by {
        lemma_count_by_container(rows, mid, d);
        lemma_count_remove(mid, k, d);
    }
}

/// Taking a row out and closing its place keeps the rows dense.
pub proof fn lemma_without_dense(rows: Seq<Slot>, k: int)
    requires
        dense(rows),
        0 <= k < rows.len(),
    ensures
        dense(without(rows, k)),
{
    let after = without(rows, k);
    let c = rows[k].container;
    let p: int = rows[k].position as int;
    let n: int = rows.len() as int;
    lemma_without_rows(rows, k);
    assert forall|i: int, j: int| 0 <= i < j < n - 1 implies (#[trigger] after[i]).item != (
    #[trigger] after[j]).item by {
        assert(rows[source_row(k, i)].item != rows[source_row(k, j)].item);
    }
    assert forall|i: int, j: int|
        0 <= i < j < n - 1 && (#[trigger] after[i]).container == (
        #[trigger] after[j]).container implies after[i].position != after[j].position by {
        lemma_places_differ(rows, source_row(k, i), source_row(k, j));
    }
    assert forall|i: int| 0 <= i < n - 1 implies 0 <= (#[trigger] after[i]).position < count_in(
        after,
        after[i].container,
    ) by {
        let s = rows[source_row(k, i)];
        assert(0 <= s.position < count_in(rows, s.container));
    }
    assert forall|d: Container, q: int| 0 <= q < count_in(after, d) implies #[trigger] occupied(
        after,
        d,
        q,
    ) by {
        let src: int = if d == c && q >= p {
            q + 1
        } else {
            q
        };
        assert(occupied(rows, d, src));
        let j0: int = row_at(rows, d, src);
        let j: int = target_row(k, j0);
        assert(source_row(k, j) == j0);
        assert(after[j].item == rows[j0].item);
        assert(at(after, j, d, q));
    }
}

/// Taking a row out unlists its item and no other.
pub proof fn lemma_without_listed(rows: Seq<Slot>, k: int)
    requires
        dense(rows),
        0 <= k < rows.len(),
    ensures
        forall|id: Id| #[trigger]
            listed(without(rows, k), id) <==> listed(rows, id) && id != rows[k].item,
        forall|id: Id|
            listed(rows, id) && id != rows[k].item ==> #[trigger] slot_in(without(rows, k), id)
                == pulled_up(slot_in(rows, id), rows[k].container, rows[k].position as int),
{
    let after = without(rows, k);
    lemma_without_rows(rows, k);
    lemma_without_dense(rows, k);
    assert forall|id: Id| listed(rows, id) && id != rows[k].item implies #[trigger] slot_in(
        without(rows, k),
        id,
    ) == pulled_up(slot_in(rows, id), rows[k].container, rows[k].position as int) by {
        let j0: int = row_of(rows, id);
        let j: int = target_row(k, j0);
        assert(source_row(k, j) == j0);
        assert(after[j].item == id);
        lemma_one_row_per_item(after, row_of(after, id), j);
    }
    assert forall|id: Id| #[trigger]
        listed(after, id) <==> listed(rows, id) && id != rows[k].item by {
        if listed(after, id) {
            let j: int = row_of(after, id);
            assert(after[j].item == rows[source_row(k, j)].item);
            if id == rows[k].item {
                lemma_one_row_per_item(rows, source_row(k, j), k);
            }
        }
        if listed(rows, id) && id != rows[k].item {
            let j0: int = row_of(rows, id);
            let j: int = target_row(k, j0);
            assert(source_row(k, j) == j0);
            assert(after[j].item == id);
        }
    }
}

/// Taking a row out removes its item from the order of its container and leaves
/// every other order as it was.
pub proof fn lemma_without_order(rows: Seq<Slot>, k: int)
    requires
        dense(rows),
        0 <= k < rows.len(),
    ensures
        0 <= rows[k].position < order_of(rows, rows[k].container).len(),
        order_of(rows, rows[k].container)[rows[k].position as int] == rows[k].item,
        order_of(without(rows, k), rows[k].container) == order_of(rows, rows[k].container).remove(
            rows[k].position as int,
        ),
        forall|d: Container|
            d != rows[k].container ==> #[trigger] order_of(without(rows, k), d) == order_of(
                rows,
                d,
            ),
{
    let after = without(rows, k);
    let c = rows[k].container;
    let p: int = rows[k].position as int;
    lemma_order_index(rows, k);
    lemma_without_rows(rows, k);
    lemma_without_dense(rows, k);
    assert forall|d: Container| d != c implies #[trigger] order_of(after, d) == order_of(
        rows,
        d,
    ) by {
        assert forall|q: int| 0 <= q < count_in(rows, d) implies order_of(after, d)[q] == order_of(
            rows,
            d,
        )[q] by {
            lemma_order_entry(rows, d, q);
            let j0: int = row_at(rows, d, q);
            let j: int = target_row(k, j0);
            assert(source_row(k, j) == j0);
            assert(after[j].item == rows[j0].item);
            lemma_order_index(after, j);
        }
        assert(order_of(after, d) =~= order_of(rows, d));
    }
    let want = order_of(rows, c).remove(p);
    assert forall|q: int| 0 <= q < want.len() implies order_of(after, c)[q] == want[q] by {
        let src: int = if q >= p {
            q + 1
        } else {
            q
        };
        lemma_order_entry(rows, c, src);
        let j0: int = row_at(rows, c, src);
        let j: int = target_row(k, j0);
        assert(source_row(k, j) == j0);
        assert(after[j].item == rows[j0].item);
        lemma_order_index(after, j);
    }
    assert(order_of(after, c) =~= want);
}

/// The orders after `item` has left place `from` of `src` and entered `dest` at `to`.
pub open spec fn moved(
    orders: Map<Container, Seq<Id>>,
    item: Id,
    src: Container,
    from: int,
    dest: Container,
    to: int,
) -> Map<Container, Seq<Id>> {
    let lifted = orders.insert(src, orders[src].remove(from));
    lifted.insert(dest, lifted[dest].insert(to, item))
}

/// The position store: where every placed item stands.
pub struct PositionStore {
    slots: Vec<Slot>,
}

impl View for PositionStore {
    type V = Map<Container, Seq<Id>>;

    /// For every container the items in it, by position.
    open spec fn view(&self) -> Map<Container, Seq<Id>> {
        Map::new(|c: Container| true, |c: Container| order_of(self.rows(), c))
    }
}

impl PositionStore {
    /// The rows of the store, in no particular order.
    pub closed spec fn rows(&self) -> Seq<Slot> {
        self.slots@
    }

    /// How many items are placed.
    pub closed spec fn size(&self) -> nat {
        self.slots@.len()
    }

    /// No container holds more items than are placed.
    pub proof fn lemma_size(&self, c: Container)
        ensures
            self@[c].len() <= self.size(),
    {
        lemma_count_bound(self.rows(), c);
    }

    /// The store is valid when its rows are dense.
    pub open spec fn wf(&self) -> bool {
        dense(self.rows())
    }

    /// The item is placed somewhere.
    pub open spec fn has(&self, item: Id) -> bool {
        listed(self.rows(), item)
    }

    /// Where a placed item stands.
    pub open spec fn slot(&self, item: Id) -> Slot {
        slot_in(self.rows(), item)
    }

    /// What `insert` answers.
    pub open spec fn insert_verdict(
        &self,
        container: Container,
        item: Id,
        desired: Option<i32>,
    ) -> Result<i32, PositionError> {
        if self.has(item) {
            Err(PositionError::DuplicateItem)
        } else if self@[container].len() > i32::MAX {
            Err(PositionError::Full)
        } else {
            match desired {
                None => Ok(self@[container].len() as i32),
                Some(p) => if 0 <= p <= self@[container].len() {
                    Ok(p)
                } else {
                    Err(PositionError::OutOfRange)
                },
            }
        }
    }

    /// What `move_item` answers. Within one container the last reachable position
    /// is the one before the end, since the item itself leaves a place free.
    pub open spec fn move_verdict(&self, item: Id, dest: Container, desired: i32) -> Result<
        i32,
        PositionError,
    > {
        if !self.has(item) {
            Err(PositionError::UnknownItem)
        } else {
            let stays = self.slot(item).container == dest;
            let room = if stays {
                self@[dest].len() - 1
            } else {
                self@[dest].len() as int
            };
            if desired < 0 || desired > room {
                Err(PositionError::OutOfRange)
            } else if !stays && self@[dest].len() > i32::MAX {
                Err(PositionError::Full)
            } else {
                Ok(desired)
            }
        }
    }

    /// An empty store.
    pub fn new() -> (store: PositionStore)
        ensures
            store.wf(),
            store.size() == 0,
            forall|c: Container| #[trigger] store@[c] == Seq::<Id>::empty(),
            forall|id: Id| !#[trigger] store.has(id),
    {
        let store = PositionStore { slots: Vec::new() };
        assert forall|c: Container| #[trigger] store@[c] == Seq::<Id>::empty() by {
            assert(order_of(store.rows(), c) =~= Seq::<Id>::empty());
        }
        store
    }

    fn find_row(&self, item: Id) -> (found: Option<usize>)
        ensures
            match found {
                Some(k) => k < self.rows().len() && self.rows()[k as int].item == item,
                None => !self.has(item),
            },
    {
        let mut i: usize = 0;
        while i < self.slots.len()
            invariant
                i <= self.slots.len(),
                forall|k: int| 0 <= k < i ==> (#[trigger] self.slots@[k]).item != item,
            decreases self.slots.len() - i,
        {
            if self.slots[i].item == item {
                return Some(i);
            }
            i += 1;
        }
        None
    }

    /// Where `item` stands, if it is placed.
    pub fn position_of(&self, item: Id) -> (found: Option<Slot>)
        requires
            self.wf(),
        ensures
            found is Some <==> self.has(item),
            found matches Some(s) ==> {
                &&& s == self.slot(item)
                &&& s.item == item
                &&& 0 <= s.position < self@[s.container].len()
                &&& self@[s.container][s.position as int] == item
            },
    {
        match self.find_row(item) {
            Some(k) => {
                proof {
                    lemma_one_row_per_item(self.rows(), row_of(self.rows(), item), k as int);
                    lemma_order_index(self.rows(), k as int);
                }
                Some(self.slots[k])
            },
            None => None,
        }
    }

    /// How many items `container` holds.
    pub fn count(&self, container: Container) -> (n: usize)
        ensures
            n == self@[container].len(),
    {
        let mut n: usize = 0;
        let mut i: usize = 0;
        while i < self.slots.len()
            invariant
                i <= self.slots.len(),
                n == count_in(self.slots@.take(i as int), container),
                n <= i,
            decreases self.slots.len() - i,
        {
            proof {
                assert(self.slots@.take(i + 1).drop_last() =~= self.slots@.take(i as int));
            }
            if self.slots[i].container == container {
                n += 1;
            }
            i += 1;
        }
        proof {
            assert(self.slots@.take(i as int) =~= self.slots@);
        }
        n
    }

    /// The items of `container`, by position.
    pub fn items(&self, container: Container) -> (list: Vec<Id>)
        requires
            self.wf(),
        ensures
            list@ == self@[container],
    {
        let n: usize = self.count(container);
        let mut list: Vec<Id> = Vec::new();
        while list.len() < n
            invariant
                list.len() <= n,
            decreases n - list.len(),
        {
            list.push(0);
        }
        let mut i: usize = 0;
        while i < self.slots.len()
            invariant
                self.wf(),
                i <= self.slots.len(),
                list.len() == n,
                n == self@[container].len(),
                forall|k: int|
                    0 <= k < i && (#[trigger] self.rows()[k]).container == container ==> list@[self.rows()[k].position as int]
                        == self.rows()[k].item,
            decreases self.slots.len() - i,
        {
            let s = self.slots[i];
            if s.container == container {
                proof {
                    assert(s == self.rows()[i as int]);
                    lemma_order_index(self.rows(), i as int);
                    assert forall|k: int|
                        0 <= k < i && (#[trigger] self.rows()[k]).container
                            == container implies self.rows()[k].position != s.position by {
                        lemma_places_differ(self.rows(), k, i as int);
                    }
                }
                list[s.position as usize] = s.item;
            }
            i += 1;
        }
        proof {
            assert forall|p: int| 0 <= p < n implies list@[p] == self@[container][p] by {
                lemma_order_entry(self.rows(), container, p);
            }
            assert(list@ =~= self@[container]);
        }
        list
    }

    // Moves every row of `container` at or behind `p` one place back.
    fn open_at(&mut self, container: Container, p: i32)
        requires
            forall|k: int|
                0 <= k < old(self).rows().len() && (#[trigger] old(self).rows()[k]).container
                    == container ==> old(self).rows()[k].position < i32::MAX,
        ensures
            final(self).rows() == opened(old(self).rows(), container, p as int),
    {
        let ghost before = self.slots@;
        assert(before == old(self).rows());
        let mut i: usize = 0;
        while i < self.slots.len()
            invariant
                i <= self.slots.len(),
                self.slots.len() == before.len(),
                forall|k: int|
                    0 <= k < before.len() && (#[trigger] before[k]).container == container
                        ==> before[k].position < i32::MAX,
                forall|k: int|
                    0 <= k < i ==> #[trigger] self.slots@[k] == opened(before, container, p as int)[k],
                forall|k: int| i <= k < before.len() ==> #[trigger] self.slots@[k] == before[k],
            decreases self.slots.len() - i,
        {
            if self.slots[i].container == container && self.slots[i].position >= p {
                self.slots[i].position = self.slots[i].position + 1;
            }
            i += 1;
        }
        assert(self.slots@ =~= opened(before, container, p as int));
    }

    // Moves every row of `container` behind `p` one place forward.
    fn close_at(&mut self, container: Container, p: i32)
        requires
            p >= 0,
        ensures
            final(self).rows() == closed_up(old(self).rows(), container, p as int),
    {
        let ghost before = self.slots@;
        let mut i: usize = 0;
        while i < self.slots.len()
            invariant
                p >= 0,
                i <= self.slots.len(),
                self.slots.len() == before.len(),
                forall|k: int|
                    0 <= k < i ==> #[trigger] self.slots@[k] == closed_up(
                        before,
                        container,
                        p as int,
                    )[k],
                forall|k: int| i <= k < before.len() ==> #[trigger] self.slots@[k] == before[k],
            decreases self.slots.len() - i,
        {
            if self.slots[i].container == container && self.slots[i].position > p {
                self.slots[i].position = self.slots[i].position - 1;
            }
            i += 1;
        }
        assert(self.slots@ =~= closed_up(before, container, p as int));
    }

    // Takes row `k` out and closes its place.
    fn take_row(&mut self, k: usize) -> (taken: Slot)
        requires
            old(self).wf(),
            k < old(self).rows().len(),
        ensures
            taken == old(self).rows()[k as int],
            final(self).rows() == without(old(self).rows(), k as int),
            final(self).wf(),
            final(self).size() == old(self).size() - 1,
            0 <= taken.position < old(self)@[taken.container].len(),
            old(self)@[taken.container][taken.position as int] == taken.item,
            final(self)@ == old(self)@.insert(
                taken.container,
                old(self)@[taken.container].remove(taken.position as int),
            ),
            forall|id: Id| #[trigger] final(self).has(id) <==> old(self).has(id) && id != taken.item,
            forall|id: Id|
                old(self).has(id) && id != taken.item ==> #[trigger] final(self).slot(id)
                    == pulled_up(old(self).slot(id), taken.container, taken.position as int),
    {
        let taken = self.slots[k];
        let ghost before = self.slots@;
        proof {
            lemma_without_dense(before, k as int);
            lemma_without_listed(before, k as int);
            lemma_without_order(before, k as int);
        }
        self.close_at(taken.container, taken.position);
        self.slots.remove(k);
        assert(final(self)@ =~= old(self)@.insert(
            taken.container,
            old(self)@[taken.container].remove(taken.position as int),
        ));
        taken
    }

    // Opens a place in `container` at `p` and puts `item` there.
    fn put_row(&mut self, container: Container, item: Id, p: i32)
        requires
            old(self).wf(),
            !old(self).has(item),
            0 <= p <= old(self)@[container].len(),
            old(self)@[container].len() <= i32::MAX,
        ensures
            final(self).wf(),
            final(self).size() == old(self).size() + 1,
            final(self)@ == old(self)@.insert(container, old(self)@[container].insert(p as int, item)),
            forall|id: Id| #[trigger] final(self).has(id) <==> old(self).has(id) || id == item,
            final(self).slot(item) == (Slot { item, container, position: p }),
            forall|id: Id|
                old(self).has(id) ==> #[trigger] final(self).slot(id) == pushed_back(
                    old(self).slot(id),
                    container,
                    p as int,
                ),
    {
        let ghost before = self.slots@;
        proof {
            lemma_insert(before, container, item, p as int);
        }
        self.open_at(container, p);
        self.slots.push(Slot { item, container, position: p });
        assert(final(self)@ =~= old(self)@.insert(
            container,
            old(self)@[container].insert(p as int, item),
        ));
    }

    /// Places a new item in `container`: at `desired`, after which the items at or
    /// behind that position stand one place further back, or at the end where no
    /// position is wanted.
    pub fn insert(&mut self, container: Container, item: Id, desired: Option<i32>) -> (assigned:
        Result<i32, PositionError>)
        requires
            old(self).wf(),
        ensures
            final(self).wf(),
            assigned == old(self).insert_verdict(container, item, desired),
            assigned is Err ==> *final(self) == *old(self),
            assigned matches Ok(p) ==> {
                &&& final(self).size() == old(self).size() + 1
                &&& final(self)@ == old(self)@.insert(
                    container,
                    old(self)@[container].insert(p as int, item),
                )
                &&& forall|id: Id| #[trigger] final(self).has(id) <==> old(self).has(id) || id == item
                &&& final(self).slot(item) == (Slot { item, container, position: p })
                &&& forall|id: Id|
                    old(self).has(id) ==> #[trigger] final(self).slot(id) == pushed_back(
                        old(self).slot(id),
                        container,
                        p as int,
                    )
            },
    {
        if self.find_row(item).is_some() {
            return Err(PositionError::DuplicateItem);
        }
        let n: usize = self.count(container);
        if n > i32::MAX as usize {
            return Err(PositionError::Full);
        }
        let p: i32 = match desired {
            None => n as i32,
            Some(p) => {
                if p < 0 || p as usize > n {
                    return Err(PositionError::OutOfRange);
                }
                p
            },
        };
        self.put_row(container, item, p);
        Ok(p)
    }

    /// Takes a placed item out; the items behind it in its container move one place
    /// forward. Returns where it stood.
    pub fn remove(&mut self, item: Id) -> (taken: Result<Slot, PositionError>)
        requires
            old(self).wf(),
        ensures
            final(self).wf(),
            taken is Ok <==> old(self).has(item),
            taken matches Err(e) ==> e == PositionError::UnknownItem && *final(self) == *old(self),
            taken matches Ok(s) ==> {
                &&& s == old(self).slot(item)
                &&& s.item == item
                &&& final(self).size() == old(self).size() - 1
                &&& 0 <= s.position < old(self)@[s.container].len()
                &&& old(self)@[s.container][s.position as int] == item
                &&& final(self)@ == old(self)@.insert(
                    s.container,
                    old(self)@[s.container].remove(s.position as int),
                )
                &&& forall|id: Id| #[trigger] final(self).has(id) <==> old(self).has(id) && id != item
                &&& forall|id: Id|
                    old(self).has(id) && id != item ==> #[trigger] final(self).slot(id)
                        == pulled_up(old(self).slot(id), s.container, s.position as int)
            },
    {
        match self.find_row(item) {
            None => Err(PositionError::UnknownItem),
            Some(k) => {
                proof {
                    lemma_one_row_per_item(self.rows(), row_of(self.rows(), item), k as int);
                }
                let s = self.take_row(k);
                Ok(s)
            },
        }
    }

    /// Moves a placed item to `desired` in `dest`, which may be the container it is
    /// in. Its old place is closed and the new one opened, as one step: either all
    /// of it happens or the store is left as it was.
    pub fn move_item(&mut self, item: Id, dest: Container, desired: i32) -> (landed: Result<
        i32,
        PositionError,
    >)
        requires
            old(self).wf(),
        ensures
            final(self).wf(),
            landed == old(self).move_verdict(item, dest, desired),
            landed is Err ==> *final(self) == *old(self),
            landed is Ok ==> {
                &&& final(self).size() == old(self).size()
                &&& final(self)@ == moved(
                    old(self)@,
                    item,
                    old(self).slot(item).container,
                    old(self).slot(item).position as int,
                    dest,
                    desired as int,
                )
                &&& forall|id: Id| #[trigger] final(self).has(id) <==> old(self).has(id)
                &&& final(self).slot(item) == (Slot { item, container: dest, position: desired })
                &&& forall|id: Id|
                    old(self).has(id) && id != item ==> #[trigger] final(self).slot(id)
                        == pushed_back(
                        pulled_up(
                            old(self).slot(id),
                            old(self).slot(item).container,
                            old(self).slot(item).position as int,
                        ),
                        dest,
                        desired as int,
                    )
            },
    {
        let k: usize = match self.find_row(item) {
            None => {
                return Err(PositionError::UnknownItem);
            },
            Some(k) => k,
        };
        proof {
            lemma_one_row_per_item(self.rows(), row_of(self.rows(), item), k as int);
            lemma_order_index(self.rows(), k as int);
        }
        let src = self.slots[k];
        let n: usize = self.count(dest);
        let stays: bool = src.container == dest;
        proof {
            if stays {
                assert(occupied(self.rows(), dest, n - 1));
            }
        }
        if desired < 0 {
            return Err(PositionError::OutOfRange);
        }
        if stays {
            if desired as usize > n - 1 {
                return Err(PositionError::OutOfRange);
            }
        } else {
            if desired as usize > n {
                return Err(PositionError::OutOfRange);
            }
            if n > i32::MAX as usize {
                return Err(PositionError::Full);
            }
        }
        self.take_row(k);
        self.put_row(dest, item, desired);
        Ok(desired)
    }
}

/// Density. In a valid store, and so after any sequence of `insert`, `move_item` and
/// `remove` on a new one, the positions of the items of a container `c` are exactly
/// `0, 1, .., n - 1` for the `n` items that it holds, and no two items share one:
/// every item of `c` stands at a position below `n`, every position below `n` is
/// held by an item of `c`, and no item occurs twice.
pub proof fn law_positions_dense(store: PositionStore, c: Container)
    requires
        store.wf(),
    ensures
        forall|id: Id|
            store.has(id) && (#[trigger] store.slot(id)).container == c ==> {
                &&& store.slot(id).item == id
                &&& 0 <= store.slot(id).position < store@[c].len()
                &&& store@[c][store.slot(id).position as int] == id
            },
        forall|p: int|
            0 <= p < store@[c].len() ==> {
                &&& store.has(#[trigger] store@[c][p])
                &&& store.slot(store@[c][p]).container == c
                &&& store.slot(store@[c][p]).position == p
            },
        store@[c].no_duplicates(),
{
    let rows = store.rows();
    assert forall|id: Id| store.has(id) && (#[trigger] store.slot(id)).container == c implies {
        &&& store.slot(id).item == id
        &&& 0 <= store.slot(id).position < store@[c].len()
        &&& store@[c][store.slot(id).position as int] == id
    } by {
        lemma_order_index(rows, row_of(rows, id));
    }
    assert forall|p: int| 0 <= p < store@[c].len() implies {
        &&& store.has(#[trigger] store@[c][p])
        &&& store.slot(store@[c][p]).container == c
        &&& store.slot(store@[c][p]).position == p
    } by {
        lemma_order_entry(rows, c, p);
        let j: int = row_at(rows, c, p);
        assert(rows[j].item == store@[c][p]);
        lemma_one_row_per_item(rows, row_of(rows, store@[c][p]), j);
    }
    assert forall|p: int, q: int|
        0 <= p < store@[c].len() && 0 <= q < store@[c].len() && p != q implies store@[c][p]
        != store@[c][q] by {
        assert(store.slot(store@[c][p]).position == p);
        assert(store.slot(store@[c][q]).position == q);
    }
}

/// A move to where the item already stands is accepted and changes no order.
pub proof fn law_move_in_place(store: PositionStore, item: Id)
    requires
        store.wf(),
        store.has(item),
    ensures
        store.move_verdict(item, store.slot(item).container, store.slot(item).position) == Ok::<
            i32,
            PositionError,
        >(store.slot(item).position),
        moved(
            store@,
            item,
            store.slot(item).container,
            store.slot(item).position as int,
            store.slot(item).container,
            store.slot(item).position as int,
        ) == store@,
{
    let c = store.slot(item).container;
    let p: int = store.slot(item).position as int;
    law_positions_dense(store, c);
    assert(store@[c].remove(p).insert(p, item) =~= store@[c]);
    assert(moved(store@, item, c, p, c, p) =~= store@);
}

/// What a move within a container does to the items of the container. The moved
/// item stands at the new position. Where it moved down the list, the items that
/// stood behind it, up to the one at the new position, stand one place further
/// up; where it moved up the list, the items from the new position to the one
/// before the old stand one place further down. No other item has moved.
pub proof fn law_move_within_shifts(order: Seq<Id>, from: int, to: int)
    requires
        0 <= from < order.len(),
        0 <= to < order.len(),
    ensures
        ({
            let after = order.remove(from).insert(to, order[from]);
            &&& after.len() == order.len()
            &&& after[to] == order[from]
            &&& forall|i: int|
                from < i <= to ==> #[trigger] order[i] == after[i - 1]
            &&& forall|i: int|
                to <= i < from ==> #[trigger] order[i] == after[i + 1]
            &&& forall|i: int|
                0 <= i < order.len() && (i < from && i < to || i > from && i > to)
                    ==> #[trigger] order[i] == after[i]
        }),
{
}

/// What a move across containers does to their items. In the container that the
/// item leaves, the items that stood behind it stand one place further up. In
/// the container that it enters, the items that stood at the new position or
/// behind it stand one place further down, and the item stands at the new
/// position. No other item of the two has moved.
pub proof fn law_move_across_shifts(source: Seq<Id>, target: Seq<Id>, from: int, to: int)
    requires
        0 <= from < source.len(),
        0 <= to <= target.len(),
    ensures
        ({
            let left = source.remove(from);
            let landed = target.insert(to, source[from]);
            &&& left.len() == source.len() - 1
            &&& landed.len() == target.len() + 1
            &&& landed[to] == source[from]
            &&& forall|i: int| 0 <= i < from ==> #[trigger] source[i] == left[i]
            &&& forall|i: int| from < i < source.len() ==> #[trigger] source[i] == left[i - 1]
            &&& forall|i: int| 0 <= i < to ==> #[trigger] target[i] == landed[i]
            &&& forall|i: int| to <= i < target.len() ==> #[trigger] target[i] == landed[i + 1]
        }),
{
}

/// Round trip. When an item has moved from position `p` of its container to position
/// `q` of `dest`, moving it back to position `p` of the container it came from is
/// accepted and restores every order.
pub proof fn law_move_round_trip(
    before: PositionStore,
    between: PositionStore,
    item: Id,
    dest: Container,
    q: i32,
)
    requires
        before.wf(),
        between.wf(),
        before.move_verdict(item, dest, q) is Ok,
        between.has(item),
        between@ == moved(
            before@,
            item,
            before.slot(item).container,
            before.slot(item).position as int,
            dest,
            q as int,
        ),
    ensures
        between.slot(item).container == dest,
        between.slot(item).position == q,
        between.move_verdict(item, before.slot(item).container, before.slot(item).position) == Ok::<
            i32,
            PositionError,
        >(before.slot(item).position),
        moved(
            between@,
            item,
            dest,
            q as int,
            before.slot(item).container,
            before.slot(item).position as int,
        ) == before@,
{
    let a = before.slot(item).container;
    let p: int = before.slot(item).position as int;
    law_positions_dense(before, a);
    law_positions_dense(between, dest);
    let lifted = before@.insert(a, before@[a].remove(p));
    assert(between@[dest] == lifted[dest].insert(q as int, item));
    assert(between@[dest][q as int] == item);
    assert(between@[dest].remove(q as int) =~= lifted[dest]);
    assert(before@[a].remove(p).insert(p, item) =~= before@[a]);
    if a == dest {
        assert(occupied(before.rows(), a, before@[a].len() - 1));
    } else {
        assert(between@[a] == before@[a].remove(p));
        assert(occupied(before.rows(), a, before@[a].len() - 1));
    }
    assert(moved(between@, item, dest, q as int, a, p) =~= before@);
}

} // verus!

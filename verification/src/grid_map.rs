//! A store with one slot per grid coordinate, kept in a flat vector.

use vstd::prelude::*;
use crate::grid::GridID;

verus! {

/// Position of the slot of `id` in the flat storage of a grid `width` columns
/// wide: rows lie one after another.
pub open spec fn flat_index(width: nat, id: GridID) -> int {
    id.0 * width + id.1
}

/// `id` names a cell of a grid of `width` columns and `height` rows.
pub open spec fn in_bounds(width: nat, height: nat, id: GridID) -> bool {
    id.0 < height && id.1 < width
}

/// `value` is what a slot holds before anything is stored in it: a clone of
/// a value that `V::default` may return.
pub open spec fn is_default_slot<V: Default + Clone>(value: V) -> bool {
    exists|d: V| call_ensures(V::default, (), d) && cloned(d, value)
}

/// One value of type `V` for every cell of a grid of fixed extent.
pub struct GridMap<V> {
    width: usize,
    height: usize,
    storage: Vec<V>,
}

impl<V> GridMap<V> {
    #[verifier::type_invariant]
    spec fn well_formed(self) -> bool {
        self.storage@.len() == self.width * self.height
    }

    /// Number of columns.
    pub closed spec fn width(&self) -> nat {
        self.width as nat
    }

    /// Number of rows.
    pub closed spec fn height(&self) -> nat {
        self.height as nat
    }

    /// `id` names a cell of this store.
    pub open spec fn contains(&self, id: GridID) -> bool {
        in_bounds(self.width(), self.height(), id)
    }
}

impl<V> View for GridMap<V> {
    type V = Map<GridID, V>;

    /// The store as a map from every coordinate in bounds to the value of its slot.
    closed spec fn view(&self) -> Map<GridID, V> {
        Map::new(
            |id: GridID| in_bounds(self.width as nat, self.height as nat, id),
            |id: GridID| self.storage@[flat_index(self.width as nat, id)],
        )
    }
}

impl<V> GridMap<V> where V: Default + Clone {
    /// A store for a grid of `width` columns and `height` rows, every slot
    /// holding the default value.
    pub fn new(width: usize, height: usize) -> (m: Self)
        requires
            width * height <= usize::MAX,
        ensures
            m.width() == width,
            m.height() == height,
            m@.dom() == Set::new(|id: GridID| in_bounds(width as nat, height as nat, id)),
            forall|id: GridID| #[trigger] m@.dom().contains(id) ==> is_default_slot(m@[id]),
    {
        let mut storage = Vec::new();
        let fill = V::default();
        let ghost first = fill;
        storage.resize(width * height, fill);
        let m = GridMap { width, height, storage };
        proof {
            assert(m@.dom() =~= Set::new(|id: GridID| in_bounds(width as nat, height as nat, id)));
            assert forall|id: GridID| #[trigger] m@.dom().contains(id) implies is_default_slot(
                m@[id],
            ) by {
                lemma_flat_index_in_range(width as nat, height as nat, id);
                let i = flat_index(width as nat, id);
                assert(call_ensures(V::default, (), first) && cloned(first, m.storage@[i]));
            }
        }
        m
    }

    /// Stores `value` in the slot of `k`. Every other slot keeps what it held.
    pub fn add(&mut self, k: GridID, value: V)
        requires
            old(self).contains(k),
        ensures
            final(self).width() == old(self).width(),
            final(self).height() == old(self).height(),
            final(self)@ == old(self)@.insert(k, value),
    {
        proof {
            use_type_invariant(&*self);
        }
        let index = self.get_index(k);
        self.storage[index] = value;
        proof {
            let width = self.width as nat;
            let height = self.height as nat;
            assert forall|id: GridID| #[trigger] self@.dom().contains(id) implies self@[id]
                == old(self)@.insert(k, value)[id] by {
                lemma_flat_index_in_range(width, height, id);
                if id != k {
                    lemma_flat_index_is_injective(width, height, id, k);
                }
            }
            assert(self@ =~= old(self)@.insert(k, value));
        }
    }

    /// The value stored for `k`.
    pub fn get(&self, k: GridID) -> (value: &V)
        requires
            self.contains(k),
        ensures
            *value == self@[k],
    {
        proof {
            use_type_invariant(self);
        }
        let index = self.get_index(k);
        &self.storage[index]
    }

    /// Position of the slot of `id` in the flat storage.
    pub fn get_index(&self, id: GridID) -> (index: usize)
        requires
            self.contains(id),
        ensures
            index == flat_index(self.width(), id),
            index < self.width() * self.height(),
    {
        let row = id.row();
        let column = id.column();
        proof {
            use_type_invariant(self);
            lemma_flat_index_in_range(self.width as nat, self.height as nat, id);
            assert(self.storage.len() == self.width * self.height);
            assert(0 <= row * self.width) by (nonlinear_arith);
        }
        row * self.width + column
    }
}

/// Every coordinate in bounds has a slot inside the flat storage.
pub proof fn lemma_flat_index_in_range(width: nat, height: nat, id: GridID)
    requires
        in_bounds(width, height, id),
    ensures
        0 <= flat_index(width, id) < width * height,
{
    assert(id.0 * width + width <= height * width) by (nonlinear_arith)
        requires
            id.0 + 1 <= height,
    ;
    assert(height * width == width * height) by (nonlinear_arith);
    assert(id.0 * width >= 0) by (nonlinear_arith);
}

/// Two different coordinates in bounds never share a slot.
pub proof fn lemma_flat_index_is_injective(width: nat, height: nat, a: GridID, b: GridID)
    requires
        in_bounds(width, height, a),
        in_bounds(width, height, b),
        a != b,
    ensures
        flat_index(width, a) != flat_index(width, b),
{
    if a.0 < b.0 {
        assert(a.0 * width + width <= b.0 * width) by (nonlinear_arith)
            requires
                a.0 + 1 <= b.0,
        ;
    } else if b.0 < a.0 {
        assert(b.0 * width + width <= a.0 * width) by (nonlinear_arith)
            requires
                b.0 + 1 <= a.0,
        ;
    }
}

/// Every slot of the flat storage belongs to a coordinate in bounds, so that
/// coordinates and slots correspond one to one.
pub proof fn lemma_flat_index_is_onto(width: nat, height: nat, index: int)
    requires
        0 <= index < width * height,
    ensures
        width > 0,
        in_bounds(width, height, GridID((index / width as int) as usize, (index % width as int) as usize)),
        (index / width as int) * width + index % width as int == index,
{
    assert(width > 0) by (nonlinear_arith)
        requires
            0 <= index < width * height,
    ;
    let w = width as int;
    let q = index / w;
    let r = index % w;
    assert(index == w * q + r && 0 <= r < w) by {
        vstd::arithmetic::div_mod::lemma_fundamental_div_mod(index, w);
    }
    assert(0 <= q < height) by (nonlinear_arith)
        requires
            index == w * q + r,
            0 <= r < w,
            0 <= index < w * height,
    ;
    assert(q * w == w * q) by (nonlinear_arith);
}

/// What was stored for a coordinate is what is read back for it, and storing
/// for one coordinate changes what is read for no other.
pub proof fn lemma_get_after_add<V>(store: Map<GridID, V>, k: GridID, value: V, other: GridID)
    requires
        store.dom().contains(k),
        store.dom().contains(other),
        other != k,
    ensures
        store.insert(k, value)[k] == value,
        store.insert(k, value)[other] == store[other],
        store.insert(k, value).dom() == store.dom(),
{
    assert(store.insert(k, value).dom() =~= store.dom());
}

} // verus!

//! Keeps one displayed entity per grid slot. The entities live in a store
//! outside this library; the system here decides, tick by tick, which of
//! them the store has to delete and which cells it has to create anew.

use vstd::prelude::*;
use crate::control::AutomataControl;
use crate::grid::CellTag;
use crate::grid::GridID;
use crate::grid::Size;

verus! {

/// The tags of all cells of a grid of `size`, one per coordinate `(r, c)`
/// with `r < size.0` and `c < size.1`, the second coordinate running fastest.
pub open spec fn cell_tags(size: Size) -> Seq<CellTag> {
    Seq::new(
        size.area(),
        |i: int|
            CellTag {
                id: GridID((i / (size.1 as int)) as usize, (i % (size.1 as int)) as usize),
            },
    )
}

/// The handles of the displayed cells, in the order given.
pub open spec fn handles_of<E>(cells: Seq<(E, CellTag)>) -> Seq<E> {
    Seq::new(cells.len(), |i: int| cells[i].0)
}

/// The tags of the displayed cells, in the order given.
pub open spec fn tags_of<E>(cells: Seq<(E, CellTag)>) -> Seq<CellTag> {
    Seq::new(cells.len(), |i: int| cells[i].1)
}

/// What the entity store has to do to follow a change of the grid size:
/// first delete every entity in `remove`, then create one entity for every
/// tag in `add`.
#[derive(Debug)]
pub struct Rebuild<E> {
    pub remove: Vec<E>,
    pub add: Vec<CellTag>,
}

/// `plan` is what a system that last built for `previous` owes a store that
/// holds `cells` when the size asked for is `target`: nothing where the size
/// is the same, else the removal of every cell and one new cell per slot.
pub open spec fn is_plan_for<E>(
    previous: Size,
    target: Size,
    cells: Seq<(E, CellTag)>,
    plan: Option<Rebuild<E>>,
) -> bool {
    if previous == target {
        plan is None
    } else {
        &&& plan matches Some(rebuild)
        &&& rebuild.remove@ == handles_of(cells)
        &&& rebuild.add@ == cell_tags(target)
    }
}

/// The tags of the cells that the store holds once it has carried out
/// `plan` on `cells`: those whose handle was not removed, then the new ones.
pub open spec fn tags_after<E>(cells: Seq<(E, CellTag)>, plan: Option<Rebuild<E>>) -> Seq<CellTag> {
    match plan {
        None => tags_of(cells),
        Some(rebuild) => tags_of(cells.filter(|cell: (E, CellTag)| !rebuild.remove@.contains(cell.0)))
            + rebuild.add@,
    }
}

/// Decides when the displayed cells have to be rebuilt, and remembers the
/// grid size that they were last built for.
#[derive(Debug)]
pub struct CellDisplaySystem {
    previous_grid_size: Size,
}

impl CellDisplaySystem {
    /// The grid size that the displayed cells were last built for.
    pub closed spec fn built_for(&self) -> Size {
        self.previous_grid_size
    }

    /// A system that has built nothing yet.
    pub fn new() -> (system: Self)
        ensures
            system.built_for() == Size(0, 0),
    {
        CellDisplaySystem { previous_grid_size: Size(0, 0) }
    }

    /// The grid size that the displayed cells were last built for.
    pub fn previous_grid_size(&self) -> (size: Size)
        ensures
            size == self.built_for(),
    {
        self.previous_grid_size
    }

    /// Whether the size asked for differs from the one last built for.
    pub fn is_grid_size_changed(&self, control: &AutomataControl) -> (changed: bool)
        ensures
            changed == (control.size() != self.built_for()),
    {
        let size = control.size();
        size.0 != self.previous_grid_size.0 || size.1 != self.previous_grid_size.1
    }

    /// The handles of all displayed cells, whatever their tags: the entities
    /// that a rebuild deletes.
    pub fn remove_all_cells<E: Copy>(&self, cells: &Vec<(E, CellTag)>) -> (doomed: Vec<E>)
        ensures
            doomed@ == handles_of(cells@),
    {
        let mut doomed: Vec<E> = Vec::new();
        let mut i: usize = 0;
        while i < cells.len()
            invariant
                i <= cells@.len(),
                doomed@.len() == i,
                forall|j: int| 0 <= j < i ==> doomed@[j] == cells@[j].0,
            decreases cells@.len() - i,
        {
            doomed.push(cells[i].0);
            i += 1;
        }
        assert(doomed@ =~= handles_of(cells@));
        doomed
    }

    /// The tags of the cells that a grid of `size` needs, one per slot.
    pub fn add_cells(&self, size: Size) -> (tags: Vec<CellTag>)
        requires
            size.0 * size.1 <= usize::MAX,
        ensures
            tags@ == cell_tags(size),
    {
        let mut tags: Vec<CellTag> = Vec::new();
        let mut r: usize = 0;
        while r < size.0
            invariant
                r <= size.0,
                tags@.len() == r * size.1,
                forall|i: int| 0 <= i < tags@.len() ==> tags@[i] == cell_tags(size)[i],
                size.0 * size.1 <= usize::MAX,
            decreases size.0 - r,
        {
            let mut c: usize = 0;
            while c < size.1
                invariant
                    r < size.0,
                    c <= size.1,
                    tags@.len() == r * size.1 + c,
                    forall|i: int| 0 <= i < tags@.len() ==> tags@[i] == cell_tags(size)[i],
                    size.0 * size.1 <= usize::MAX,
                decreases size.1 - c,
            {
                proof {
                    lemma_slot_of(size, r as int, c as int);
                }
                tags.push(CellTag { id: GridID(r, c) });
                c += 1;
            }
            assert((r + 1) * size.1 == r * size.1 + size.1) by (nonlinear_arith);
            r += 1;
        }
        assert(tags@ =~= cell_tags(size));
        tags
    }

    /// One reconcile step. Where the size asked for is the one last built
    /// for, nothing is to be done. Where it differs, every displayed cell is
    /// to be deleted and one cell per slot of the new size created, and the
    /// new size is remembered.
    pub fn maintain_cell_entities<E: Copy>(
        &mut self,
        cells: &Vec<(E, CellTag)>,
        control: &AutomataControl,
    ) -> (plan: Option<Rebuild<E>>)
        requires
            control.size().0 * control.size().1 <= usize::MAX,
        ensures
            is_plan_for(old(self).built_for(), control.size(), cells@, plan),
            final(self).built_for() == control.size(),
    {
        if self.is_grid_size_changed(control) {
            let remove = self.remove_all_cells(cells);
            let add = self.add_cells(control.size());
            self.previous_grid_size = control.size();
            Some(Rebuild { remove, add })
        } else {
            None
        }
    }

    /// Forgets what was built. To be called where the store failed part of
    /// the way through a rebuild: the next reconcile step then deletes
    /// whatever is displayed and builds every cell anew.
    pub fn invalidate(&mut self)
        ensures
            final(self).built_for() == Size(0, 0),
    {
        self.previous_grid_size = Size(0, 0);
    }
}

/// The slot of the coordinate `(r, c)` in the tags of a grid of `size`.
pub proof fn lemma_slot_of(size: Size, r: int, c: int)
    requires
        0 <= r < size.0,
        0 <= c < size.1,
    ensures
        0 <= r * size.1 + c < size.area(),
        (r * size.1 + c) / (size.1 as int) == r,
        (r * size.1 + c) % (size.1 as int) == c,
        size.0 * size.1 <= usize::MAX ==> cell_tags(size)[r * size.1 + c] == (CellTag {
            id: GridID(r as usize, c as usize),
        }),
{
    let h = size.1 as int;
    assert(r * h + h <= size.0 * h) by (nonlinear_arith)
        requires
            r + 1 <= size.0,
            h >= 0,
    ;
    assert(0 <= r * h) by (nonlinear_arith)
        requires
            0 <= r,
            0 <= h,
    ;
    vstd::arithmetic::div_mod::lemma_fundamental_div_mod_converse(r * h + c, h, r, c);
}

/// Every tag of a grid names a coordinate inside it, and no two slots carry
/// the same tag: each cell of the grid has exactly one.
pub proof fn lemma_cell_tags_are_distinct(size: Size, i: int, j: int)
    requires
        size.0 * size.1 <= usize::MAX,
        0 <= i < size.area(),
        0 <= j < size.area(),
        i != j,
    ensures
        cell_tags(size).len() == size.0 * size.1,
        cell_tags(size)[i].id.0 < size.0,
        cell_tags(size)[i].id.1 < size.1,
        cell_tags(size)[i] != cell_tags(size)[j],
{
    lemma_slot_parts(size, i);
    lemma_slot_parts(size, j);
}

/// A slot index splits into a first coordinate below the width and a second
/// below the height.
proof fn lemma_slot_parts(size: Size, i: int)
    requires
        size.0 * size.1 <= usize::MAX,
        0 <= i < size.area(),
    ensures
        size.1 > 0,
        0 <= i / (size.1 as int) < size.0,
        0 <= i % (size.1 as int) < size.1,
        i == (i / (size.1 as int)) * size.1 + i % (size.1 as int),
{
    let h = size.1 as int;
    let w = size.0 as int;
    assert(h > 0) by (nonlinear_arith)
        requires
            0 <= i < w * h,
            h >= 0,
    ;
    vstd::arithmetic::div_mod::lemma_fundamental_div_mod(i, h);
    let q = i / h;
    let m = i % h;
    assert(q * h == h * q) by (nonlinear_arith);
    assert(0 <= q < w) by (nonlinear_arith)
        requires
            i == h * q + m,
            0 <= m < h,
            0 <= i < w * h,
    ;
}

/// Filtering by a test that no element passes leaves nothing.
proof fn lemma_filter_keeps_nothing<A>(s: Seq<A>, pred: spec_fn(A) -> bool)
    requires
        forall|i: int| 0 <= i < s.len() ==> !pred(#[trigger] s[i]),
    ensures
        s.filter(pred).len() == 0,
    decreases s.len(),
{
    reveal(Seq::filter);
    if s.len() > 0 {
        lemma_filter_keeps_nothing(s.drop_last(), pred);
    }
}

/// A rebuild that removes every displayed cell leaves exactly the cells it
/// adds: none of the old ones stays beside the new.
pub proof fn lemma_rebuild_replaces_every_cell<E>(cells: Seq<(E, CellTag)>, rebuild: Rebuild<E>)
    requires
        rebuild.remove@ == handles_of(cells),
    ensures
        tags_after(cells, Some(rebuild)) == rebuild.add@,
{
    let pred = |cell: (E, CellTag)| !rebuild.remove@.contains(cell.0);
    assert forall|i: int| 0 <= i < cells.len() implies !pred(#[trigger] cells[i]) by {
        assert(rebuild.remove@[i] == cells[i].0);
    }
    lemma_filter_keeps_nothing(cells, pred);
    assert(tags_of(cells.filter(pred)) + rebuild.add@ =~= rebuild.add@);
}

/// After a reconcile step on a store that held the cells of the size last
/// built for, the store holds the cells of the size asked for: as many as
/// the grid has slots, each coordinate once.
pub proof fn lemma_reconcile_matches_size<E>(
    previous: Size,
    target: Size,
    cells: Seq<(E, CellTag)>,
    plan: Option<Rebuild<E>>,
)
    requires
        tags_of(cells) == cell_tags(previous),
        is_plan_for(previous, target, cells, plan),
    ensures
        tags_after(cells, plan) == cell_tags(target),
        tags_after(cells, plan).len() == target.area(),
{
    if previous != target {
        lemma_rebuild_replaces_every_cell(cells, plan->0);
    }
}

/// A reconcile step that finds the size unchanged asks for nothing: no
/// entity is deleted and none created, however often the step is repeated.
pub proof fn lemma_unchanged_size_is_idle<E>(
    size: Size,
    cells: Seq<(E, CellTag)>,
    plan: Option<Rebuild<E>>,
)
    requires
        is_plan_for(size, size, cells, plan),
    ensures
        plan is None,
        tags_after(cells, plan) == tags_of(cells),
{
}

/// The size that a fresh system has last built for once it has reconciled
/// the first `steps` of `sizes`.
pub open spec fn built_for_after(sizes: Seq<Size>, steps: int) -> Size {
    if steps <= 0 {
        Size(0, 0)
    } else {
        sizes[steps - 1]
    }
}

/// A fresh system reconciles each of `sizes` in turn against a store that
/// starts empty and carries out every plan it is given: `stores[i]` is what
/// the store holds before step `i`, and `plans[i]` what that step asks for.
pub open spec fn is_reconcile_run<E>(
    sizes: Seq<Size>,
    stores: Seq<Seq<(E, CellTag)>>,
    plans: Seq<Option<Rebuild<E>>>,
) -> bool {
    &&& stores.len() == sizes.len() + 1
    &&& plans.len() == sizes.len()
    &&& stores[0].len() == 0
    &&& forall|i: int|
        0 <= i < sizes.len() ==> {
            &&& is_plan_for(built_for_after(sizes, i), sizes[i], stores[i], #[trigger] plans[i])
            &&& tags_of(stores[i + 1]) == tags_after(stores[i], plans[i])
        }
}

/// After any number of reconcile steps the store holds the cells of the
/// size seen last: as many as that grid has slots, and no two with the same
/// tag.
pub proof fn lemma_display_follows_last_size<E>(
    sizes: Seq<Size>,
    stores: Seq<Seq<(E, CellTag)>>,
    plans: Seq<Option<Rebuild<E>>>,
    step: int,
)
    requires
        is_reconcile_run(sizes, stores, plans),
        0 <= step < sizes.len(),
    ensures
        tags_of(stores[step + 1]) == cell_tags(sizes[step]),
        stores[step + 1].len() == sizes[step].area(),
        sizes[step].0 * sizes[step].1 <= usize::MAX ==> forall|i: int, j: int|
            0 <= i < j < stores[step + 1].len() ==> (#[trigger] tags_of(stores[step + 1])[i])
                != (#[trigger] tags_of(stores[step + 1])[j]),
    decreases step,
{
    if step == 0 {
        let nothing = Size(0, 0);
        assert(nothing.0 * nothing.1 == 0) by (nonlinear_arith)
            requires
                nothing.0 == 0,
        ;
        assert(tags_of(stores[0]) =~= cell_tags(nothing));
    } else {
        lemma_display_follows_last_size(sizes, stores, plans, step - 1);
    }
    assert(is_plan_for(built_for_after(sizes, step), sizes[step], stores[step], plans[step]));
    lemma_reconcile_matches_size(built_for_after(sizes, step), sizes[step], stores[step], plans[step]);
    let after = stores[step + 1];
    assert(tags_of(after).len() == after.len());
    if sizes[step].0 * sizes[step].1 <= usize::MAX {
        assert forall|i: int, j: int| 0 <= i < j < after.len() implies (#[trigger] tags_of(
            after,
        )[i]) != (#[trigger] tags_of(after)[j]) by {
            lemma_cell_tags_are_distinct(sizes[step], i, j);
        }
    }
}

} // verus!

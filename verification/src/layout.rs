//! Sizes and alignments of type entries.
//!
//! Most entries state their size. An array takes it from its element, which
//! is found by offset in the snapshot, so that arrays of arrays are followed
//! from entry to entry. Pointers are never followed: a pointer has the
//! program's pointer size whatever it points to. A chain of arrays is
//! followed for as many steps as the snapshot has entries: a chain that has
//! not ended by then runs in a circle, and what lies on it has no known
//! size.

use vstd::prelude::*;
use vstd::set_lib::{lemma_int_range, lemma_len_subset, set_int_range};
use crate::model::{Array, Type};
use crate::snapshot::{Snapshot, SnapshotView};

verus! {

/// The size of `count` elements of `element` bytes each: unknown where the
/// element's size is, and where the product does not fit in 64 bits.
pub open spec fn times(element: Option<u64>, count: u64) -> Option<u64> {
    match element {
        Some(e) => if e * count <= u64::MAX {
            Some((e * count) as u64)
        } else {
            None
        },
        None => None,
    }
}

impl SnapshotView {
    /// The size of `ty` in bytes, where it can be found by following at most
    /// `depth` arrays to their elements.
    pub open spec fn size_within(self, ty: Type, depth: nat) -> Option<u64>
        decreases depth,
    {
        match ty {
            Type::Base(b) => Some(b.byte_size),
            Type::Pointer(_) => Some(self.pointer_bytes),
            Type::Array(a) => if depth == 0 {
                None
            } else {
                match (a.count, self.type_from_goff(a.element_ty_goff)) {
                    (Some(count), Some(element)) => times(
                        self.size_within(element, (depth - 1) as nat),
                        count,
                    ),
                    _ => None,
                }
            },
            Type::Struct(s) => Some(s.byte_size),
            Type::Enum(e) => Some(e.byte_size),
            Type::CEnum(c) => Some(c.byte_size),
            Type::Union(_) => None,
            Type::Subroutine(_) => None,
        }
    }

    /// The alignment of `ty` in bytes, where it can be found by following at
    /// most `depth` arrays to their elements.
    pub open spec fn align_within(self, ty: Type, depth: nat) -> Option<u64>
        decreases depth,
    {
        match ty {
            Type::Base(b) => Some(b.byte_size),
            Type::Pointer(_) => Some(self.pointer_bytes),
            Type::Array(a) => if depth == 0 {
                None
            } else {
                match self.type_from_goff(a.element_ty_goff) {
                    Some(element) => self.align_within(element, (depth - 1) as nat),
                    None => None,
                }
            },
            Type::Struct(s) => s.alignment,
            Type::Enum(e) => e.alignment,
            Type::CEnum(c) => Some(c.alignment),
            Type::Union(_) => None,
            Type::Subroutine(_) => None,
        }
    }

    /// The size of `ty` in bytes, or nothing where it is not known.
    pub open spec fn size_of(self, ty: Type) -> Option<u64> {
        self.size_within(ty, self.types.len())
    }

    /// The alignment of `ty` in bytes, or nothing where it is not known.
    pub open spec fn align_of(self, ty: Type) -> Option<u64> {
        self.align_within(ty, self.types.len())
    }
}

/// The position of the entry that the entry at position `i` takes as its
/// element: there is one where that entry is an array whose element is in
/// the snapshot.
spec fn element_at(view: SnapshotView, i: int) -> Option<int> {
    match view.types[i].1 {
        Type::Array(a) => if view.has_goff(a.element_ty_goff) {
            Some(view.position_of(a.element_ty_goff))
        } else {
            None
        },
        _ => None,
    }
}

/// The position reached from position `i` by going from array to element
/// `steps` times, where the chain is that long.
spec fn walk(view: SnapshotView, i: int, steps: nat) -> Option<int>
    decreases steps,
{
    if steps == 0 {
        Some(i)
    } else {
        match walk(view, i, (steps - 1) as nat) {
            Some(j) => element_at(view, j),
            None => None,
        }
    }
}

/// A chain that starts in the snapshot stays in it.
proof fn lemma_walk_in_range(view: SnapshotView, i: int, steps: nat)
    requires
        0 <= i < view.types.len(),
    ensures
        walk(view, i, steps) is Some ==> 0 <= walk(view, i, steps)->0 < view.types.len(),
    decreases steps,
{
    if steps > 0 {
        lemma_walk_in_range(view, i, (steps - 1) as nat);
    }
}

/// A chain of one more step is the chain from the element.
proof fn lemma_walk_front(view: SnapshotView, i: int, steps: nat)
    ensures
        walk(view, i, steps + 1) == (match element_at(view, i) {
            Some(j) => walk(view, j, steps),
            None => None,
        }),
    decreases steps,
{
    if steps > 0 {
        lemma_walk_front(view, i, (steps - 1) as nat);
    } else {
        assert(walk(view, i, 0) == Some(i));
    }
}

/// A chain that is `steps` long is every smaller number of steps long.
proof fn lemma_walk_prefix(view: SnapshotView, i: int, steps: nat, fewer: nat)
    requires
        fewer <= steps,
        walk(view, i, steps) is Some,
    ensures
        walk(view, i, fewer) is Some,
    decreases steps,
{
    if fewer < steps {
        lemma_walk_prefix(view, i, (steps - 1) as nat, fewer);
    }
}

/// Two chains that reach the same position go on alike.
proof fn lemma_walk_shift(view: SnapshotView, i: int, a: nat, b: nat, more: nat)
    requires
        walk(view, i, a) == walk(view, i, b),
    ensures
        walk(view, i, a + more) == walk(view, i, b + more),
    decreases more,
{
    if more > 0 {
        lemma_walk_shift(view, i, a, b, (more - 1) as nat);
    }
}

/// A chain as long as the snapshot has entries comes by one position twice.
proof fn lemma_walk_repeats(view: SnapshotView, i: int) -> (r: (nat, nat))
    requires
        0 <= i < view.types.len(),
        walk(view, i, view.types.len()) is Some,
    ensures
        r.0 < r.1 <= view.types.len(),
        walk(view, i, r.0) == walk(view, i, r.1),
{
    let n = view.types.len();
    let p = Seq::new(n + 1, |k: int| walk(view, i, k as nat)->0);
    assert forall|k: int| 0 <= k <= n implies walk(view, i, k as nat) is Some && 0 <= #[trigger] p[k]
        < n by {
        lemma_walk_prefix(view, i, n, k as nat);
        lemma_walk_in_range(view, i, k as nat);
    }
    if p.no_duplicates() {
        p.unique_seq_to_set();
        lemma_int_range(0, n as int);
        assert(p.to_set().subset_of(set_int_range(0, n as int))) by {
            assert forall|x: int| p.to_set().contains(x) implies set_int_range(
                0,
                n as int,
            ).contains(x) by {
                let k = choose|k: int| 0 <= k < p.len() && p[k] == x;
                assert(0 <= p[k] < n);
            }
        }
        lemma_len_subset(p.to_set(), set_int_range(0, n as int));
        assert(false);
        (0, 1)
    } else {
        let (a, b) = choose|a: int, b: int|
            0 <= a < p.len() && 0 <= b < p.len() && a != b && p[a] == p[b];
        assert(walk(view, i, a as nat) == Some(p[a]));
        assert(walk(view, i, b as nat) == Some(p[b]));
        if a < b {
            (a as nat, b as nat)
        } else {
            (b as nat, a as nat)
        }
    }
}

/// A chain as long as the snapshot has entries runs in a circle: it never
/// ends.
proof fn lemma_walk_forever(view: SnapshotView, i: int, steps: nat)
    requires
        0 <= i < view.types.len(),
        walk(view, i, view.types.len()) is Some,
    ensures
        walk(view, i, steps) is Some,
    decreases steps,
{
    let n = view.types.len();
    if steps <= n {
        lemma_walk_prefix(view, i, n, steps);
    } else {
        let (a, b) = lemma_walk_repeats(view, i);
        let more = (steps - b) as nat;
        lemma_walk_forever(view, i, a + more);
        lemma_walk_shift(view, i, a, b, more);
    }
}

/// Where the chain from an entry has ended after `depth` steps, the entry's
/// size and alignment within `depth` are those within every greater depth.
proof fn lemma_settled(view: SnapshotView, i: int, depth: nat, deeper: nat)
    requires
        0 <= i < view.types.len(),
        walk(view, i, depth + 1) is None,
        depth <= deeper,
    ensures
        view.size_within(view.types[i].1, deeper) == view.size_within(view.types[i].1, depth),
        view.align_within(view.types[i].1, deeper) == view.align_within(view.types[i].1, depth),
    decreases depth,
{
    lemma_walk_front(view, i, depth);
    match element_at(view, i) {
        Some(j) => {
            assert(walk(view, j, 0) == Some(j));
            lemma_settled(view, j, (depth - 1) as nat, (deeper - 1) as nat);
        },
        None => {},
    }
}

/// Where the chain from an entry has not ended after `depth` steps, the
/// entry has neither size nor alignment within `depth`.
proof fn lemma_unsettled(view: SnapshotView, i: int, depth: nat)
    requires
        0 <= i < view.types.len(),
        walk(view, i, depth + 1) is Some,
    ensures
        view.size_within(view.types[i].1, depth) is None,
        view.align_within(view.types[i].1, depth) is None,
    decreases depth,
{
    lemma_walk_front(view, i, depth);
    if depth > 0 {
        let j = element_at(view, i)->0;
        lemma_unsettled(view, j, (depth - 1) as nat);
    }
}

/// The size and the alignment of an entry of the snapshot are found, if at
/// all, in one step less than the snapshot has entries.
proof fn lemma_entry_depth(view: SnapshotView, i: int)
    requires
        0 <= i < view.types.len(),
    ensures
        view.size_within(view.types[i].1, (view.types.len() - 1) as nat) == view.size_of(
            view.types[i].1,
        ),
        view.align_within(view.types[i].1, (view.types.len() - 1) as nat) == view.align_of(
            view.types[i].1,
        ),
{
    let n = view.types.len();
    if walk(view, i, n) is None {
        lemma_settled(view, i, (n - 1) as nat, n);
    } else {
        lemma_walk_forever(view, i, n + 1);
        lemma_unsettled(view, i, n);
        lemma_unsettled(view, i, (n - 1) as nat);
    }
}

/// The size of an array is the size of its element times its count, where
/// the count is known and the element is in the snapshot; else it has none.
/// The element's size is the size that the element has by itself, however
/// many arrays lie between it and what it is made of.
pub proof fn lemma_size_of_array(view: SnapshotView, array: Array)
    ensures
        view.size_of(Type::Array(array)) == (match (
            array.count,
            view.type_from_goff(array.element_ty_goff),
        ) {
            (Some(count), Some(entry)) => times(view.size_of(entry), count),
            _ => None,
        }),
{
    if view.has_goff(array.element_ty_goff) {
        lemma_entry_depth(view, view.position_of(array.element_ty_goff));
    }
}

/// The size of an array is the size of its element times its count,
/// exactly, where both are known and the product fits in 64 bits. The same
/// array without a count has no size.
pub proof fn lemma_array_size(
    view: SnapshotView,
    array: Array,
    entry: Type,
    element: u64,
    count: u64,
)
    requires
        view.type_from_goff(array.element_ty_goff) == Some(entry),
        view.size_of(entry) == Some(element),
        array.count == Some(count),
        element * count <= u64::MAX,
    ensures
        view.size_of(Type::Array(array)) == Some((element * count) as u64),
        view.size_of(Type::Array(Array { count: None, ..array })) is None,
{
    lemma_size_of_array(view, array);
    lemma_size_of_array(view, Array { count: None, ..array });
}

/// The alignment of an array is the alignment of its element.
pub proof fn lemma_array_alignment(view: SnapshotView, array: Array, entry: Type)
    requires
        view.type_from_goff(array.element_ty_goff) == Some(entry),
    ensures
        view.align_of(Type::Array(array)) == view.align_of(entry),
{
    lemma_entry_depth(view, view.position_of(array.element_ty_goff));
}

fn times_exec(element: Option<u64>, count: u64) -> (r: Option<u64>)
    ensures
        r == times(element, count),
{
    match element {
        Some(e) => {
            if count != 0 && e > u64::MAX / count {
                assert(e * count > u64::MAX) by (nonlinear_arith)
                    requires
                        count > 0,
                        e > (u64::MAX as int) / (count as int),
                ;
                None
            } else {
                assert(e * count <= u64::MAX) by (nonlinear_arith)
                    requires
                        count == 0 || e <= (u64::MAX as int) / (count as int),
                        e >= 0,
                        count >= 0,
                ;
                Some(e * count)
            }
        },
        None => None,
    }
}

fn size_bounded(ty: &Type, db: &Snapshot, depth: usize) -> (r: Option<u64>)
    ensures
        r == db@.size_within(*ty, depth as nat),
    decreases depth,
{
    match ty {
        Type::Base(b) => Some(b.byte_size),
        Type::Pointer(_) => Some(db.pointer_bytes()),
        Type::Array(a) => {
            if depth == 0 {
                return None;
            }
            match (a.count, db.type_from_goff(a.element_ty_goff)) {
                (Some(count), Some(element)) => times_exec(
                    size_bounded(element, db, depth - 1),
                    count,
                ),
                _ => None,
            }
        },
        Type::Struct(s) => Some(s.byte_size),
        Type::Enum(e) => Some(e.byte_size),
        Type::CEnum(c) => Some(c.byte_size),
        Type::Union(_) => None,
        Type::Subroutine(_) => None,
    }
}

fn align_bounded(ty: &Type, db: &Snapshot, depth: usize) -> (r: Option<u64>)
    ensures
        r == db@.align_within(*ty, depth as nat),
    decreases depth,
{
    match ty {
        Type::Base(b) => Some(b.byte_size),
        Type::Pointer(_) => Some(db.pointer_bytes()),
        Type::Array(a) => {
            if depth == 0 {
                return None;
            }
            match db.type_from_goff(a.element_ty_goff) {
                Some(element) => align_bounded(element, db, depth - 1),
                None => None,
            }
        },
        Type::Struct(s) => s.alignment,
        Type::Enum(e) => e.alignment,
        Type::CEnum(c) => Some(c.alignment),
        Type::Union(_) => None,
        Type::Subroutine(_) => None,
    }
}

impl Type {
    /// The size of this entry in bytes, if it is known. A reference that
    /// does not resolve makes it unknown; nothing is put in its place.
    pub fn byte_size(&self, db: &Snapshot) -> (r: Option<u64>)
        ensures
            r == db@.size_of(*self),
    {
        size_bounded(self, db, db.type_count())
    }

    /// The alignment of this entry in bytes, if it is known.
    pub fn alignment(&self, db: &Snapshot) -> (r: Option<u64>)
        ensures
            r == db@.align_of(*self),
    {
        align_bounded(self, db, db.type_count())
    }
}

} // verus!

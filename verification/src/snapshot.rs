//! The snapshot: every type entry of one program under its global offset, in
//! a fixed order, with the program's line table. It is filled once and then
//! only read.

use vstd::prelude::*;
use crate::goff::Goff;
use crate::model::{declared_name, text_view, Type};
use crate::text::{chars_of, same_text};

verus! {

/// A source position. The line and the column may each be unknown.
#[derive(Debug)]
pub struct LineRow {
    pub file: String,
    pub line: Option<u64>,
    pub column: Option<u64>,
}

/// The addresses from `start` up to, not including, `end`, and the source
/// position they come from.
#[derive(Debug)]
pub struct LineRange {
    pub start: u64,
    pub end: u64,
    pub row: LineRow,
}

/// Whether `address` lies in `range`.
pub open spec fn covers(range: LineRange, address: u64) -> bool {
    range.start <= address < range.end
}

/// Whether the range at `i` is the first of `lines` in which `address` lies.
pub open spec fn first_covering(lines: Seq<LineRange>, address: u64, i: int) -> bool {
    &&& 0 <= i < lines.len()
    &&& covers(lines[i], address)
    &&& forall|j: int| 0 <= j < i ==> !covers(#[trigger] lines[j], address)
}

/// Whether no offset occurs twice in `types`.
pub open spec fn goffs_differ(types: Seq<(Goff, Type)>) -> bool {
    forall|i: int, j: int| 0 <= i < j < types.len() ==> types[i].0 != types[j].0
}

/// The entries of `types` that declare the name `name`, in their order.
pub open spec fn entries_named(types: Seq<(Goff, Type)>, name: Seq<char>) -> Seq<(Goff, Type)>
    decreases types.len(),
{
    if types.len() == 0 {
        Seq::empty()
    } else {
        let before = entries_named(types.drop_last(), name);
        if declared_name(types.last().1) == Some(name) {
            before.push(types.last())
        } else {
            before
        }
    }
}

/// What a snapshot holds.
pub struct SnapshotView {
    /// The entries under their offsets, in the order in which they are walked.
    pub types: Seq<(Goff, Type)>,
    /// The size of a pointer in the program, in bytes.
    pub pointer_bytes: u64,
    /// The line table.
    pub lines: Seq<LineRange>,
}

impl SnapshotView {
    /// Whether an entry stands under `goff`.
    pub open spec fn has_goff(self, goff: Goff) -> bool {
        exists|i: int| 0 <= i < self.types.len() && (#[trigger] self.types[i]).0 == goff
    }

    /// A position at which an entry stands under `goff`, where there is one.
    pub open spec fn position_of(self, goff: Goff) -> int {
        choose|i: int| 0 <= i < self.types.len() && (#[trigger] self.types[i]).0 == goff
    }

    /// The entry under `goff`, if there is one.
    pub open spec fn type_from_goff(self, goff: Goff) -> Option<Type> {
        if self.has_goff(goff) {
            Some(self.types[self.position_of(goff)].1)
        } else {
            None
        }
    }

    /// The name that the entry under `goff` declares. Nothing where no entry
    /// stands there or the entry is anonymous.
    pub open spec fn name_from_goff(self, goff: Goff) -> Option<Seq<char>> {
        match self.type_from_goff(goff) {
            Some(ty) => declared_name(ty),
            None => None,
        }
    }

    /// The entries that declare the name `name`, in the snapshot's order.
    pub open spec fn types_by_name(self, name: Seq<char>) -> Seq<(Goff, Type)> {
        entries_named(self.types, name)
    }

    /// The source position of `address`: that of the first range of the line
    /// table in which it lies. Nothing where it lies in none.
    pub open spec fn lookup_line_row(self, address: u64) -> Option<LineRow> {
        if exists|i: int| first_covering(self.lines, address, i) {
            let i = choose|i: int| first_covering(self.lines, address, i);
            Some(self.lines[i].row)
        } else {
            None
        }
    }
}

/// In entries whose offsets differ, the entry under an offset is the one that
/// stands at any position that bears the offset.
pub proof fn lemma_type_from_goff(view: SnapshotView, i: int)
    requires
        goffs_differ(view.types),
        0 <= i < view.types.len(),
    ensures
        view.type_from_goff(view.types[i].0) == Some(view.types[i].1),
{
    let goff = view.types[i].0;
    let j = view.position_of(goff);
    assert(j == i);
}

/// Every offset that stands in a snapshot resolves to the name that its
/// entry declares: a name, or nothing where the entry is anonymous. Looking
/// a name up never fails.
pub proof fn lemma_name_from_goff(view: SnapshotView, i: int)
    requires
        goffs_differ(view.types),
        0 <= i < view.types.len(),
    ensures
        view.has_goff(view.types[i].0),
        view.name_from_goff(view.types[i].0) == declared_name(view.types[i].1),
{
    lemma_type_from_goff(view, i);
}

/// The entry that a reference stands for.
pub open spec fn entry_view(r: Option<&Type>) -> Option<Type> {
    match r {
        Some(ty) => Some(*ty),
        None => None,
    }
}

/// The position that a reference stands for.
pub open spec fn row_view(r: Option<&LineRow>) -> Option<LineRow> {
    match r {
        Some(row) => Some(*row),
        None => None,
    }
}

/// Whether `found` holds the offsets of `entries` and references to their
/// types, in the same order.
pub open spec fn refers_to(found: Seq<(Goff, &Type)>, entries: Seq<(Goff, Type)>) -> bool {
    &&& found.len() == entries.len()
    &&& forall|i: int|
        0 <= i < found.len() ==> (#[trigger] found[i]).0 == entries[i].0 && *found[i].1
            == entries[i].1
}

/// The type entries of one program and its line table.
#[derive(Debug)]
pub struct Snapshot {
    types: Vec<(Goff, Type)>,
    pointer_bytes: u64,
    lines: Vec<LineRange>,
}

impl View for Snapshot {
    type V = SnapshotView;

    closed spec fn view(&self) -> SnapshotView {
        SnapshotView { types: self.types@, pointer_bytes: self.pointer_bytes, lines: self.lines@ }
    }
}

impl Snapshot {
    #[verifier::type_invariant]
    spec fn distinct(self) -> bool {
        goffs_differ(self.types@)
    }

    /// The snapshot without entries, for a program whose pointers take
    /// `pointer_bytes` bytes.
    pub fn new(pointer_bytes: u64) -> (db: Self)
        ensures
            db@.types == Seq::<(Goff, Type)>::empty(),
            db@.pointer_bytes == pointer_bytes,
            db@.lines == Seq::<LineRange>::empty(),
    {
        Snapshot { types: Vec::new(), pointer_bytes, lines: Vec::new() }
    }

    /// Puts `ty` under `goff`, after the entries that are there. Where an
    /// entry stands under `goff` already, nothing changes and the result is
    /// `false`.
    pub fn add_type(&mut self, goff: Goff, ty: Type) -> (added: bool)
        ensures
            added == !old(self)@.has_goff(goff),
            added ==> final(self)@.types == old(self)@.types.push((goff, ty)),
            !added ==> final(self)@.types == old(self)@.types,
            final(self)@.pointer_bytes == old(self)@.pointer_bytes,
            final(self)@.lines == old(self)@.lines,
            goffs_differ(final(self)@.types),
    {
        proof {
            use_type_invariant(&*self);
        }
        if self.type_from_goff(goff).is_some() {
            return false;
        }
        let ghost held = self@;
        assert(!held.has_goff(goff));
        let mut types: Vec<(Goff, Type)> = Vec::new();
        std::mem::swap(&mut types, &mut self.types);
        let ghost before = types@;
        assert(before == held.types);
        types.push((goff, ty));
        assert(goffs_differ(types@)) by {
            assert forall|i: int, j: int| 0 <= i < j < types@.len() implies types@[i].0
                != types@[j].0 by {
                if j == before.len() {
                    assert(held.types[i].0 != goff);
                }
            }
        }
        self.types = types;
        true
    }

    /// Adds a range to the end of the line table.
    pub fn add_line_range(&mut self, range: LineRange)
        ensures
            final(self)@.lines == old(self)@.lines.push(range),
            final(self)@.types == old(self)@.types,
            final(self)@.pointer_bytes == old(self)@.pointer_bytes,
    {
        proof {
            use_type_invariant(&*self);
        }
        let mut lines: Vec<LineRange> = Vec::new();
        std::mem::swap(&mut lines, &mut self.lines);
        lines.push(range);
        self.lines = lines;
    }

    /// The number of entries. In every snapshot no offset occurs twice.
    pub fn type_count(&self) -> (n: usize)
        ensures
            n == self@.types.len(),
            goffs_differ(self@.types),
    {
        proof {
            use_type_invariant(self);
        }
        self.types.len()
    }

    /// The size of a pointer in the program, in bytes.
    pub fn pointer_bytes(&self) -> (n: u64)
        ensures
            n == self@.pointer_bytes,
    {
        self.pointer_bytes
    }

    /// The offset of the entry at position `i` of the walk.
    pub fn goff_at(&self, i: usize) -> (goff: Goff)
        requires
            i < self@.types.len(),
        ensures
            goff == self@.types[i as int].0,
    {
        self.types[i].0
    }

    /// The entry at position `i` of the walk.
    pub fn type_at(&self, i: usize) -> (ty: &Type)
        requires
            i < self@.types.len(),
        ensures
            *ty == self@.types[i as int].1,
            self@.type_from_goff(self@.types[i as int].0) == Some(*ty),
    {
        proof {
            use_type_invariant(self);
            lemma_type_from_goff(self@, i as int);
        }
        &self.types[i].1
    }

    /// The entry under `goff`, if there is one.
    pub fn type_from_goff(&self, goff: Goff) -> (r: Option<&Type>)
        ensures
            entry_view(r) == self@.type_from_goff(goff),
    {
        proof {
            use_type_invariant(self);
        }
        let n = self.types.len();
        let mut i: usize = 0;
        while i < n
            invariant
                i <= n,
                n == self.types@.len(),
                forall|j: int| 0 <= j < i ==> (#[trigger] self.types@[j]).0 != goff,
            decreases n - i,
        {
            if self.types[i].0 == goff {
                proof {
                    use_type_invariant(self);
                    lemma_type_from_goff(self@, i as int);
                }
                return Some(&self.types[i].1);
            }
            i = i + 1;
        }
        None
    }

    /// The name that the entry under `goff` declares. Nothing where no entry
    /// stands there, and nothing where the entry is anonymous: both are
    /// answers, not failures.
    pub fn name_from_goff(&self, goff: Goff) -> (r: Option<&str>)
        ensures
            text_view(r) == self@.name_from_goff(goff),
    {
        match self.type_from_goff(goff) {
            Some(ty) => ty.name(),
            None => None,
        }
    }

    /// The entries that declare the name `name`, each with its offset, in the
    /// snapshot's order.
    pub fn types_by_name(&self, name: &str) -> (found: Vec<(Goff, &Type)>)
        ensures
            refers_to(found@, self@.types_by_name(name@)),
    {
        let wanted = chars_of(name);
        let mut found: Vec<(Goff, &Type)> = Vec::new();
        let n = self.types.len();
        let mut i: usize = 0;
        assert(self.types@.take(0) =~= Seq::empty());
        while i < n
            invariant
                i <= n,
                n == self.types@.len(),
                wanted@ == name@,
                refers_to(found@, entries_named(self.types@.take(i as int), name@)),
            decreases n - i,
        {
            let ghost upto = self.types@.take(i + 1);
            assert(upto.drop_last() =~= self.types@.take(i as int));
            assert(upto.last() == self.types@[i as int]);
            let ty = &self.types[i].1;
            let is_named = match ty.name() {
                Some(declared) => {
                    let d = chars_of(declared);
                    same_text(&d, &wanted)
                },
                None => false,
            };
            if is_named {
                found.push((self.types[i].0, ty));
            }
            i = i + 1;
        }
        assert(self.types@.take(n as int) =~= self.types@);
        found
    }

    /// The source position of `address`, if the line table has one.
    pub fn lookup_line_row(&self, address: u64) -> (r: Option<&LineRow>)
        ensures
            row_view(r) == self@.lookup_line_row(address),
    {
        let n = self.lines.len();
        let mut i: usize = 0;
        while i < n
            invariant
                i <= n,
                n == self.lines@.len(),
                forall|j: int| 0 <= j < i ==> !covers(#[trigger] self.lines@[j], address),
            decreases n - i,
        {
            if self.lines[i].start <= address && address < self.lines[i].end {
                proof {
                    assert(first_covering(self.lines@, address, i as int));
                    let k = choose|k: int| first_covering(self.lines@, address, k);
                    assert(k == i);
                }
                return Some(&self.lines[i].row);
            }
            i = i + 1;
        }
        None
    }
}

} // verus!

use vstd::prelude::*;
use vstd::std_specs::convert::TryFromSpecImpl;

use crate::libmount::error::{unsigned, spec_unsigned, AllocationError, Error};
use crate::libmount::event::{EventView, MountEvent, MountEventKind, MountEventView};
use crate::libmount::fs::{
    spec_paired, spec_relocated, spec_unchanged, FileSystem, MountEntry,
};
use crate::libmount::iter::{Direction, IterInternal};

verus! {

/// The raw code of a mount.
pub const TABDIFF_MOUNT: u32 = 1;

/// The raw code of an unmount.
pub const TABDIFF_UMOUNT: u32 = 2;

/// The raw code of a move.
pub const TABDIFF_MOVE: u32 = 3;

/// The raw code of a remount.
pub const TABDIFF_REMOUNT: u32 = 4;

/// The raw code of a propagation.
pub const TABDIFF_PROPAGATION: u32 = 5;

/// The five kinds of change that a comparison of two tables can report.
#[derive(Debug, Clone, Copy, PartialEq, Eq, Structural)]
pub enum DiffOperation {
    Move,
    UMount,
    Remount,
    Mount,
    Propagation,
}

impl DiffOperation {
    /// The raw code of this kind of change.
    pub open spec fn spec_code(self) -> u32 {
        match self {
            DiffOperation::Move => TABDIFF_MOVE,
            DiffOperation::UMount => TABDIFF_UMOUNT,
            DiffOperation::Remount => TABDIFF_REMOUNT,
            DiffOperation::Mount => TABDIFF_MOUNT,
            DiffOperation::Propagation => TABDIFF_PROPAGATION,
        }
    }

    /// The kind of change that a raw code stands for.
    pub open spec fn spec_try_from(value: i32) -> Result<Self, Error> {
        if spec_unsigned(value) == TABDIFF_MOVE {
            Ok(DiffOperation::Move)
        } else if spec_unsigned(value) == TABDIFF_UMOUNT {
            Ok(DiffOperation::UMount)
        } else if spec_unsigned(value) == TABDIFF_REMOUNT {
            Ok(DiffOperation::Remount)
        } else if spec_unsigned(value) == TABDIFF_MOUNT {
            Ok(DiffOperation::Mount)
        } else if spec_unsigned(value) == TABDIFF_PROPAGATION {
            Ok(DiffOperation::Propagation)
        } else {
            Err(Error::UndefinedDiffOperation(spec_unsigned(value)))
        }
    }

    /// The raw code as a comparison writes it into a change.
    pub open spec fn spec_raw(self) -> i32 {
        match self {
            DiffOperation::Move => 3,
            DiffOperation::UMount => 2,
            DiffOperation::Remount => 4,
            DiffOperation::Mount => 1,
            DiffOperation::Propagation => 5,
        }
    }

    pub fn raw(self) -> (r: i32)
        ensures
            r == self.spec_raw(),
            r as int == self.spec_code() as int,
            Self::spec_try_from(r) == Ok::<Self, Error>(self),
    {
        match self {
            DiffOperation::Move => 3,
            DiffOperation::UMount => 2,
            DiffOperation::Remount => 4,
            DiffOperation::Mount => 1,
            DiffOperation::Propagation => 5,
        }
    }

    pub fn code(self) -> (r: u32)
        ensures
            r == self.spec_code(),
    {
        match self {
            DiffOperation::Move => TABDIFF_MOVE,
            DiffOperation::UMount => TABDIFF_UMOUNT,
            DiffOperation::Remount => TABDIFF_REMOUNT,
            DiffOperation::Mount => TABDIFF_MOUNT,
            DiffOperation::Propagation => TABDIFF_PROPAGATION,
        }
    }
}

impl TryFromSpecImpl<i32> for DiffOperation {
    open spec fn obeys_try_from_spec() -> bool {
        true
    }

    open spec fn try_from_spec(value: i32) -> Result<Self, Error> {
        Self::spec_try_from(value)
    }
}

impl TryFrom<i32> for DiffOperation {
    type Error = Error;

    fn try_from(value: i32) -> (r: Result<Self, Error>) {
        let code: u32 = unsigned(value);
        if code == TABDIFF_MOVE {
            Ok(DiffOperation::Move)
        } else if code == TABDIFF_UMOUNT {
            Ok(DiffOperation::UMount)
        } else if code == TABDIFF_REMOUNT {
            Ok(DiffOperation::Remount)
        } else if code == TABDIFF_MOUNT {
            Ok(DiffOperation::Mount)
        } else if code == TABDIFF_PROPAGATION {
            Ok(DiffOperation::Propagation)
        } else {
            Err(Error::UndefinedDiffOperation(code))
        }
    }
}

/// One difference between two tables, as a comparison reports it: the raw
/// code of its kind, the row of the older table and the row of the newer.
#[derive(Debug, PartialEq, Eq)]
pub struct Change {
    operation: i32,
    before: Option<FileSystem>,
    after: Option<FileSystem>,
}

/// A `Change` as a mathematical value.
pub ghost struct ChangeView {
    pub operation: i32,
    pub before: Option<MountEntry>,
    pub after: Option<MountEntry>,
}

/// What an optional row holds.
pub open spec fn entry_view(entry: Option<FileSystem>) -> Option<MountEntry> {
    match entry {
        Some(fs) => Some(fs@),
        None => None,
    }
}

/// The row itself, or the row without any field where there is none.
pub open spec fn entry_or_empty(entry: Option<MountEntry>) -> MountEntry {
    match entry {
        Some(e) => e,
        None => MountEntry::empty(),
    }
}

impl View for Change {
    type V = ChangeView;

    closed spec fn view(&self) -> ChangeView {
        ChangeView {
            operation: self.operation,
            before: entry_view(self.before),
            after: entry_view(self.after),
        }
    }
}

/// The event that a change stands for. A change whose code is none of the
/// five known ones stands for no event: it is reported with its code.
pub open spec fn spec_classify(change: ChangeView) -> Result<MountEventView, Error> {
    let before = entry_or_empty(change.before);
    let after = entry_or_empty(change.after);
    match DiffOperation::spec_try_from(change.operation) {
        Ok(DiffOperation::Move) => Ok(MountEventView::Move { from: before, to: after }),
        Ok(DiffOperation::UMount) => Ok(MountEventView::UMount { filesystem: before }),
        Ok(DiffOperation::Remount) => Ok(MountEventView::Remount { filesystem: after }),
        Ok(DiffOperation::Mount) => Ok(MountEventView::Mount { filesystem: after }),
        Ok(DiffOperation::Propagation) => Ok(MountEventView::Propagate {
            parent: before,
            child: after,
        }),
        Err(e) => Err(e),
    }
}

/// What the outcome of a classification holds.
pub open spec fn outcome_view(outcome: Result<MountEvent, Error>) -> Result<
    MountEventView,
    Error,
> {
    match outcome {
        Ok(event) => Ok(event@),
        Err(e) => Err(e),
    }
}

fn entry_or_default(entry: &Option<FileSystem>) -> (r: FileSystem)
    ensures
        r@ == entry_or_empty(entry_view(*entry)),
{
    match entry {
        Some(fs) => fs.clone(),
        None => FileSystem::default(),
    }
}

impl Clone for Change {
    fn clone(&self) -> (r: Self)
        ensures
            r@ == self@,
    {
        Change {
            operation: self.operation,
            before: match &self.before {
                Some(fs) => Some(fs.clone()),
                None => None,
            },
            after: match &self.after {
                Some(fs) => Some(fs.clone()),
                None => None,
            },
        }
    }
}

impl Change {
    /// A change of the kind with the raw code `operation`, from the row
    /// `before` to the row `after`.
    pub fn new(operation: i32, before: Option<FileSystem>, after: Option<FileSystem>) -> (r: Self)
        ensures
            r@ == (ChangeView {
                operation,
                before: entry_view(before),
                after: entry_view(after),
            }),
    {
        Change { operation, before, after }
    }

    pub fn operation(&self) -> (r: i32)
        ensures
            r == self@.operation,
    {
        self.operation
    }

    /// The row of the older table.
    pub fn before(&self) -> (r: Option<&FileSystem>)
        ensures
            r is Some <==> self@.before is Some,
            r is Some ==> r->Some_0@ == self@.before->Some_0,
    {
        self.before.as_ref()
    }

    /// The row of the newer table.
    pub fn after(&self) -> (r: Option<&FileSystem>)
        ensures
            r is Some <==> self@.after is Some,
            r is Some ==> r->Some_0@ == self@.after->Some_0,
    {
        self.after.as_ref()
    }

    /// Turns the change into the event it stands for, or reports its code.
    pub fn classify(&self) -> (r: Result<MountEvent, Error>)
        ensures
            outcome_view(r) == spec_classify(self@),
    {
        match DiffOperation::try_from(self.operation) {
            Ok(DiffOperation::Move) => Ok(
                MountEvent::Move {
                    from: entry_or_default(&self.before),
                    to: entry_or_default(&self.after),
                },
            ),
            Ok(DiffOperation::UMount) => Ok(
                MountEvent::UMount { filesystem: entry_or_default(&self.before) },
            ),
            Ok(DiffOperation::Remount) => Ok(
                MountEvent::Remount { filesystem: entry_or_default(&self.after) },
            ),
            Ok(DiffOperation::Mount) => Ok(
                MountEvent::Mount { filesystem: entry_or_default(&self.after) },
            ),
            Ok(DiffOperation::Propagation) => Ok(
                MountEvent::Propagate {
                    parent: entry_or_default(&self.before),
                    child: entry_or_default(&self.after),
                },
            ),
            Err(e) => Err(e),
        }
    }
}

/// What a sequence of rows holds.
pub open spec fn entries_view(entries: Seq<FileSystem>) -> Seq<MountEntry> {
    entries.map_values(|fs: FileSystem| fs@)
}

/// What a sequence of changes holds.
pub open spec fn changes_view(changes: Seq<Change>) -> Seq<ChangeView> {
    changes.map_values(|change: Change| change@)
}

/// What a sequence of events holds.
pub open spec fn events_view(events: Seq<MountEvent>) -> Seq<MountEventView> {
    events.map_values(|event: MountEvent| event@)
}

/// Whether the table holds the mount of `entry` with the same options.
pub open spec fn has_unchanged(table: Seq<MountEntry>, entry: MountEntry) -> bool {
    exists|i: int| 0 <= i < table.len() && spec_unchanged(#[trigger] table[i], entry)
}

/// Whether the table holds the mount of `entry`, with whatever options.
pub open spec fn has_pair(table: Seq<MountEntry>, entry: MountEntry) -> bool {
    exists|i: int| 0 <= i < table.len() && spec_paired(#[trigger] table[i], entry)
}

/// Whether row `i` is the first of the table that holds the mount of `entry`.
pub open spec fn is_first_pair(table: Seq<MountEntry>, entry: MountEntry, i: int) -> bool {
    &&& 0 <= i < table.len()
    &&& spec_paired(table[i], entry)
    &&& forall|j: int| 0 <= j < i ==> !spec_paired(#[trigger] table[j], entry)
}

pub open spec fn first_pair(table: Seq<MountEntry>, entry: MountEntry) -> int {
    choose|i: int| is_first_pair(table, entry, i)
}

/// What the appearance of `entry` in the newer table amounts to: nothing
/// where the older table holds the same mount with the same options, a
/// remount where it holds the mount with other options, else a mount.
pub open spec fn arrival(older: Seq<MountEntry>, entry: MountEntry) -> Seq<ChangeView> {
    if has_unchanged(older, entry) {
        Seq::empty()
    } else if has_pair(older, entry) {
        seq![
            ChangeView {
                operation: DiffOperation::Remount.spec_raw(),
                before: Some(older[first_pair(older, entry)]),
                after: Some(entry),
            },
        ]
    } else {
        seq![
            ChangeView {
                operation: DiffOperation::Mount.spec_raw(),
                before: None,
                after: Some(entry),
            },
        ]
    }
}

/// The changes that the rows of the newer table amount to, in table order.
pub open spec fn arrivals(older: Seq<MountEntry>, newer: Seq<MountEntry>) -> Seq<ChangeView>
    decreases newer.len(),
{
    if newer.len() == 0 {
        Seq::empty()
    } else {
        arrivals(older, newer.drop_last()) + arrival(older, newer.last())
    }
}

/// Whether `change` reports a mount that may be `entry` at a new place.
pub open spec fn absorbs(change: ChangeView, entry: MountEntry) -> bool {
    &&& change.operation == DiffOperation::Mount.spec_raw()
    &&& change.after is Some
    &&& spec_relocated(change.after->Some_0, entry)
}

pub open spec fn has_absorber(changes: Seq<ChangeView>, entry: MountEntry) -> bool {
    exists|k: int| 0 <= k < changes.len() && absorbs(#[trigger] changes[k], entry)
}

pub open spec fn is_first_absorber(changes: Seq<ChangeView>, entry: MountEntry, k: int) -> bool {
    &&& 0 <= k < changes.len()
    &&& absorbs(changes[k], entry)
    &&& forall|j: int| 0 <= j < k ==> !absorbs(#[trigger] changes[j], entry)
}

pub open spec fn first_absorber(changes: Seq<ChangeView>, entry: MountEntry) -> int {
    choose|k: int| is_first_absorber(changes, entry, k)
}

/// What the row `entry` of the older table adds to the changes found so
/// far: nothing where the newer table still holds its mount; else the first
/// reported mount of the same source and identifier becomes a move from
/// `entry`; else `entry` was unmounted.
pub open spec fn departure(
    changes: Seq<ChangeView>,
    newer: Seq<MountEntry>,
    entry: MountEntry,
) -> Seq<ChangeView> {
    if has_pair(newer, entry) {
        changes
    } else if has_absorber(changes, entry) {
        let k = first_absorber(changes, entry);
        changes.update(
            k,
            ChangeView {
                operation: DiffOperation::Move.spec_raw(),
                before: Some(entry),
                after: changes[k].after,
            },
        )
    } else {
        changes.push(
            ChangeView {
                operation: DiffOperation::UMount.spec_raw(),
                before: Some(entry),
                after: None,
            },
        )
    }
}

/// The changes after every row of the older table has been looked at, in
/// table order.
pub open spec fn departures(
    changes: Seq<ChangeView>,
    newer: Seq<MountEntry>,
    older: Seq<MountEntry>,
) -> Seq<ChangeView>
    decreases older.len(),
{
    if older.len() == 0 {
        changes
    } else {
        departure(departures(changes, newer, older.drop_last()), newer, older.last())
    }
}

/// The differences between two tables, in the order in which they are
/// reported: first what the rows of the newer table amount to, then what
/// became of the rows of the older one.
pub open spec fn spec_diff(older: Seq<MountEntry>, newer: Seq<MountEntry>) -> Seq<ChangeView> {
    departures(arrivals(older, newer), newer, older)
}

/// One mount event for each row, in table order.
pub open spec fn spec_replay(table: Seq<MountEntry>) -> Seq<MountEventView> {
    Seq::new(table.len(), |i: int| MountEventView::Mount { filesystem: table[i] })
}

/// The first row that holds the mount of `entry` is the only first one.
pub proof fn lemma_first_pair_unique(table: Seq<MountEntry>, entry: MountEntry, i: int)
    requires
        is_first_pair(table, entry, i),
    ensures
        has_pair(table, entry),
        first_pair(table, entry) == i,
{
    let k = first_pair(table, entry);
    assert(is_first_pair(table, entry, k));
    if k < i {
        assert(!spec_paired(table[k], entry));
    }
    if i < k {
        assert(!spec_paired(table[i], entry));
    }
}

/// The first change that absorbs `entry` is the only first one.
pub proof fn lemma_first_absorber_unique(changes: Seq<ChangeView>, entry: MountEntry, i: int)
    requires
        is_first_absorber(changes, entry, i),
    ensures
        has_absorber(changes, entry),
        first_absorber(changes, entry) == i,
{
    let k = first_absorber(changes, entry);
    assert(is_first_absorber(changes, entry, k));
    if k < i {
        assert(!absorbs(changes[k], entry));
    }
    if i < k {
        assert(!absorbs(changes[i], entry));
    }
}

/// One snapshot of mount state: rows in the order in which they were read.
#[derive(Debug, PartialEq, Eq)]
pub struct Table {
    entries: Vec<FileSystem>,
}

impl View for Table {
    type V = Seq<MountEntry>;

    closed spec fn view(&self) -> Seq<MountEntry> {
        entries_view(self.entries@)
    }
}

impl Clone for Table {
    fn clone(&self) -> (r: Self)
        ensures
            r@ == self@,
    {
        let mut entries: Vec<FileSystem> = Vec::new();
        let mut i: usize = 0;
        while i < self.entries.len()
            invariant
                i <= self.entries.len(),
                entries_view(entries@) == self@.take(i as int),
            decreases self.entries.len() - i,
        {
            let ghost copied = entries_view(entries@);
            entries.push(self.entries[i].clone());
            assert(entries_view(entries@) =~= copied.push(self@[i as int]));
            assert(self@.take(i + 1) =~= self@.take(i as int).push(self@[i as int]));
            i = i + 1;
        }
        assert(self@.take(i as int) =~= self@);
        Table { entries }
    }
}

impl Table {
    /// A table without rows.
    pub fn new() -> (r: Result<Self, AllocationError<Self>>)
        ensures
            r is Ok,
            r->Ok_0@ == Seq::<MountEntry>::empty(),
    {
        let table = Table { entries: Vec::new() };
        assert(table@ =~= Seq::<MountEntry>::empty());
        Ok(table)
    }

    /// A table with these rows, in this order.
    pub fn from_entries(entries: Vec<FileSystem>) -> (r: Self)
        ensures
            r@ == entries_view(entries@),
    {
        Table { entries }
    }

    /// Adds a row after those that the table holds.
    pub fn push(&mut self, entry: FileSystem)
        ensures
            final(self)@ == old(self)@.push(entry@),
    {
        self.entries.push(entry);
        assert(self@ =~= old(self)@.push(entry@));
    }

    pub fn len(&self) -> (r: usize)
        ensures
            r == self@.len(),
    {
        self.entries.len()
    }

    pub fn is_empty(&self) -> (r: bool)
        ensures
            r == (self@.len() == 0),
    {
        self.entries.len() == 0
    }

    /// The row at `index`, counted from 0 in table order.
    pub fn get(&self, index: usize) -> (r: Option<&FileSystem>)
        ensures
            r is Some <==> index < self@.len(),
            r is Some ==> r->Some_0@ == self@[index as int],
    {
        if index < self.entries.len() {
            Some(&self.entries[index])
        } else {
            None
        }
    }

    /// Whether the table holds the mount of `entry` with the same options.
    pub fn holds_unchanged(&self, entry: &FileSystem) -> (r: bool)
        ensures
            r == has_unchanged(self@, entry@),
    {
        let mut i: usize = 0;
        while i < self.entries.len()
            invariant
                i <= self.entries.len(),
                forall|j: int| 0 <= j < i ==> !spec_unchanged(#[trigger] self@[j], entry@),
            decreases self.entries.len() - i,
        {
            if self.entries[i].unchanged(entry) {
                assert(spec_unchanged(self@[i as int], entry@));
                return true;
            }
            i = i + 1;
        }
        false
    }

    /// The index of the first row that holds the mount of `entry`.
    pub fn find_pair(&self, entry: &FileSystem) -> (r: Option<usize>)
        ensures
            r is Some <==> has_pair(self@, entry@),
            r is Some ==> is_first_pair(self@, entry@, r->Some_0 as int),
            r is Some ==> r->Some_0 as int == first_pair(self@, entry@),
    {
        let mut i: usize = 0;
        while i < self.entries.len()
            invariant
                i <= self.entries.len(),
                forall|j: int| 0 <= j < i ==> !spec_paired(#[trigger] self@[j], entry@),
            decreases self.entries.len() - i,
        {
            if self.entries[i].paired(entry) {
                proof {
                    lemma_first_pair_unique(self@, entry@, i as int);
                }
                return Some(i);
            }
            i = i + 1;
        }
        None
    }

    /// One mount event for each row, in table order.
    pub fn replay(&self) -> (r: Vec<MountEvent>)
        ensures
            events_view(r@) == spec_replay(self@),
            r@.len() == self@.len(),
    {
        let mut events: Vec<MountEvent> = Vec::new();
        let mut i: usize = 0;
        while i < self.entries.len()
            invariant
                i <= self.entries.len(),
                events_view(events@) == spec_replay(self@.take(i as int)),
            decreases self.entries.len() - i,
        {
            let ghost replayed = events_view(events@);
            events.push(MountEvent::Mount { filesystem: self.entries[i].clone() });
            assert(events_view(events@) =~= replayed.push(
                MountEventView::Mount { filesystem: self@[i as int] },
            ));
            assert(spec_replay(self@.take(i + 1)) =~= spec_replay(self@.take(i as int)).push(
                MountEventView::Mount { filesystem: self@[i as int] },
            ));
            i = i + 1;
        }
        assert(self@.take(i as int) =~= self@);
        events
    }

    /// Compares this table, the older one, with `other`, the newer one.
    /// The result walks the differences from the first on.
    pub fn diff(&self, other: &Table) -> (r: Result<Iter<TableDiff>, Error>)
        ensures
            r is Ok,
            r->Ok_0.source()@ == spec_diff(self@, other@),
            r->Ok_0.cursor().spec_taken() == 0,
            r->Ok_0.cursor().spec_direction() == Direction::Forward,
            well_formed_changes(r->Ok_0.source()@),
            self@ == other@ ==> r->Ok_0.source()@.len() == 0,
            self@.len() == 0 ==> r->Ok_0.source()@ == spec_mounts(other@),
            other@.len() == 0 ==> r->Ok_0.source()@ == spec_unmounts(self@),
    {
        proof {
            lemma_diff_is_classified(self@, other@);
            if self@ == other@ {
                lemma_diff_of_same_is_empty(self@);
            }
            if self@.len() == 0 {
                assert(self@ =~= Seq::<MountEntry>::empty());
                lemma_diff_from_empty(other@);
            }
            if other@.len() == 0 {
                assert(other@ =~= Seq::<MountEntry>::empty());
                lemma_diff_to_empty(self@);
            }
        }
        let mut changes: Vec<Change> = Vec::new();
        let mut j: usize = 0;
        while j < other.entries.len()
            invariant
                j <= other.entries.len(),
                changes_view(changes@) == arrivals(self@, other@.take(j as int)),
            decreases other.entries.len() - j,
        {
            let entry = &other.entries[j];
            proof {
                assert(other@.take(j + 1).drop_last() =~= other@.take(j as int));
                assert(other@.take(j + 1).last() == entry@);
            }
            if self.holds_unchanged(entry) {
                assert(changes_view(changes@) =~= arrivals(self@, other@.take(j + 1)));
            } else {
                match self.find_pair(entry) {
                    Some(i) => {
                        changes.push(
                            Change {
                                operation: DiffOperation::Remount.raw(),
                                before: Some(self.entries[i].clone()),
                                after: Some(entry.clone()),
                            },
                        );
                    },
                    None => {
                        changes.push(
                            Change {
                                operation: DiffOperation::Mount.raw(),
                                before: None,
                                after: Some(entry.clone()),
                            },
                        );
                    },
                }
                assert(changes_view(changes@) =~= arrivals(self@, other@.take(j + 1)));
            }
            j = j + 1;
        }
        assert(other@.take(j as int) =~= other@);
        let mut i: usize = 0;
        while i < self.entries.len()
            invariant
                i <= self.entries.len(),
                changes_view(changes@) == departures(
                    arrivals(self@, other@),
                    other@,
                    self@.take(i as int),
                ),
            decreases self.entries.len() - i,
        {
            let entry = &self.entries[i];
            proof {
                assert(self@.take(i + 1).drop_last() =~= self@.take(i as int));
                assert(self@.take(i + 1).last() == entry@);
            }
            let ghost before = changes_view(changes@);
            if other.find_pair(entry).is_none() {
                match find_absorber(&changes, entry) {
                    Some(k) => {
                        let after = match &changes[k].after {
                            Some(fs) => Some(fs.clone()),
                            None => None,
                        };
                        changes.set(
                            k,
                            Change {
                                operation: DiffOperation::Move.raw(),
                                before: Some(entry.clone()),
                                after,
                            },
                        );
                    },
                    None => {
                        changes.push(
                            Change {
                                operation: DiffOperation::UMount.raw(),
                                before: Some(entry.clone()),
                                after: None,
                            },
                        );
                    },
                }
            }
            assert(changes_view(changes@) =~= departure(before, other@, entry@));
            i = i + 1;
        }
        assert(self@.take(i as int) =~= self@);
        Ok(Iter(TableDiff { changes }, IterInternal::new(Direction::Forward).unwrap()))
    }

    /// A walk over the rows in table order, from the first on. Every call
    /// gives a walk of its own.
    pub fn iter(&self) -> (r: Result<Iter<Table>, Error>)
        ensures
            r is Ok,
            r->Ok_0.source()@ == self@,
            r->Ok_0.cursor().spec_taken() == 0,
            r->Ok_0.cursor().spec_direction() == Direction::Forward,
    {
        Ok(Iter(self.clone(), IterInternal::new(Direction::Forward).unwrap()))
    }

    /// The events that lead from this table, the older one, to `newer`, in
    /// the order in which the differences are reported.
    pub fn changes(&self, newer: &Table) -> (r: Vec<MountEvent>)
        ensures
            events_view(r@) == spec_changes(self@, newer@),
            r@.len() == spec_diff(self@, newer@).len(),
            self@ == newer@ ==> r@.len() == 0,
            self@.len() == 0 ==> events_view(r@) == spec_replay(newer@),
    {
        let mut walk = self.diff(newer).unwrap();
        let ghost found = walk.source()@;
        proof {
            lemma_diff_is_classified(self@, newer@);
            if self@ == newer@ {
                lemma_diff_of_same_is_empty(self@);
            }
            if self@.len() == 0 {
                assert(self@ =~= Seq::<MountEntry>::empty());
                lemma_diff_from_empty(newer@);
            }
        }
        let mut events: Vec<MountEvent> = Vec::new();
        loop
            invariant
                walk.source()@ == found,
                found == spec_diff(self@, newer@),
                well_formed_changes(found),
                self@ == newer@ ==> found.len() == 0,
                self@.len() == 0 ==> spec_changes(self@, newer@) == spec_replay(newer@),
                walk.cursor().spec_direction() == Direction::Forward,
                walk.cursor().spec_taken() == events@.len(),
                events@.len() <= found.len(),
                events_view(events@) == found.take(events@.len() as int).map_values(
                    |change: ChangeView| spec_event(change),
                ),
            decreases found.len() - events@.len(),
        {
            let ghost k = events@.len() as int;
            let ghost before = events_view(events@);
            match walk.next() {
                Some(Ok(event)) => {
                    events.push(event);
                    assert(events_view(events@) =~= before.push(spec_event(found[k])));
                    assert(found.take(k + 1).map_values(|change: ChangeView| spec_event(change))
                        =~= before.push(spec_event(found[k])));
                },
                Some(Err(_)) => {
                    assert(spec_classify(found[k]) is Ok);
                    return events;
                },
                None => {
                    assert(found.take(k) =~= found);
                    return events;
                },
            }
        }
    }
}

/// The index of the first change that reports a mount which may be `entry`
/// at a new place.
fn find_absorber(changes: &Vec<Change>, entry: &FileSystem) -> (r: Option<usize>)
    ensures
        r is Some <==> has_absorber(changes_view(changes@), entry@),
        r is Some ==> is_first_absorber(changes_view(changes@), entry@, r->Some_0 as int),
        r is Some ==> r->Some_0 as int == first_absorber(changes_view(changes@), entry@),
{
    let mut k: usize = 0;
    while k < changes.len()
        invariant
            k <= changes.len(),
            forall|j: int|
                0 <= j < k ==> !absorbs(#[trigger] changes_view(changes@)[j], entry@),
        decreases changes.len() - k,
    {
        let change = &changes[k];
        let found = change.operation == DiffOperation::Mount.raw() && match &change.after {
            Some(fs) => fs.relocated(entry),
            None => false,
        };
        if found {
            proof {
                lemma_first_absorber_unique(changes_view(changes@), entry@, k as int);
            }
            return Some(k);
        }
        k = k + 1;
    }
    None
}

/// The differences that one comparison of two tables found.
#[derive(Debug, PartialEq, Eq)]
pub struct TableDiff {
    changes: Vec<Change>,
}

impl View for TableDiff {
    type V = Seq<ChangeView>;

    closed spec fn view(&self) -> Seq<ChangeView> {
        changes_view(self.changes@)
    }
}

impl TableDiff {
    /// The differences that a comparison made elsewhere reported, in its
    /// order.
    pub fn from_changes(changes: Vec<Change>) -> (r: Self)
        ensures
            r@ == changes_view(changes@),
    {
        TableDiff { changes }
    }

    /// The number of differences.
    pub fn len(&self) -> (r: usize)
        ensures
            r == self@.len(),
    {
        self.changes.len()
    }

    /// A walk over the differences, from the first on.
    pub fn into_iter(self) -> (r: Iter<TableDiff>)
        ensures
            r.source() == self,
            r.cursor().spec_taken() == 0,
            r.cursor().spec_direction() == Direction::Forward,
    {
        Iter(self, IterInternal::new(Direction::Forward).unwrap())
    }
}

/// A walk over a table or over the differences of two tables.
#[derive(Debug, PartialEq, Eq)]
pub struct Iter<T>(T, IterInternal);

impl<T> Iter<T> {
    /// What is walked over.
    pub closed spec fn source(self) -> T {
        self.0
    }

    /// Where the walk stands.
    pub closed spec fn cursor(self) -> IterInternal {
        self.1
    }

    /// Starts the walk anew; with `Some`, in the direction given.
    pub fn reset(&mut self, direction: Option<Direction>)
        ensures
            final(self).source() == old(self).source(),
            final(self).cursor().spec_taken() == 0,
            final(self).cursor().spec_direction() == match direction {
                Some(d) => d,
                None => old(self).cursor().spec_direction(),
            },
    {
        self.1.reset(direction);
    }
}

impl Iter<Table> {
    /// The next row, or `None` after the last.
    pub fn next(&mut self) -> (r: Option<Result<FileSystem, Error>>)
        ensures
            final(self).source() == old(self).source(),
            final(self).cursor().spec_direction() == old(self).cursor().spec_direction(),
            match old(self).cursor().spec_index(old(self).source()@.len()) {
                Some(i) => {
                    &&& r matches Some(Ok(fs)) && fs@ == old(self).source()@[i]
                    &&& final(self).cursor().spec_taken() == old(self).cursor().spec_taken() + 1
                },
                None => r is None && final(self).cursor() == old(self).cursor(),
            },
    {
        match self.1.index(self.0.entries.len()) {
            Some(i) => {
                let entry = self.0.entries[i].clone();
                self.1.advance();
                Some(Ok(entry))
            },
            None => None,
        }
    }
}

impl Iter<TableDiff> {
    /// The event of the next difference, or `None` after the last. A
    /// difference of unknown kind is reported, not passed over.
    pub fn next(&mut self) -> (r: Option<Result<MountEvent, Error>>)
        ensures
            final(self).source() == old(self).source(),
            final(self).cursor().spec_direction() == old(self).cursor().spec_direction(),
            match old(self).cursor().spec_index(old(self).source()@.len()) {
                Some(i) => {
                    &&& r matches Some(outcome) && outcome_view(outcome) == spec_classify(
                        old(self).source()@[i],
                    )
                    &&& final(self).cursor().spec_taken() == old(self).cursor().spec_taken() + 1
                },
                None => r is None && final(self).cursor() == old(self).cursor(),
            },
    {
        match self.1.index(self.0.changes.len()) {
            Some(i) => {
                let outcome = self.0.changes[i].classify();
                self.1.advance();
                Some(outcome)
            },
            None => None,
        }
    }
}

/// The event of a change whose code is known.
pub open spec fn spec_event(change: ChangeView) -> MountEventView {
    spec_classify(change)->Ok_0
}

/// The events that lead from the older table to the newer one.
pub open spec fn spec_changes(older: Seq<MountEntry>, newer: Seq<MountEntry>) -> Seq<
    MountEventView,
> {
    spec_diff(older, newer).map_values(|change: ChangeView| spec_event(change))
}

/// What walking the changes yields, one outcome for each change.
pub open spec fn spec_outcomes(changes: Seq<ChangeView>) -> Seq<Result<MountEventView, Error>> {
    changes.map_values(|change: ChangeView| spec_classify(change))
}

/// Whether a raw code is that of one of the five kinds of change.
pub open spec fn known_operation(operation: i32) -> bool {
    1 <= operation <= 5
}

/// A change is turned into exactly one event of the five kinds of change
/// when its code is known, and into the report of its code when it is not:
/// it is never passed over, and never becomes an event of another kind.
pub proof fn lemma_classification_is_closed(change: ChangeView)
    ensures
        known_operation(change.operation) <==> spec_classify(change) is Ok,
        !known_operation(change.operation) ==> spec_classify(change) == Err::<
            MountEventView,
            Error,
        >(Error::UndefinedDiffOperation(spec_unsigned(change.operation))),
        spec_classify(change) matches Ok(event) ==> {
            &&& event.kind() != MountEventKind::MonitorUpdate
            &&& DiffOperation::spec_try_from(change.operation) matches Ok(operation)
            &&& event.kind() == match operation {
                DiffOperation::Move => MountEventKind::Move,
                DiffOperation::UMount => MountEventKind::UMount,
                DiffOperation::Remount => MountEventKind::Remount,
                DiffOperation::Mount => MountEventKind::Mount,
                DiffOperation::Propagation => MountEventKind::Propagate,
            }
        },
{
}

/// Whether every change has the code of a mount, an unmount, a move or a
/// remount, and holds the rows that its kind speaks of.
pub open spec fn well_formed_changes(changes: Seq<ChangeView>) -> bool {
    forall|k: int|
        0 <= k < changes.len() ==> {
            let change = #[trigger] changes[k];
            ||| change.operation == DiffOperation::Mount.spec_raw() && change.before is None
                && change.after is Some
            ||| change.operation == DiffOperation::Remount.spec_raw() && change.before is Some
                && change.after is Some
            ||| change.operation == DiffOperation::Move.spec_raw() && change.before is Some
                && change.after is Some
            ||| change.operation == DiffOperation::UMount.spec_raw() && change.before is Some
                && change.after is None
        }
}

proof fn lemma_arrivals_well_formed(older: Seq<MountEntry>, newer: Seq<MountEntry>)
    ensures
        well_formed_changes(arrivals(older, newer)),
    decreases newer.len(),
{
    if newer.len() > 0 {
        lemma_arrivals_well_formed(older, newer.drop_last());
    }
}

proof fn lemma_departures_well_formed(
    changes: Seq<ChangeView>,
    newer: Seq<MountEntry>,
    older: Seq<MountEntry>,
)
    requires
        well_formed_changes(changes),
    ensures
        well_formed_changes(departures(changes, newer, older)),
    decreases older.len(),
{
    if older.len() > 0 {
        lemma_departures_well_formed(changes, newer, older.drop_last());
        let found = departures(changes, newer, older.drop_last());
        let entry = older.last();
        if !has_pair(newer, entry) && has_absorber(found, entry) {
            let k = choose|k: int| 0 <= k < found.len() && absorbs(#[trigger] found[k], entry);
            lemma_has_first_absorber(found, entry, k);
        }
    }
}

/// Where some change absorbs `entry`, one of them is the first.
proof fn lemma_has_first_absorber(changes: Seq<ChangeView>, entry: MountEntry, k: int)
    requires
        0 <= k < changes.len(),
        absorbs(changes[k], entry),
    ensures
        is_first_absorber(changes, entry, first_absorber(changes, entry)),
    decreases k,
{
    if exists|j: int| 0 <= j < k && absorbs(#[trigger] changes[j], entry) {
        let j = choose|j: int| 0 <= j < k && absorbs(#[trigger] changes[j], entry);
        lemma_has_first_absorber(changes, entry, j);
    } else {
        assert(is_first_absorber(changes, entry, k));
    }
}

/// Every difference between two tables is a mount, an unmount, a move or a
/// remount: walking them yields an event each time, never a failure.
pub proof fn lemma_diff_is_classified(older: Seq<MountEntry>, newer: Seq<MountEntry>)
    ensures
        well_formed_changes(spec_diff(older, newer)),
        forall|k: int|
            0 <= k < spec_diff(older, newer).len() ==> {
                &&& spec_classify(#[trigger] spec_diff(older, newer)[k]) matches Ok(event)
                &&& event.kind() != MountEventKind::MonitorUpdate
                &&& event.kind() != MountEventKind::Propagate
            },
{
    lemma_arrivals_well_formed(older, newer);
    lemma_departures_well_formed(arrivals(older, newer), newer, older);
}

proof fn lemma_arrivals_of_held(older: Seq<MountEntry>, newer: Seq<MountEntry>)
    requires
        forall|i: int| 0 <= i < newer.len() ==> #[trigger] has_unchanged(older, newer[i]),
    ensures
        arrivals(older, newer) == Seq::<ChangeView>::empty(),
    decreases newer.len(),
{
    if newer.len() > 0 {
        lemma_arrivals_of_held(older, newer.drop_last());
        assert(has_unchanged(older, newer[newer.len() - 1]));
        assert(arrivals(older, newer) =~= Seq::<ChangeView>::empty());
    }
}

proof fn lemma_departures_of_held(
    changes: Seq<ChangeView>,
    newer: Seq<MountEntry>,
    older: Seq<MountEntry>,
)
    requires
        forall|i: int| 0 <= i < older.len() ==> #[trigger] has_pair(newer, older[i]),
    ensures
        departures(changes, newer, older) == changes,
    decreases older.len(),
{
    if older.len() > 0 {
        lemma_departures_of_held(changes, newer, older.drop_last());
        assert(has_pair(newer, older[older.len() - 1]));
    }
}

/// A table does not differ from itself.
pub proof fn lemma_diff_of_same_is_empty(table: Seq<MountEntry>)
    ensures
        spec_diff(table, table) == Seq::<ChangeView>::empty(),
        spec_outcomes(spec_diff(table, table)) == Seq::<Result<MountEventView, Error>>::empty(),
        spec_changes(table, table) == Seq::<MountEventView>::empty(),
{
    lemma_table_holds_its_rows(table);
    lemma_arrivals_of_held(table, table);
    lemma_departures_of_held(Seq::<ChangeView>::empty(), table, table);
    assert(spec_outcomes(Seq::<ChangeView>::empty()) =~= Seq::<
        Result<MountEventView, Error>,
    >::empty());
    assert(spec_changes(table, table) =~= Seq::<MountEventView>::empty());
}

proof fn lemma_table_holds_its_rows(table: Seq<MountEntry>)
    ensures
        forall|i: int| 0 <= i < table.len() ==> #[trigger] has_unchanged(table, table[i]),
        forall|i: int| 0 <= i < table.len() ==> #[trigger] has_pair(table, table[i]),
{
    assert forall|i: int| 0 <= i < table.len() implies #[trigger] has_unchanged(
        table,
        table[i],
    ) by {
        lemma_row_is_held(table, i);
    }
    assert forall|i: int| 0 <= i < table.len() implies #[trigger] has_pair(table, table[i]) by {
        lemma_row_is_held(table, i);
    }
}

proof fn lemma_row_is_held(table: Seq<MountEntry>, i: int)
    requires
        0 <= i < table.len(),
    ensures
        has_unchanged(table, table[i]),
        has_pair(table, table[i]),
{
    assert(spec_unchanged(table[i], table[i]));
    assert(spec_paired(table[i], table[i]));
}

/// The mount of every row, in table order.
pub open spec fn spec_mounts(table: Seq<MountEntry>) -> Seq<ChangeView> {
    Seq::new(
        table.len(),
        |i: int|
            ChangeView {
                operation: DiffOperation::Mount.spec_raw(),
                before: None,
                after: Some(table[i]),
            },
    )
}

proof fn lemma_arrivals_into_empty(newer: Seq<MountEntry>)
    ensures
        arrivals(Seq::<MountEntry>::empty(), newer) == spec_mounts(newer),
    decreases newer.len(),
{
    let none = Seq::<MountEntry>::empty();
    if newer.len() > 0 {
        lemma_arrivals_into_empty(newer.drop_last());
        assert(!has_unchanged(none, newer.last()));
        assert(!has_pair(none, newer.last()));
        assert(arrivals(none, newer) =~= spec_mounts(newer));
    } else {
        assert(arrivals(none, newer) =~= spec_mounts(newer));
    }
}

/// Against the table without rows, a table differs by the mount of each of
/// its rows, in table order, and by nothing else.
pub proof fn lemma_diff_from_empty(table: Seq<MountEntry>)
    ensures
        spec_diff(Seq::<MountEntry>::empty(), table) == spec_mounts(table),
        spec_outcomes(spec_diff(Seq::<MountEntry>::empty(), table)) == spec_replay(
            table,
        ).map_values(|event: MountEventView| Ok::<MountEventView, Error>(event)),
        spec_changes(Seq::<MountEntry>::empty(), table) == spec_replay(table),
{
    lemma_arrivals_into_empty(table);
    assert(spec_changes(Seq::<MountEntry>::empty(), table) =~= spec_replay(table));
    assert(spec_outcomes(spec_mounts(table)) =~= spec_replay(table).map_values(
        |event: MountEventView| Ok::<MountEventView, Error>(event),
    ));
}

/// The unmount of every row, in table order.
pub open spec fn spec_unmounts(table: Seq<MountEntry>) -> Seq<ChangeView> {
    Seq::new(
        table.len(),
        |i: int|
            ChangeView {
                operation: DiffOperation::UMount.spec_raw(),
                before: Some(table[i]),
                after: None,
            },
    )
}

proof fn lemma_departures_into_empty(older: Seq<MountEntry>)
    ensures
        departures(Seq::<ChangeView>::empty(), Seq::<MountEntry>::empty(), older) == spec_unmounts(
            older,
        ),
    decreases older.len(),
{
    let none = Seq::<MountEntry>::empty();
    let nothing = Seq::<ChangeView>::empty();
    if older.len() > 0 {
        lemma_departures_into_empty(older.drop_last());
        let found = departures(nothing, none, older.drop_last());
        assert(!has_pair(none, older.last()));
        assert(!has_absorber(found, older.last()));
        assert(departures(nothing, none, older) =~= spec_unmounts(older));
    } else {
        assert(departures(nothing, none, older) =~= spec_unmounts(older));
    }
}

/// Against a table, the table without rows differs by the unmount of each
/// row of the first, in table order, and by nothing else.
pub proof fn lemma_diff_to_empty(table: Seq<MountEntry>)
    ensures
        spec_diff(table, Seq::<MountEntry>::empty()) == spec_unmounts(table),
{
    lemma_departures_into_empty(table);
}

} // verus!

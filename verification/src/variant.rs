use vstd::prelude::*;

use crate::GeoError;

verus! {

/// Lifecycle of a `VariantBuilder`: untouched, accepting appends, or
/// sealed.
#[derive(Clone, Copy, Debug, PartialEq, Eq, Structural)]
pub enum BuilderState {
    Uninitialized,
    Active,
    Finished,
}

/// Mathematical value of a `VariantBuilder`: its lifecycle state and
/// the entries (value or null) accounted for so far, one per row.
#[verifier::ext_equal]
pub struct BuilderModel<TV> {
    pub state: BuilderState,
    pub entries: Seq<Option<TV>>,
}

impl<TV> BuilderModel<TV> {
    /// The row cursor: number of rows already accounted for, by value
    /// or by null.
    pub open spec fn cursor(self) -> int {
        self.entries.len() as int
    }

    /// A builder that has never been appended to.
    pub open spec fn uninitialized() -> BuilderModel<TV> {
        BuilderModel { state: BuilderState::Uninitialized, entries: Seq::empty() }
    }

    /// A builder that exists from the start with no entries yet.
    pub open spec fn empty_active() -> BuilderModel<TV> {
        BuilderModel { state: BuilderState::Active, entries: Seq::empty() }
    }
}

/// A sequence of `n` nulls.
pub open spec fn nulls<TV>(n: int) -> Seq<Option<TV>> {
    Seq::new(if n >= 0 { n as nat } else { 0 }, |i: int| None)
}

/// Entries after appending `v` for row `target`: the rows between the
/// old cursor and `target` are first filled with nulls.
pub open spec fn appended<TV>(entries: Seq<Option<TV>>, target: int, v: Option<TV>) -> Seq<
    Option<TV>,
> {
    entries + nulls(target - entries.len()) + seq![v]
}

/// Entries padded with nulls up to length `n`.
pub open spec fn padded<TV>(entries: Seq<Option<TV>>, n: int) -> Seq<Option<TV>> {
    entries + nulls(n - entries.len())
}

/// A finished, immutable variant column: one nullable entry per row.
pub struct VariantColumn<T> {
    entries: Vec<Option<T>>,
}

impl<T: DeepView> View for VariantColumn<T> {
    type V = Seq<Option<T::V>>;

    closed spec fn view(&self) -> Seq<Option<T::V>> {
        self.entries.deep_view()
    }
}

impl<T: DeepView> VariantColumn<T> {
    /// Wrap already-built entries as a column.
    pub fn from_entries(entries: Vec<Option<T>>) -> (c: VariantColumn<T>)
        ensures
            c@ == entries.deep_view(),
    {
        VariantColumn { entries }
    }

    /// Number of rows in the column.
    pub fn len(&self) -> (n: usize)
        ensures
            n == self@.len(),
    {
        self.entries.len()
    }

    /// The entry for row `i`.
    pub fn get(&self, i: usize) -> (r: &Option<T>)
        requires
            i < self@.len(),
        ensures
            r.deep_view() == self@[i as int],
    {
        &self.entries[i]
    }

    /// Whether the entry for row `i` is null.
    pub fn is_null(&self, i: usize) -> (r: bool)
        requires
            i < self@.len(),
        ensures
            r == (self@[i as int] is None),
    {
        self.entries[i].is_none()
    }
}

/// A lazily materialized, row-synchronized growable array for exactly
/// one geometry kind. Appends name the row they belong to; the gap
/// between the cursor and that row is filled with nulls, so rows from
/// before the builder came into existence read back as null.
pub struct VariantBuilder<T> {
    state: BuilderState,
    entries: Vec<Option<T>>,
}

impl<T: DeepView> View for VariantBuilder<T> {
    type V = BuilderModel<T::V>;

    closed spec fn view(&self) -> BuilderModel<T::V> {
        BuilderModel { state: self.state, entries: self.entries.deep_view() }
    }
}

impl<T: DeepView> VariantBuilder<T> {
    /// A builder that will only materialize on its first append.
    pub fn new() -> (b: VariantBuilder<T>)
        ensures
            b@ == BuilderModel::<T::V>::uninitialized(),
    {
        let b = VariantBuilder { state: BuilderState::Uninitialized, entries: Vec::new() };
        proof {
            assert(b@ =~= BuilderModel::<T::V>::uninitialized());
        }
        b
    }

    /// A builder that exists from the start, as the attribute columns
    /// do.
    pub fn new_active() -> (b: VariantBuilder<T>)
        ensures
            b@ == BuilderModel::<T::V>::empty_active(),
    {
        let b = VariantBuilder { state: BuilderState::Active, entries: Vec::new() };
        proof {
            assert(b@ =~= BuilderModel::<T::V>::empty_active());
        }
        b
    }

    /// The builder's lifecycle state.
    pub fn state(&self) -> (s: BuilderState)
        ensures
            s == self@.state,
    {
        self.state
    }

    /// The row cursor.
    pub fn cursor(&self) -> (n: usize)
        ensures
            n == self@.cursor(),
    {
        self.entries.len()
    }

    /// Append `entry` (a value, or an explicit null) as the entry of
    /// row `target_row`, first filling the rows since the cursor with
    /// nulls. Fails on a sealed builder and changes nothing then.
    pub fn append_entry(&mut self, entry: Option<T>, target_row: usize) -> (r: Result<
        (),
        GeoError,
    >)
        requires
            old(self)@.cursor() <= target_row,
        ensures
            old(self)@.state == BuilderState::Finished ==> r == Err::<(), GeoError>(
                GeoError::InvalidState,
            ) && final(self)@ == old(self)@,
            old(self)@.state != BuilderState::Finished ==> r == Ok::<(), GeoError>(())
                && final(self)@ == (BuilderModel {
                state: BuilderState::Active,
                entries: appended(old(self)@.entries, target_row as int, entry.deep_view()),
            }),
    {
        if matches!(self.state, BuilderState::Finished) {
            return Err(GeoError::InvalidState);
        }
        let ghost start = self@.entries;
        while self.entries.len() < target_row
            invariant
                self.entries.deep_view() == padded(start, self.entries.deep_view().len() as int),
                self.entries.deep_view().len() <= target_row,
                start.len() <= self.entries.deep_view().len(),
            decreases target_row - self.entries.len(),
        {
            let ghost before = self.entries.deep_view();
            self.entries.push(None);
            proof {
                assert(self.entries.deep_view() =~= before.push(None));
                assert(self.entries.deep_view() =~= padded(
                    start,
                    self.entries.deep_view().len() as int,
                ));
            }
        }
        let ghost before = self.entries.deep_view();
        self.entries.push(entry);
        self.state = BuilderState::Active;
        proof {
            assert(self.entries.deep_view() =~= before.push(entry.deep_view()));
            assert(self.entries.deep_view() =~= appended(
                start,
                target_row as int,
                entry.deep_view(),
            ));
        }
        Ok(())
    }

    /// Append a value for row `target_row`.
    pub fn append(&mut self, value: T, target_row: usize) -> (r: Result<(), GeoError>)
        requires
            old(self)@.cursor() <= target_row,
        ensures
            old(self)@.state == BuilderState::Finished ==> r == Err::<(), GeoError>(
                GeoError::InvalidState,
            ) && final(self)@ == old(self)@,
            old(self)@.state != BuilderState::Finished ==> r == Ok::<(), GeoError>(())
                && final(self)@ == (BuilderModel {
                state: BuilderState::Active,
                entries: appended(
                    old(self)@.entries,
                    target_row as int,
                    Some(value.deep_view()),
                ),
            }),
    {
        self.append_entry(Some(value), target_row)
    }

    /// Append an explicit null for row `target_row`.
    pub fn append_null(&mut self, target_row: usize) -> (r: Result<(), GeoError>)
        requires
            old(self)@.cursor() <= target_row,
        ensures
            old(self)@.state == BuilderState::Finished ==> r == Err::<(), GeoError>(
                GeoError::InvalidState,
            ) && final(self)@ == old(self)@,
            old(self)@.state != BuilderState::Finished ==> r == Ok::<(), GeoError>(())
                && final(self)@ == (BuilderModel {
                state: BuilderState::Active,
                entries: appended(old(self)@.entries, target_row as int, None),
            }),
    {
        self.append_entry(None, target_row)
    }

    /// Pad with nulls up to `final_row_count` rows, seal the builder,
    /// and hand the entries out as an immutable column. Fails on an
    /// already sealed builder and changes nothing then.
    pub fn finish(&mut self, final_row_count: usize) -> (r: Result<VariantColumn<T>, GeoError>)
        requires
            old(self)@.cursor() <= final_row_count,
        ensures
            old(self)@.state == BuilderState::Finished ==> r is Err && r->Err_0
                == GeoError::InvalidState && final(self)@ == old(self)@,
            old(self)@.state != BuilderState::Finished ==> r is Ok && r->Ok_0@ == padded(
                old(self)@.entries,
                final_row_count as int,
            ) && final(self)@ == (BuilderModel::<T::V> {
                state: BuilderState::Finished,
                entries: Seq::empty(),
            }),
    {
        if matches!(self.state, BuilderState::Finished) {
            return Err(GeoError::InvalidState);
        }
        let ghost start = self@.entries;
        while self.entries.len() < final_row_count
            invariant
                self.entries.deep_view() == padded(start, self.entries.deep_view().len() as int),
                self.entries.deep_view().len() <= final_row_count,
                start.len() <= self.entries.deep_view().len(),
            decreases final_row_count - self.entries.len(),
        {
            let ghost before = self.entries.deep_view();
            self.entries.push(None);
            proof {
                assert(self.entries.deep_view() =~= before.push(None));
                assert(self.entries.deep_view() =~= padded(
                    start,
                    self.entries.deep_view().len() as int,
                ));
            }
        }
        let mut entries: Vec<Option<T>> = Vec::new();
        core::mem::swap(&mut self.entries, &mut entries);
        self.state = BuilderState::Finished;
        proof {
            assert(entries.deep_view() =~= padded(start, final_row_count as int));
            assert(self@ =~= (BuilderModel::<T::V> {
                state: BuilderState::Finished,
                entries: Seq::empty(),
            }));
        }
        Ok(VariantColumn { entries })
    }
}

} // verus!

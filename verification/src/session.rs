//! Session.
//!
//! A session owns one loaded waveform: the ordered time table, the
//! variable hierarchy, the signal source, and the two caches — variable
//! name to signal reference, and signal reference to loaded record. Every
//! query goes through it; exactly one session is meant to be alive at a
//! time.

use crate::backend::{
    hierarchy_var_entries, hierarchy_vars, load_signal, sample_at, sample_track, VarEntry, VarKind,
};
use crate::decode::{
    decode_sample, decoded_correctly, spec_bin_string, DecodeFault, DecodedValue, Sample,
    ValueFormat,
};
use crate::decode::{binary_string_two_state, string_from_chars};
use crate::policy::{should_persist_caches, spec_should_persist};
use crate::resolver::{find_nearest_time_index, non_decreasing, spec_resolve_index};
use std::collections::HashMap;
use vstd::prelude::*;

verus! {

broadcast use vstd::std_specs::hash::group_hash_axioms;

/// A loaded sample track together with the kind of its variable.
pub struct SignalRecord {
    pub signal: wellen::Signal,
    pub kind: VarKind,
}

/// Resolving a name that no variable of the hierarchy carries: a caller
/// error, not recoverable for this component.
#[derive(PartialEq, Eq, Structural, Clone, Copy, Debug)]
pub struct LookupFailure;

/// Why a query failed. All of these are caller-contract violations or
/// documented unimplemented paths; the boundary treats them as fatal.
#[derive(PartialEq, Eq, Structural, Clone, Copy, Debug)]
pub enum QueryError {
    /// The handle names no loaded record: it was fabricated or is stale.
    UnknownHandle,
    /// The signal has no sample at or before the queried index.
    NoSample,
    /// The decoder refused the sample or the requested encoding.
    Fault(DecodeFault),
    /// The requested property is not implemented for this variable.
    UnsupportedProperty,
}

/// Process-wide state of one loaded waveform and its caches.
pub struct Session {
    /// Ordered timestamps, one per recorded simulation step.
    pub time_table: Vec<u64>,
    /// The backend's variable hierarchy.
    pub hierarchy: wellen::Hierarchy,
    /// The backend's signal source, consulted once per reference.
    pub source: wellen::SignalSource,
    /// Variable full name to signal reference; grows monotonically.
    pub names: Vec<(String, u64)>,
    /// Signal reference to loaded record.
    pub records: HashMap<u64, SignalRecord>,
    /// Whether this session added a reference the caches did not hold.
    pub has_new_refs: bool,
}

impl Session {
    /// The session invariant: the time table is non-decreasing and short
    /// enough to index, and each cached name stands at most once.
    pub open spec fn wf(self) -> bool {
        &&& non_decreasing(self.time_table@)
        &&& self.time_table@.len() <= u32::MAX
        &&& forall|i: int, j: int|
            0 <= i < j < self.names@.len() ==> (#[trigger] self.names@[i]).0@
                != (#[trigger] self.names@[j]).0@
    }

    /// Whether the reference cache holds a name.
    pub open spec fn caches_name(self, name: Seq<char>) -> bool {
        exists|i: int| 0 <= i < self.names@.len() && (#[trigger] self.names@[i]).0@ == name
    }

    /// The reference the cache maps a name to.
    pub open spec fn cached_ref(self, name: Seq<char>) -> u64 {
        self.names@[choose|i: int|
            0 <= i < self.names@.len() && (#[trigger] self.names@[i]).0@ == name].1
    }

    /// Whether some variable of the hierarchy carries a name.
    pub open spec fn hierarchy_has(self, name: Seq<char>) -> bool {
        exists|i: int|
            0 <= i < hierarchy_vars(self.hierarchy).len() && (#[trigger] hierarchy_vars(
                self.hierarchy,
            )[i]).full_name == name
    }

    /// Begin a session over a loaded waveform, with empty caches. Yields
    /// `None` when the time table is out of order or too long to index,
    /// which no waveform reader produces.
    pub fn new(
        time_table: Vec<u64>,
        hierarchy: wellen::Hierarchy,
        source: wellen::SignalSource,
    ) -> (r: Option<Session>)
        ensures
            match r {
                Some(s) => {
                    &&& s.wf()
                    &&& s.time_table@ == time_table@
                    &&& s.hierarchy == hierarchy
                    &&& s.source == source
                    &&& s.names@.len() == 0
                    &&& s.records@ == Map::<u64, SignalRecord>::empty()
                    &&& !s.has_new_refs
                },
                None => !(non_decreasing(time_table@) && time_table@.len() <= u32::MAX),
            },
    {
        if time_table.len() as u64 > u32::MAX as u64 {
            return None;
        }
        let n: usize = time_table.len();
        let mut i: usize = 1;
        while i < n
            invariant
                1 <= i,
                n == time_table@.len(),
                forall|p: int| 0 <= p < i - 1 ==> #[trigger] time_table@[p] <= time_table@[p + 1],
            decreases n - i,
        {
            if time_table[i - 1] > time_table[i] {
                return None;
            }
            i = i + 1;
        }
        proof {
            lemma_adjacent_implies_non_decreasing(time_table@);
        }
        Some(
            Session {
                time_table,
                hierarchy,
                source,
                names: Vec::new(),
                records: HashMap::new(),
                has_new_refs: false,
            },
        )
    }

    /// Index of the first cached entry that carries a name.
    fn find_name(&self, name: &String) -> (r: Option<usize>)
        ensures
            match r {
                Some(i) => i < self.names@.len() && self.names@[i as int].0@ == name@,
                None => !self.caches_name(name@),
            },
    {
        let mut i: usize = 0;
        while i < self.names.len()
            invariant
                i <= self.names@.len(),
                forall|q: int| 0 <= q < i ==> (#[trigger] self.names@[q]).0@ != name@,
            decreases self.names@.len() - i,
        {
            let entry = &self.names[i];
            if entry.0 == *name {
                return Some(i);
            }
            i = i + 1;
        }
        None
    }

    /// Restore one persisted name-to-reference entry. A name the cache
    /// already holds keeps its present reference.
    pub fn restore_name(&mut self, name: String, signal_index: u64)
        requires
            old(self).wf(),
        ensures
            final(self).wf(),
            final(self).time_table == old(self).time_table,
            final(self).hierarchy == old(self).hierarchy,
            final(self).source == old(self).source,
            final(self).records == old(self).records,
            final(self).has_new_refs == old(self).has_new_refs,
            old(self).caches_name(name@) ==> final(self).names == old(self).names,
            !old(self).caches_name(name@) ==> final(self).names@ == old(self).names@.push(
                (name, signal_index),
            ),
    {
        let hit = self.find_name(&name);
        if hit.is_none() {
            self.names.push((name, signal_index));
        }
    }

    /// Restore one persisted reference-to-record entry, or replace the
    /// record a reference already has.
    pub fn restore_record(&mut self, signal_index: u64, signal: wellen::Signal, kind: VarKind)
        requires
            old(self).wf(),
        ensures
            final(self).wf(),
            final(self).time_table == old(self).time_table,
            final(self).hierarchy == old(self).hierarchy,
            final(self).source == old(self).source,
            final(self).names == old(self).names,
            final(self).has_new_refs == old(self).has_new_refs,
            final(self).records@ == old(self).records@.insert(
                signal_index,
                SignalRecord { signal, kind },
            ),
    {
        self.records.insert(signal_index, SignalRecord { signal, kind });
    }

    /// Resolve a variable's fully qualified name to its signal reference.
    ///
    /// A cached name resolves at once, without consulting the backend. On
    /// a miss the hierarchy's variables are scanned in order; the first
    /// one carrying the name has its track loaded, both caches take the
    /// entry, and the session notes that something new was added. A name
    /// that no variable carries, and that the cache does not hold, is a
    /// lookup failure.
    pub fn resolve(&mut self, name: &String) -> (r: Result<u64, LookupFailure>)
        requires
            old(self).wf(),
        ensures
            final(self).wf(),
            final(self).time_table == old(self).time_table,
            final(self).hierarchy == old(self).hierarchy,
            r matches Ok(_) <==> (old(self).caches_name(name@) || old(self).hierarchy_has(
                name@,
            )),
            match r {
                Ok(handle) => {
                    if old(self).caches_name(name@) {
                        &&& handle == old(self).cached_ref(name@)
                        &&& *final(self) == *old(self)
                    } else {
                        &&& exists|i: int|
                            {
                                &&& 0 <= i < hierarchy_vars(old(self).hierarchy).len()
                                &&& (#[trigger] hierarchy_vars(old(self).hierarchy)[i]).full_name
                                    == name@
                                &&& forall|j: int|
                                    0 <= j < i ==> (#[trigger] hierarchy_vars(
                                        old(self).hierarchy,
                                    )[j]).full_name != name@
                                &&& handle == hierarchy_vars(old(self).hierarchy)[i].signal_index
                                &&& final(self).records@[handle].kind == hierarchy_vars(
                                    old(self).hierarchy,
                                )[i].kind
                            }
                        &&& final(self).names@.len() == old(self).names@.len() + 1
                        &&& final(self).names@.last().0@ == name@
                        &&& final(self).names@.last().1 == handle
                        &&& final(self).names@.take(old(self).names@.len() as int) == old(
                            self,
                        ).names@
                        &&& final(self).records@.dom() == old(self).records@.dom().insert(handle)
                        &&& forall|k: u64|
                            k != handle && old(self).records@.contains_key(k)
                                ==> final(self).records@[k] == old(self).records@[k]
                        &&& final(self).has_new_refs
                    }
                },
                Err(_) => {
                    &&& !old(self).caches_name(name@)
                    &&& !old(self).hierarchy_has(name@)
                    &&& *final(self) == *old(self)
                },
            },
    {
        let hit = self.find_name(name);
        if let Some(i) = hit {
            let handle = self.names[i].1;
            proof {
                let j = choose|j: int|
                    0 <= j < self.names@.len() && (#[trigger] self.names@[j]).0@ == name@;
                assert(j == i as int);
            }
            return Ok(handle);
        }
        let ghost gvars = hierarchy_vars(self.hierarchy);
        let entries = hierarchy_var_entries(&self.hierarchy);
        let n: usize = entries.len();
        let mut i: usize = 0;
        while i < n
            invariant
                old(self).wf(),
                *self == *old(self),
                n == entries@.len(),
                i <= n,
                gvars == hierarchy_vars(self.hierarchy),
                entries@.map_values(|e: VarEntry| e@) == gvars,
                !self.caches_name(name@),
                forall|j: int| 0 <= j < i ==> (#[trigger] gvars[j]).full_name != name@,
            decreases n - i,
        {
            proof {
                assert(gvars[i as int] == entries@.map_values(|e: VarEntry| e@)[i as int]);
            }
            let entry = &entries[i];
            if entry.full_name == *name {
                let handle = entry.signal_index;
                let signal = load_signal(&mut self.source, &self.hierarchy, handle);
                self.records.insert(handle, SignalRecord { signal, kind: entry.kind });
                self.names.push((name.clone(), handle));
                self.has_new_refs = true;
                proof {
                    assert(final(self).names@.take(old(self).names@.len() as int) =~= old(
                        self,
                    ).names@);
                    assert(final(self).records@.dom() =~= old(self).records@.dom().insert(
                        handle,
                    ));
                }
                return Ok(handle);
            }
            i = i + 1;
        }
        Err(LookupFailure)
    }

    /// Decode the sample of a handle at a time-table index into the
    /// requested encoding.
    pub fn value_at_index(&self, handle: u64, index: u32, format: ValueFormat) -> (r: Result<
        DecodedValue,
        QueryError,
    >)
        ensures
            self.value_query_holds(handle, index, format, r),
    {
        let rec = match self.records.get(&handle) {
            Some(rec) => rec,
            None => {
                return Err(QueryError::UnknownHandle);
            },
        };
        let sample = match sample_at(&rec.signal, index) {
            Some(s) => s,
            None => {
                return Err(QueryError::NoSample);
            },
        };
        match decode_sample(&sample, format) {
            Ok(v) => Ok(v),
            Err(f) => Err(QueryError::Fault(f)),
        }
    }

    /// What a value query yields: the unknown-handle and missing-sample
    /// errors, or a value decoded exactly as the decoder's contract says.
    pub open spec fn value_query_holds(
        self,
        handle: u64,
        index: u32,
        format: ValueFormat,
        r: Result<DecodedValue, QueryError>,
    ) -> bool {
        if !self.records@.contains_key(handle) {
            r == Result::<DecodedValue, QueryError>::Err(QueryError::UnknownHandle)
        } else {
            match sample_track(self.records@[handle].signal)[index] {
                None => r == Result::<DecodedValue, QueryError>::Err(QueryError::NoSample),
                Some(sample) => match r {
                    Ok(v) => decoded_correctly(sample, format, Ok(v)),
                    Err(QueryError::Fault(f)) => decoded_correctly(sample, format, Err(f)),
                    Err(_) => false,
                },
            }
        }
    }

    /// Decode the sample of a handle at the latest time-table entry not
    /// exceeding a timestamp: the last known value at that time.
    pub fn value_at_time(&self, handle: u64, time: u64, format: ValueFormat) -> (r: Result<
        DecodedValue,
        QueryError,
    >)
        requires
            self.wf(),
        ensures
            self.value_query_holds(
                handle,
                spec_resolve_index(self.time_table@, time) as u32,
                format,
                r,
            ),
    {
        let index = find_nearest_time_index(&self.time_table, time);
        self.value_at_index(handle, index as u32, format)
    }

    /// The canonical bit-character string of a handle's sample at an
    /// index: the rendered bits of a two-state sample, or the stored bit
    /// characters of a four-state one.
    pub fn bit_string_at(&self, handle: u64, index: u32) -> (r: Result<String, QueryError>)
        ensures
            if !self.records@.contains_key(handle) {
                r == Result::<String, QueryError>::Err(QueryError::UnknownHandle)
            } else {
                match sample_track(self.records@[handle].signal)[index] {
                    None => r == Result::<String, QueryError>::Err(QueryError::NoSample),
                    Some(sample) => match sample {
                        Sample::TwoState { width, data } => r matches Ok(s) && s@
                            == spec_bin_string(data@, width as nat),
                        Sample::FourState { width, bits } => r matches Ok(s) && s@ == bits@,
                        Sample::Unsupported => r == Result::<String, QueryError>::Err(
                            QueryError::Fault(DecodeFault::UnsupportedRepresentation),
                        ),
                    },
                }
            },
    {
        let rec = match self.records.get(&handle) {
            Some(rec) => rec,
            None => {
                return Err(QueryError::UnknownHandle);
            },
        };
        let sample = match sample_at(&rec.signal, index) {
            Some(s) => s,
            None => {
                return Err(QueryError::NoSample);
            },
        };
        match sample {
            Sample::TwoState { width, data } => {
                let chars = binary_string_two_state(&data, width);
                Ok(string_from_chars(&chars))
            },
            Sample::FourState { width: _, bits } => Ok(string_from_chars(&bits)),
            Sample::Unsupported => Err(QueryError::Fault(DecodeFault::UnsupportedRepresentation)),
        }
    }

    /// The bit width of the variable a handle names: the only supported
    /// integer property, read off the sample at the first table index.
    pub fn bit_width(&self, handle: u64) -> (r: Result<u32, QueryError>)
        ensures
            if !self.records@.contains_key(handle) {
                r == Result::<u32, QueryError>::Err(QueryError::UnknownHandle)
            } else {
                match sample_track(self.records@[handle].signal)[0u32] {
                    None => r == Result::<u32, QueryError>::Err(QueryError::NoSample),
                    Some(sample) => match sample {
                        Sample::TwoState { width, data } => r == Result::<u32, QueryError>::Ok(
                            width,
                        ),
                        Sample::FourState { width, bits } => r == Result::<u32, QueryError>::Ok(
                            width,
                        ),
                        Sample::Unsupported => r == Result::<u32, QueryError>::Err(
                            QueryError::Fault(DecodeFault::UnsupportedRepresentation),
                        ),
                    },
                }
            },
    {
        let rec = match self.records.get(&handle) {
            Some(rec) => rec,
            None => {
                return Err(QueryError::UnknownHandle);
            },
        };
        let sample = match sample_at(&rec.signal, 0) {
            Some(s) => s,
            None => {
                return Err(QueryError::NoSample);
            },
        };
        match sample {
            Sample::TwoState { width, data: _ } => Ok(width),
            Sample::FourState { width, bits: _ } => Ok(width),
            Sample::Unsupported => Err(QueryError::Fault(DecodeFault::UnsupportedRepresentation)),
        }
    }

    /// The label of the kind of the variable a handle names: a register
    /// or a net; labels for other kinds are not implemented.
    pub fn kind_label(&self, handle: u64) -> (r: Result<String, QueryError>)
        ensures
            if !self.records@.contains_key(handle) {
                r == Result::<String, QueryError>::Err(QueryError::UnknownHandle)
            } else {
                match self.records@[handle].kind {
                    VarKind::Register => r matches Ok(s) && s@ == "vpiReg"@,
                    VarKind::Net => r matches Ok(s) && s@ == "vpiNet"@,
                    VarKind::Other => r == Result::<String, QueryError>::Err(
                        QueryError::UnsupportedProperty,
                    ),
                }
            },
    {
        let rec = match self.records.get(&handle) {
            Some(rec) => rec,
            None => {
                return Err(QueryError::UnknownHandle);
            },
        };
        match rec.kind {
            VarKind::Register => Ok("vpiReg".to_owned()),
            VarKind::Net => Ok("vpiNet".to_owned()),
            VarKind::Other => Err(QueryError::UnsupportedProperty),
        }
    }

    /// The index of the latest time table entry at or before `time`.
    pub fn index_from_time(&self, time: u64) -> (r: usize)
        requires
            self.wf(),
        ensures
            r == spec_resolve_index(self.time_table@, time),
    {
        find_nearest_time_index(&self.time_table, time)
    }

    /// The timestamp recorded at a table index.
    pub fn time_from_index(&self, index: usize) -> (r: u64)
        requires
            index < self.time_table@.len(),
        ensures
            r == self.time_table@[index as int],
    {
        self.time_table[index]
    }

    /// The greatest valid table index.
    pub fn max_index(&self) -> (r: usize)
        requires
            self.time_table@.len() > 0,
        ensures
            r == self.time_table@.len() - 1,
    {
        self.time_table.len() - 1
    }

    /// How many names the reference cache holds.
    pub fn ref_count(&self) -> (r: usize)
        ensures
            r == self.names@.len(),
    {
        self.names.len()
    }

    /// Whether the caches are to be written out when this session ends:
    /// only when the reference cache reached the threshold and this
    /// session added something new.
    pub fn persist_at_finalize(&self) -> (r: bool)
        ensures
            r == spec_should_persist(self.names@.len() as usize, self.has_new_refs),
    {
        should_persist_caches(self.names.len(), self.has_new_refs)
    }
}

/// A table whose adjacent entries are ordered is non-decreasing overall.
proof fn lemma_adjacent_implies_non_decreasing(t: Seq<u64>)
    requires
        forall|p: int| 0 <= p < t.len() - 1 ==> #[trigger] t[p] <= t[p + 1],
    ensures
        non_decreasing(t),
{
    assert forall|i: int, j: int| 0 <= i <= j < t.len() implies t[i] <= t[j] by {
        lemma_ordered_chain(t, i, j);
    }
}

proof fn lemma_ordered_chain(t: Seq<u64>, i: int, j: int)
    requires
        forall|p: int| 0 <= p < t.len() - 1 ==> #[trigger] t[p] <= t[p + 1],
        0 <= i <= j < t.len(),
    ensures
        t[i] <= t[j],
    decreases j - i,
{
    if i < j {
        lemma_ordered_chain(t, i, j - 1);
        assert(t[j - 1] <= t[j]);
    }
}

} // verus!

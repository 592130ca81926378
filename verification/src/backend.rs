//! Backend adapter.
//!
//! The waveform backend is the wellen crate: it owns the parsed variable
//! hierarchy and the on-demand decoding of sample tracks. The library
//! reaches it only through the trusted items in this module; everything
//! built on top of them is verified against their contracts.

use crate::decode::{sample_wf, Sample};
use vstd::prelude::*;

verus! {

/// The kind of a variable, as far as property queries read it.
#[derive(PartialEq, Eq, Structural, Clone, Copy, Debug)]
pub enum VarKind {
    Register,
    Net,
    Other,
}

/// One variable of the hierarchy, as the resolver reads it: the fully
/// qualified name, the backend's signal slot, and the kind.
#[derive(Clone, Debug)]
pub struct VarEntry {
    pub full_name: String,
    pub signal_index: u64,
    pub kind: VarKind,
}

/// The mathematical image of a variable entry.
pub struct VarEntryV {
    pub full_name: Seq<char>,
    pub signal_index: u64,
    pub kind: VarKind,
}

impl View for VarEntry {
    type V = VarEntryV;

    open spec fn view(&self) -> VarEntryV {
        VarEntryV {
            full_name: self.full_name@,
            signal_index: self.signal_index,
            kind: self.kind,
        }
    }
}

#[verifier::external_type_specification]
#[verifier::external_body]
pub struct ExHierarchy(wellen::Hierarchy);

#[verifier::external_type_specification]
#[verifier::external_body]
pub struct ExSignalSource(wellen::SignalSource);

#[verifier::external_type_specification]
#[verifier::external_body]
pub struct ExSignal(wellen::Signal);

/// The variables a hierarchy holds, in iteration order.
pub uninterp spec fn hierarchy_vars(h: wellen::Hierarchy) -> Seq<VarEntryV>;

/// The sample in force at each time-table index of a loaded signal, or
/// `None` at indices where the signal has no change at or before them.
pub uninterp spec fn sample_track(s: wellen::Signal) -> Map<u32, Option<Sample>>;

/// Relies on wellen's `Hierarchy::all_vars`, `Var::full_name`,
/// `Var::signal_ref` and `Var::var_type`: lists every variable of the
/// hierarchy, with its fully qualified name, its signal slot, and its
/// kind; a register and a wire keep their kind, every other kind of
/// variable counts as other.
#[verifier::external_body]
pub(crate) fn hierarchy_var_entries(h: &wellen::Hierarchy) -> (entries: Vec<VarEntry>)
    ensures
        entries@.map_values(|e: VarEntry| e@) == hierarchy_vars(*h),
{
    let mut entries = Vec::new();
    for var_ref in h.all_vars() {
        let var = &h[var_ref];
        let kind = match var.var_type() {
            wellen::VarType::Reg => VarKind::Register,
            wellen::VarType::Wire => VarKind::Net,
            _ => VarKind::Other,
        };
        entries.push(VarEntry {
            full_name: var.full_name(h),
            signal_index: var.signal_ref().index() as u64,
            kind,
        });
    }
    entries
}

/// Relies on wellen's `SignalRef::from_index` and
/// `SignalSource::load_signals`: loads and decodes the sample track of one
/// signal. wellen resolves the reference against the hierarchy it came
/// from, so the slot must name one of the hierarchy's variables.
#[verifier::external_body]
pub(crate) fn load_signal(
    source: &mut wellen::SignalSource,
    h: &wellen::Hierarchy,
    signal_index: u64,
) -> wellen::Signal
    requires
        exists|i: int|
            0 <= i < hierarchy_vars(*h).len() && (#[trigger] hierarchy_vars(*h)[i]).signal_index
                == signal_index,
{
    let signal_ref = wellen::SignalRef::from_index(signal_index as usize).unwrap();
    let mut loaded = source.load_signals(&[signal_ref], h, true);
    loaded.pop().unwrap()
}

/// Relies on wellen's `Signal::get_offset` and `Signal::get_value_at`:
/// yields the sample in force at a time-table index — the value at the
/// nearest change at or before it — or `None` where the signal has no
/// change there or earlier. A bit vector of definite bits comes out as a
/// two-state sample over its big-endian bytes; one with four-state bits
/// comes out as its canonical bit characters; anything else (nine-state
/// bits, a string, a real, an event) is an unsupported representation.
#[verifier::external_body]
pub(crate) fn sample_at(signal: &wellen::Signal, time_idx: u32) -> (r: Option<Sample>)
    ensures
        r == sample_track(*signal)[time_idx],
        r matches Some(s) ==> sample_wf(s),
{
    let off = match signal.get_offset(time_idx) {
        Some(o) => o,
        None => return None,
    };
    match signal.get_value_at(&off, 0) {
        wellen::SignalValueRef::BitVec(bv) if bv.states() == wellen::States::Two => Some(
            Sample::TwoState { width: bv.width(), data: bv.be_bytes().unwrap_or(&[]).to_vec() },
        ),
        wellen::SignalValueRef::BitVec(bv) if bv.states() == wellen::States::Four => Some(
            Sample::FourState { width: bv.width(), bits: bv.bit_string().chars().collect() },
        ),
        _ => Some(Sample::Unsupported),
    }
}

} // verus!

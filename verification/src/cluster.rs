//! The part of a CAN cluster description that a restbus simulation looks at.
//!
//! The signals of a PDU are only handed on, so their types are left to the caller:
//! `S` is a signal, `G` is a signal group.
use crate::timing::Seconds;
use std::collections::HashMap;
use vstd::prelude::*;

verus! {

/// An I-PDU that carries signals and may be sent cyclically.
#[derive(Debug)]
pub struct ISignalIPDU<S, G> {
    /// Cyclic period in seconds; event-driven unless positive.
    pub cyclic_timing_period_value: Seconds,
    /// Offset in seconds before the first cycle.
    pub cyclic_timing_offset_value: Seconds,
    /// The value of the bits that no signal covers.
    pub unused_bit_pattern: bool,
    pub ungrouped_signals: Vec<S>,
    pub grouped_signals: Vec<G>,
}

/// A network-management PDU. It has no cyclic timing of its own.
#[derive(Debug)]
pub struct NMPDU<S, G> {
    /// The value of the bits that no signal covers.
    pub unused_bit_pattern: bool,
    pub ungrouped_signals: Vec<S>,
    pub grouped_signals: Vec<G>,
}

/// The PDUs that a frame can carry.
#[derive(Debug)]
pub enum PDU<S, G> {
    ISignalIPDU(ISignalIPDU<S, G>),
    NMPDU(NMPDU<S, G>),
}

/// A PDU and its place in a frame.
#[derive(Debug)]
pub struct PDUMapping<S, G> {
    /// Big-endian where set, little-endian otherwise.
    pub byte_order: bool,
    /// First bit of the PDU within the frame.
    pub start_position: i64,
    /// Length of the PDU in bytes.
    pub length: i64,
    pub pdu: PDU<S, G>,
}

/// A frame of a cluster together with the PDUs mapped into it.
#[derive(Debug)]
pub struct CanFrameTriggering<S, G> {
    pub frame_name: String,
    pub can_id: i64,
    /// `"Extended"` where the identifier has 29 bits.
    pub addressing_mode: String,
    /// Length of the frame in bytes.
    pub frame_length: i64,
    pub pdu_mappings: Vec<PDUMapping<S, G>>,
}

/// A CAN cluster: its frames, by CAN identifier.
#[derive(Debug)]
pub struct CanCluster<S, G> {
    pub name: String,
    pub can_frame_triggerings: HashMap<i64, CanFrameTriggering<S, G>>,
}

impl<S, G> PDU<S, G> {
    pub open spec fn spec_unused_bit_pattern(self) -> bool {
        match self {
            PDU::ISignalIPDU(ipdu) => ipdu.unused_bit_pattern,
            PDU::NMPDU(nmpdu) => nmpdu.unused_bit_pattern,
        }
    }

    pub open spec fn spec_ungrouped_signals(self) -> Vec<S> {
        match self {
            PDU::ISignalIPDU(ipdu) => ipdu.ungrouped_signals,
            PDU::NMPDU(nmpdu) => nmpdu.ungrouped_signals,
        }
    }

    pub open spec fn spec_grouped_signals(self) -> Vec<G> {
        match self {
            PDU::ISignalIPDU(ipdu) => ipdu.grouped_signals,
            PDU::NMPDU(nmpdu) => nmpdu.grouped_signals,
        }
    }
}

impl<S, G> CanFrameTriggering<S, G> {
    /// The frame has a 29-bit identifier.
    pub open spec fn spec_is_extended(self) -> bool {
        self.addressing_mode@ == "Extended"@
    }

    /// Tells whether the frame has a 29-bit identifier.
    pub fn is_extended(&self) -> (res: bool)
        ensures
            res == self.spec_is_extended(),
    {
        let extended = "Extended".to_owned();
        self.addressing_mode == extended
    }
}

/// `extract` can be asked for the initial bytes of the mapped PDU, `length` bytes long.
pub open spec fn can_extract<S, G, E: Fn(bool, &Vec<S>, &Vec<G>, i64, bool) -> Vec<u8>>(
    extract: E,
    mapping: PDUMapping<S, G>,
    length: i64,
) -> bool {
    call_requires(
        extract,
        (
            mapping.pdu.spec_unused_bit_pattern(),
            &mapping.pdu.spec_ungrouped_signals(),
            &mapping.pdu.spec_grouped_signals(),
            length,
            mapping.byte_order,
        ),
    )
}

/// `data` is an answer of `extract` to the question for the initial bytes of the mapped PDU.
pub open spec fn may_extract<S, G, E: Fn(bool, &Vec<S>, &Vec<G>, i64, bool) -> Vec<u8>>(
    extract: E,
    mapping: PDUMapping<S, G>,
    length: i64,
    data: Vec<u8>,
) -> bool {
    call_ensures(
        extract,
        (
            mapping.pdu.spec_unused_bit_pattern(),
            &mapping.pdu.spec_ungrouped_signals(),
            &mapping.pdu.spec_grouped_signals(),
            length,
            mapping.byte_order,
        ),
        data,
    )
}

impl<S, G> PDUMapping<S, G> {
    /// Asks `extract` for the initial bytes of the mapped PDU: it is handed the value of the
    /// unused bits, the ungrouped and the grouped signals, the length in bytes and the byte order.
    pub fn init_values<E: Fn(bool, &Vec<S>, &Vec<G>, i64, bool) -> Vec<u8>>(
        &self,
        length: i64,
        extract: E,
    ) -> (data: Vec<u8>)
        requires
            can_extract(extract, *self, length),
        ensures
            may_extract(extract, *self, length, data),
    {
        match &self.pdu {
            PDU::ISignalIPDU(ipdu) => extract(
                ipdu.unused_bit_pattern,
                &ipdu.ungrouped_signals,
                &ipdu.grouped_signals,
                length,
                self.byte_order,
            ),
            PDU::NMPDU(nmpdu) => extract(
                nmpdu.unused_bit_pattern,
                &nmpdu.ungrouped_signals,
                &nmpdu.grouped_signals,
                length,
                self.byte_order,
            ),
        }
    }
}

/// `walk` goes once through the entries of `m`, in some order.
pub open spec fn is_walk<T>(walk: Seq<(i64, &T)>, m: Map<i64, T>) -> bool {
    &&& forall|i: int, j: int|
        0 <= i < j < walk.len() ==> (#[trigger] walk[i]).0 != (#[trigger] walk[j]).0
    &&& forall|i: int|
        0 <= i < walk.len() ==> m.contains_key((#[trigger] walk[i]).0) && m[walk[i].0]
            == *walk[i].1
    &&& forall|k: i64| #[trigger]
        m.contains_key(k) ==> exists|i: int| 0 <= i < walk.len() && (#[trigger] walk[i]).0 == k
}

/// A walk through a map has as many steps as the map has entries.
pub proof fn walk_has_one_step_per_entry<T>(walk: Seq<(i64, &T)>, m: Map<i64, T>)
    requires
        is_walk(walk, m),
    ensures
        m.dom().finite(),
        walk.len() == m.len(),
{
    let keys = walk.map_values(|entry: (i64, &T)| entry.0);
    assert(keys.to_set() =~= m.dom()) by {
        assert forall|k: i64| m.dom().contains(k) implies keys.to_set().contains(k) by {
            assert(m.contains_key(k));
            let i = choose|i: int| 0 <= i < walk.len() && (#[trigger] walk[i]).0 == k;
            assert(keys[i] == k);
        }
    }
    keys.unique_seq_to_set();
}

/// Lists the entries of `m` in the order in which the map is walked.
pub fn walk_entries<T>(m: &HashMap<i64, T>) -> (walk: Vec<(i64, &T)>)
    ensures
        is_walk(walk@, m@),
{
    broadcast use vstd::std_specs::hash::group_hash_axioms;

    let mut walk: Vec<(i64, &T)> = Vec::new();
    let entries = m.iter();
    let ghost order = vstd::std_specs::iter::IteratorSpec::remaining(&entries);
    for (key, value) in it: entries
        invariant
            it.seq() == order,
            walk@.len() == it.index(),
            forall|i: int|
                0 <= i < walk@.len() ==> *order[i].0 == (#[trigger] walk@[i]).0 && *order[i].1
                    == *walk@[i].1,
    {
        walk.push((*key, value));
    }
    proof {
        assert(walk@.len() == order.len());
        assert forall|k: i64| #[trigger] m@.contains_key(k) implies exists|i: int|
            0 <= i < walk@.len() && (#[trigger] walk@[i]).0 == k by {
            let i = order.index_of((&k, &m@[k]));
            assert(order.contains((&k, &m@[k])));
            assert(walk@[i].0 == k);
        }
        assert forall|i: int, j: int| 0 <= i < j < walk@.len() implies (#[trigger] walk@[i]).0
            != (#[trigger] walk@[j]).0 by {
            assert(order[i] != order[j]);
            assert(m@[*order[i].0] == *order[i].1);
            assert(m@[*order[j].0] == *order[j].1);
        }
        assert forall|i: int| 0 <= i < walk@.len() implies m@.contains_key((#[trigger] walk@[i]).0)
            && m@[walk@[i].0] == *walk@[i].1 by {
            assert(m@[*order[i].0] == *order[i].1);
        }
    }
    walk
}

/// The initial bytes of a PDU are asked for with its own unused bits and signals, with the length
/// that is given, and with the byte order of its mapping.
pub proof fn initial_bytes_are_asked_for<
    S,
    G,
    E: Fn(bool, &Vec<S>, &Vec<G>, i64, bool) -> Vec<u8>,
>(mapping: PDUMapping<S, G>, length: i64, extract: E, data: Vec<u8>)
    requires
        call_ensures(PDUMapping::<S, G>::init_values::<E>, (&mapping, length, extract), data),
    ensures
        mapping.pdu matches PDU::ISignalIPDU(ipdu) ==> call_ensures(
            extract,
            (
                ipdu.unused_bit_pattern,
                &ipdu.ungrouped_signals,
                &ipdu.grouped_signals,
                length,
                mapping.byte_order,
            ),
            data,
        ),
        mapping.pdu matches PDU::NMPDU(nmpdu) ==> call_ensures(
            extract,
            (
                nmpdu.unused_bit_pattern,
                &nmpdu.ungrouped_signals,
                &nmpdu.grouped_signals,
                length,
                mapping.byte_order,
            ),
            data,
        ),
{
    answer_is_that_of_the_pdu(mapping, length, extract, data);
}

/// An answer for the initial bytes of a PDU is one to its own unused bits and signals, the length
/// and the byte order of its mapping.
pub proof fn answer_is_that_of_the_pdu<
    S,
    G,
    E: Fn(bool, &Vec<S>, &Vec<G>, i64, bool) -> Vec<u8>,
>(mapping: PDUMapping<S, G>, length: i64, extract: E, data: Vec<u8>)
    requires
        may_extract(extract, mapping, length, data),
    ensures
        mapping.pdu matches PDU::ISignalIPDU(ipdu) ==> call_ensures(
            extract,
            (
                ipdu.unused_bit_pattern,
                &ipdu.ungrouped_signals,
                &ipdu.grouped_signals,
                length,
                mapping.byte_order,
            ),
            data,
        ),
        mapping.pdu matches PDU::NMPDU(nmpdu) ==> call_ensures(
            extract,
            (
                nmpdu.unused_bit_pattern,
                &nmpdu.ungrouped_signals,
                &nmpdu.grouped_signals,
                length,
                mapping.byte_order,
            ),
            data,
        ),
{
}

/// A frame has a 29-bit identifier if and only if its addressing mode says so.
pub proof fn extended_by_the_addressing_mode<S, G>(
    triggering: CanFrameTriggering<S, G>,
    res: bool,
)
    requires
        call_ensures(CanFrameTriggering::<S, G>::is_extended, (&triggering,), res),
    ensures
        res <==> triggering.addressing_mode@ == "Extended"@,
        triggering.spec_is_extended() <==> triggering.addressing_mode@ == "Extended"@,
{
}

/// Every entry of a map is met once on a walk through it, and nothing else is.
pub proof fn every_entry_is_met_once<T>(walk: Seq<(i64, &T)>, m: Map<i64, T>, key: i64)
    requires
        is_walk(walk, m),
    ensures
        m.contains_key(key) <==> exists|i: int| 0 <= i < walk.len() && (#[trigger] walk[i]).0 == key,
        forall|i: int|
            0 <= i < walk.len() && (#[trigger] walk[i]).0 == key ==> *walk[i].1 == m[key],
        forall|i: int, j: int|
            0 <= i < walk.len() && 0 <= j < walk.len() && (#[trigger] walk[i]).0 == key && (
            #[trigger] walk[j]).0 == key ==> i == j,
{
}

/// Every entry of a map is listed once, under its key and with its value, and nothing else is.
pub proof fn every_entry_is_listed_once<T>(
    m: std::collections::HashMap<i64, T>,
    walk: Vec<(i64, &T)>,
    key: i64,
)
    requires
        call_ensures(walk_entries::<T>, (&m,), walk),
    ensures
        walk@.len() == m@.len(),
        m@.contains_key(key) <==> exists|i: int|
            0 <= i < walk@.len() && (#[trigger] walk@[i]).0 == key,
        forall|i: int|
            0 <= i < walk@.len() && (#[trigger] walk@[i]).0 == key ==> *walk@[i].1 == m@[key],
{
    walk_has_one_step_per_entry(walk@, m@);
    every_entry_is_met_once(walk@, m@, key);
}

} // verus!

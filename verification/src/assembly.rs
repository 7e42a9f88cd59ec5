//! Assembly of cyclic frames out of their PDUs.
use crate::cast::{div_eight, eighth, i64_to_u32, i64_to_usize, residue_u32, residue_usize};
use crate::cluster::{CanFrameTriggering, PDUMapping, PDU};
use crate::text::{decimal, decimal_string};
use crate::timing::Span;
use crate::wire::{CANFD_MAX_DLEN, CAN_EFF_FLAG};
use vstd::prelude::*;
use vstd::string::*;

verus! {

/// The byte of a frame that no PDU covers.
pub const UNUSED_BYTE: u8 = 0xFF;

/// A CAN frame scheduled for cyclic transmission.
#[derive(Clone, Debug)]
pub struct ScheduledFrame {
    /// CAN identifier, with `CAN_EFF_FLAG` where it has 29 bits.
    pub can_id: u32,
    /// Frame data bytes built from initial signal values.
    pub data: Vec<u8>,
    /// Cyclic transmission period.
    pub period: Span,
    /// Initial offset before the first transmission.
    pub offset: Span,
    /// Human-readable frame name.
    pub frame_name: String,
    /// Whether the CAN identifier has 29 bits.
    pub extended_id: bool,
}

/// The mathematical content of a [`ScheduledFrame`].
#[verifier::ext_equal]
pub struct ScheduledFrameView {
    pub can_id: u32,
    pub data: Seq<u8>,
    pub period: Span,
    pub offset: Span,
    pub frame_name: Seq<char>,
    pub extended_id: bool,
}

impl View for ScheduledFrame {
    type V = ScheduledFrameView;

    open spec fn view(&self) -> ScheduledFrameView {
        ScheduledFrameView {
            can_id: self.can_id,
            data: self.data@,
            period: self.period,
            offset: self.offset,
            frame_name: self.frame_name@,
            extended_id: self.extended_id,
        }
    }
}

impl ScheduledFrameView {
    /// What holds of every scheduled frame: it fits a CAN FD frame, it has a period, and its
    /// identifier carries the flag of the 29-bit identifiers where it is one of them.
    pub open spec fn wf(self) -> bool {
        &&& 0 < self.data.len() <= CANFD_MAX_DLEN
        &&& self.period.spec_total_nanos() > 0
        &&& self.extended_id ==> self.can_id & CAN_EFF_FLAG == CAN_EFF_FLAG
    }
}

/// `frame` with the bytes from `byte_offset` on replaced by those of `pdu`, as far as both reach.
pub open spec fn overlay(frame: Seq<u8>, pdu: Seq<u8>, byte_offset: int) -> Seq<u8> {
    Seq::new(
        frame.len(),
        |i: int|
            if byte_offset <= i < byte_offset + pdu.len() {
                pdu[i - byte_offset]
            } else {
                frame[i]
            },
    )
}

/// PDU data that begins past the end of the frame changes nothing.
pub proof fn overlay_past_the_end_changes_nothing(frame: Seq<u8>, pdu: Seq<u8>, byte_offset: int)
    requires
        byte_offset >= frame.len(),
    ensures
        overlay(frame, pdu, byte_offset) == frame,
{
}

/// PDU data that lies within the frame can be read back from it, and the rest of the frame is as
/// before.
pub proof fn overlay_within_the_frame(frame: Seq<u8>, pdu: Seq<u8>, byte_offset: int)
    requires
        0 <= byte_offset,
        byte_offset + pdu.len() <= frame.len(),
    ensures
        overlay(frame, pdu, byte_offset) == frame.take(byte_offset) + pdu + frame.skip(
            byte_offset + pdu.len(),
        ),
{
}

/// Copies PDU data into a frame buffer at the given byte offset.
///
/// What would reach past the end of the frame is left out.
pub fn copy_pdu_into_frame(frame_data: &mut [u8], pdu_data: &[u8], byte_offset: usize)
    ensures
        final(frame_data)@ == overlay(old(frame_data)@, pdu_data@, byte_offset as int),
        final(frame_data)@.len() == old(frame_data)@.len(),
        forall|i: int|
            0 <= i < old(frame_data)@.len() && (i < byte_offset || byte_offset + pdu_data@.len()
                <= i) ==> #[trigger] final(frame_data)@[i] == old(frame_data)@[i],
        forall|b: int|
            0 <= b < pdu_data@.len() && byte_offset + b < old(frame_data)@.len()
                ==> #[trigger] final(frame_data)@[byte_offset + b] == pdu_data@[b],
{
    let frame_len: usize = frame_data.len();
    if byte_offset >= frame_len {
        assert(frame_data@ == overlay(frame_data@, pdu_data@, byte_offset as int));
        return;
    }
    let available: usize = frame_len - byte_offset;
    let copy_len: usize = if pdu_data.len() < available {
        pdu_data.len()
    } else {
        available
    };
    let mut i: usize = 0;
    while i < copy_len
        invariant
            i <= copy_len,
            copy_len <= pdu_data@.len(),
            byte_offset + copy_len <= frame_len,
            frame_data@.len() == frame_len,
            old(frame_data)@.len() == frame_len,
            frame_data@ == overlay(
                old(frame_data)@,
                pdu_data@.take(i as int),
                byte_offset as int,
            ),
        decreases copy_len - i,
    {
        frame_data[byte_offset + i] = pdu_data[i];
        i = i + 1;
    }
}

/// What the assembly of a frame takes from outside for one PDU mapping.
#[derive(Debug)]
pub struct PduInput {
    /// The initial bytes of the PDU.
    pub data: Vec<u8>,
    /// The cyclic period as a length of time; looked at only where the period is positive.
    pub period: Span,
    /// The cyclic offset as a length of time; looked at only where the period is positive.
    pub offset: Span,
}

/// The mapped PDU is sent cyclically.
pub open spec fn is_cyclic<S, G>(mapping: PDUMapping<S, G>) -> bool {
    mapping.pdu matches PDU::ISignalIPDU(ipdu)
        && ipdu.cyclic_timing_period_value.spec_is_positive()
}

/// The byte of the frame at which the mapped PDU begins.
pub open spec fn byte_offset<S, G>(mapping: PDUMapping<S, G>) -> int {
    residue_usize(eighth(mapping.start_position as int)) as int
}

/// The bytes of a frame: unused bytes, with the PDUs laid over them one after the other.
pub open spec fn frame_bytes<S, G>(
    mappings: Seq<PDUMapping<S, G>>,
    inputs: Seq<PduInput>,
    frame_length: nat,
) -> Seq<u8>
    recommends
        inputs.len() == mappings.len(),
    decreases mappings.len(),
{
    if mappings.len() == 0 {
        Seq::new(frame_length, |i: int| UNUSED_BYTE)
    } else {
        overlay(
            frame_bytes(mappings.drop_last(), inputs.drop_last(), frame_length),
            inputs.last().data@,
            byte_offset(mappings.last()),
        )
    }
}

/// Period and offset of a frame: those of its last cyclic PDU, or nothing.
pub open spec fn frame_timing<S, G>(
    mappings: Seq<PDUMapping<S, G>>,
    inputs: Seq<PduInput>,
) -> (Span, Span)
    recommends
        inputs.len() == mappings.len(),
    decreases mappings.len(),
{
    if mappings.len() == 0 {
        (Span::spec_zero(), Span::spec_zero())
    } else if is_cyclic(mappings.last()) {
        (inputs.last().period, inputs.last().offset)
    } else {
        frame_timing(mappings.drop_last(), inputs.drop_last())
    }
}

/// The identifier under which a frame is sent.
pub open spec fn wire_id(can_id: int, extended: bool) -> u32 {
    if extended {
        residue_u32(can_id) | CAN_EFF_FLAG
    } else {
        residue_u32(can_id)
    }
}

impl<S, G> CanFrameTriggering<S, G> {
    /// The length of the frame as an unsigned number.
    pub open spec fn spec_data_length(self) -> nat {
        residue_usize(self.frame_length as int)
    }

    /// The length is one that a CAN FD frame can have.
    pub open spec fn spec_has_valid_length(self) -> bool {
        0 < self.spec_data_length() <= CANFD_MAX_DLEN
    }

    /// The frame carries a cyclic PDU; it is event-driven otherwise.
    pub open spec fn spec_is_cyclic(self) -> bool {
        exists|k: int|
            0 <= k < self.pdu_mappings@.len() && is_cyclic(#[trigger] self.pdu_mappings@[k])
    }

    /// Tells whether the frame carries a cyclic PDU.
    pub fn carries_cyclic_pdu(&self) -> (res: bool)
        ensures
            res == self.spec_is_cyclic(),
    {
        let mut k: usize = 0;
        while k < self.pdu_mappings.len()
            invariant
                k <= self.pdu_mappings@.len(),
                forall|j: int| 0 <= j < k ==> !is_cyclic(#[trigger] self.pdu_mappings@[j]),
            decreases self.pdu_mappings@.len() - k,
        {
            if let PDU::ISignalIPDU(ipdu) = &self.pdu_mappings[k].pdu {
                if ipdu.cyclic_timing_period_value.is_positive() {
                    assert(is_cyclic(self.pdu_mappings@[k as int]));
                    return true;
                }
            }
            k = k + 1;
        }
        false
    }

    /// The message that rejects the length of the frame.
    pub open spec fn spec_length_message(self) -> Seq<char> {
        "invalid frame length "@ + decimal(self.spec_data_length()) + " for '"@ + self.frame_name@
            + "'"@
    }
}

/// What becomes of a frame: nothing where it is event-driven, a message where its length is
/// invalid, nothing where its period has no length, the scheduled frame otherwise.
pub open spec fn frame_outcome<S, G>(
    triggering: CanFrameTriggering<S, G>,
    inputs: Seq<PduInput>,
) -> Result<Option<ScheduledFrameView>, Seq<char>> {
    let mappings = triggering.pdu_mappings@;
    let (period, offset) = frame_timing(mappings, inputs);
    if !triggering.spec_is_cyclic() {
        Ok(None)
    } else if !triggering.spec_has_valid_length() {
        Err(triggering.spec_length_message())
    } else if period.spec_total_nanos() == 0 {
        Ok(None)
    } else {
        Ok(
            Some(
                ScheduledFrameView {
                    can_id: wire_id(triggering.can_id as int, triggering.spec_is_extended()),
                    data: frame_bytes(mappings, inputs, triggering.spec_data_length()),
                    period,
                    offset,
                    frame_name: triggering.frame_name@,
                    extended_id: triggering.spec_is_extended(),
                },
            ),
        )
    }
}

/// The mathematical content of the outcome for one frame.
pub open spec fn outcome_view(
    outcome: Result<Option<ScheduledFrame>, String>,
) -> Result<Option<ScheduledFrameView>, Seq<char>> {
    match outcome {
        Ok(Some(frame)) => Ok(Some(frame@)),
        Ok(None) => Ok(None),
        Err(message) => Err(message@),
    }
}

pub(crate) fn length_message(frame_length: usize, frame_name: &String) -> (res: String)
    ensures
        res@ == "invalid frame length "@ + decimal(frame_length as nat) + " for '"@ + frame_name@
            + "'"@,
{
    let mut text = "invalid frame length ".to_owned();
    text.append(decimal_string(frame_length as u64).as_str());
    text.append(" for '");
    text.append(frame_name.as_str());
    text.append("'");
    text
}

/// Lays the PDUs of a frame over unused bytes, in the order of their mappings.
fn pack_frame<S, G>(
    mappings: &Vec<PDUMapping<S, G>>,
    inputs: &Vec<PduInput>,
    frame_length: usize,
) -> (data: Vec<u8>)
    requires
        inputs@.len() == mappings@.len(),
    ensures
        data@ == frame_bytes(mappings@, inputs@, frame_length as nat),
{
    let mut data: Vec<u8> = vec![UNUSED_BYTE; frame_length];
    assert(data@ == frame_bytes(mappings@.take(0), inputs@.take(0), frame_length as nat));
    let mut k: usize = 0;
    while k < mappings.len()
        invariant
            k <= mappings@.len(),
            inputs@.len() == mappings@.len(),
            data@ == frame_bytes(
                mappings@.take(k as int),
                inputs@.take(k as int),
                frame_length as nat,
            ),
        decreases mappings@.len() - k,
    {
        let start: usize = i64_to_usize(div_eight(mappings[k].start_position));
        copy_pdu_into_frame(data.as_mut_slice(), inputs[k].data.as_slice(), start);
        proof {
            assert(mappings@.take(k + 1).drop_last() == mappings@.take(k as int));
            assert(inputs@.take(k + 1).drop_last() == inputs@.take(k as int));
        }
        k = k + 1;
    }
    assert(mappings@.take(k as int) == mappings@);
    assert(inputs@.take(k as int) == inputs@);
    data
}

/// Finds period and offset of a frame.
fn find_timing<S, G>(mappings: &Vec<PDUMapping<S, G>>, inputs: &Vec<PduInput>) -> (res: (
    Span,
    Span,
))
    requires
        inputs@.len() == mappings@.len(),
    ensures
        res == frame_timing(mappings@, inputs@),
{
    let mut period = Span::zero();
    let mut offset = Span::zero();
    let mut k: usize = 0;
    while k < mappings.len()
        invariant
            k <= mappings@.len(),
            inputs@.len() == mappings@.len(),
            (period, offset) == frame_timing(mappings@.take(k as int), inputs@.take(k as int)),
        decreases mappings@.len() - k,
    {
        if let PDU::ISignalIPDU(ipdu) = &mappings[k].pdu {
            if ipdu.cyclic_timing_period_value.is_positive() {
                period = inputs[k].period;
                offset = inputs[k].offset;
            }
        }
        proof {
            assert(mappings@.take(k + 1).drop_last() == mappings@.take(k as int));
            assert(inputs@.take(k + 1).drop_last() == inputs@.take(k as int));
        }
        k = k + 1;
    }
    assert(mappings@.take(k as int) == mappings@);
    assert(inputs@.take(k as int) == inputs@);
    (period, offset)
}

/// A frame has as many bytes as its length says.
pub proof fn frame_bytes_has_frame_length<S, G>(
    mappings: Seq<PDUMapping<S, G>>,
    inputs: Seq<PduInput>,
    frame_length: nat,
)
    ensures
        frame_bytes(mappings, inputs, frame_length).len() == frame_length,
    decreases mappings.len(),
{
    if mappings.len() > 0 {
        frame_bytes_has_frame_length(mappings.drop_last(), inputs.drop_last(), frame_length);
    }
}

/// Without a cyclic PDU a frame has no timing.
pub proof fn no_timing_without_cyclic_pdu<S, G>(
    mappings: Seq<PDUMapping<S, G>>,
    inputs: Seq<PduInput>,
)
    requires
        forall|k: int| 0 <= k < mappings.len() ==> !is_cyclic(#[trigger] mappings[k]),
    ensures
        frame_timing(mappings, inputs) == (Span::spec_zero(), Span::spec_zero()),
    decreases mappings.len(),
{
    if mappings.len() > 0 {
        assert(mappings.last() == mappings[mappings.len() - 1]);
        no_timing_without_cyclic_pdu(mappings.drop_last(), inputs.drop_last());
    }
}

/// A frame takes its timing from its last cyclic PDU.
pub proof fn timing_comes_from_last_cyclic_pdu<S, G>(
    mappings: Seq<PDUMapping<S, G>>,
    inputs: Seq<PduInput>,
    k: int,
)
    requires
        inputs.len() == mappings.len(),
        0 <= k < mappings.len(),
        is_cyclic(mappings[k]),
        forall|j: int| k < j < mappings.len() ==> !is_cyclic(#[trigger] mappings[j]),
    ensures
        frame_timing(mappings, inputs) == (inputs[k].period, inputs[k].offset),
    decreases mappings.len(),
{
    assert(mappings.last() == mappings[mappings.len() - 1]);
    if k < mappings.len() - 1 {
        timing_comes_from_last_cyclic_pdu(mappings.drop_last(), inputs.drop_last(), k);
    }
}

/// The data of the `k`-th mapping reaches the byte `i` of the frame.
pub open spec fn covers<S, G>(
    mappings: Seq<PDUMapping<S, G>>,
    inputs: Seq<PduInput>,
    k: int,
    i: int,
) -> bool {
    byte_offset(mappings[k]) <= i < byte_offset(mappings[k]) + inputs[k].data@.len()
}

/// A byte that no PDU covers is an unused byte.
pub proof fn uncovered_byte_is_unused<S, G>(
    mappings: Seq<PDUMapping<S, G>>,
    inputs: Seq<PduInput>,
    frame_length: nat,
    i: int,
)
    requires
        inputs.len() == mappings.len(),
        0 <= i < frame_length,
        forall|k: int| 0 <= k < mappings.len() ==> !(#[trigger] covers(mappings, inputs, k, i)),
    ensures
        frame_bytes(mappings, inputs, frame_length)[i] == UNUSED_BYTE,
    decreases mappings.len(),
{
    frame_bytes_has_frame_length(mappings, inputs, frame_length);
    if mappings.len() > 0 {
        let (front, front_inputs) = (mappings.drop_last(), inputs.drop_last());
        assert(!covers(mappings, inputs, mappings.len() - 1, i));
        assert forall|k: int| 0 <= k < front.len() implies !(#[trigger] covers(
            front,
            front_inputs,
            k,
            i,
        )) by {
            assert(!covers(mappings, inputs, k, i));
        }
        uncovered_byte_is_unused(front, front_inputs, frame_length, i);
        frame_bytes_has_frame_length(front, front_inputs, frame_length);
    }
}

/// Where PDUs overlap, a byte of the frame comes from the last of them.
pub proof fn covered_byte_comes_from_last_pdu<S, G>(
    mappings: Seq<PDUMapping<S, G>>,
    inputs: Seq<PduInput>,
    frame_length: nat,
    k: int,
    i: int,
)
    requires
        inputs.len() == mappings.len(),
        0 <= i < frame_length,
        0 <= k < mappings.len(),
        covers(mappings, inputs, k, i),
        forall|j: int| k < j < mappings.len() ==> !(#[trigger] covers(mappings, inputs, j, i)),
    ensures
        frame_bytes(mappings, inputs, frame_length)[i] == inputs[k].data@[i - byte_offset(
            mappings[k],
        )],
    decreases mappings.len(),
{
    let (front, front_inputs) = (mappings.drop_last(), inputs.drop_last());
    frame_bytes_has_frame_length(mappings, inputs, frame_length);
    frame_bytes_has_frame_length(front, front_inputs, frame_length);
    if k < mappings.len() - 1 {
        assert(!covers(mappings, inputs, mappings.len() - 1, i));
        assert(covers(front, front_inputs, k, i));
        assert forall|j: int| k < j < front.len() implies !(#[trigger] covers(
            front,
            front_inputs,
            j,
            i,
        )) by {
            assert(!covers(mappings, inputs, j, i));
        }
        covered_byte_comes_from_last_pdu(front, front_inputs, frame_length, k, i);
    }
}

/// Every frame that is scheduled is well formed, whatever is taken from outside.
pub proof fn scheduled_frame_is_wf<S, G>(
    triggering: CanFrameTriggering<S, G>,
    inputs: Seq<PduInput>,
)
    ensures
        frame_outcome(triggering, inputs) matches Ok(Some(frame)) ==> frame.wf(),
{
    frame_bytes_has_frame_length(
        triggering.pdu_mappings@,
        inputs,
        triggering.spec_data_length(),
    );
    let id = residue_u32(triggering.can_id as int);
    assert((id | CAN_EFF_FLAG) & CAN_EFF_FLAG == CAN_EFF_FLAG) by (bit_vector);
}

/// A frame of valid length is scheduled where its last cyclic PDU has a period, and with that
/// period.
pub proof fn cyclic_frame_is_scheduled<S, G>(
    triggering: CanFrameTriggering<S, G>,
    inputs: Seq<PduInput>,
    k: int,
)
    requires
        inputs.len() == triggering.pdu_mappings@.len(),
        triggering.spec_has_valid_length(),
        0 <= k < inputs.len(),
        is_cyclic(triggering.pdu_mappings@[k]),
        forall|j: int|
            k < j < inputs.len() ==> !is_cyclic(#[trigger] triggering.pdu_mappings@[j]),
        inputs[k].period.spec_total_nanos() > 0,
    ensures
        frame_outcome(triggering, inputs) matches Ok(Some(frame)) && frame.period
            == inputs[k].period && frame.offset == inputs[k].offset && frame.data.len()
            == triggering.spec_data_length(),
{
    timing_comes_from_last_cyclic_pdu(triggering.pdu_mappings@, inputs, k);
    frame_bytes_has_frame_length(
        triggering.pdu_mappings@,
        inputs,
        triggering.spec_data_length(),
    );
}

/// An event-driven frame is passed over, whatever its length.
pub proof fn event_driven_frame_is_passed_over<S, G>(
    triggering: CanFrameTriggering<S, G>,
    inputs: Seq<PduInput>,
)
    requires
        forall|k: int|
            0 <= k < triggering.pdu_mappings@.len() ==> !is_cyclic(
                #[trigger] triggering.pdu_mappings@[k],
            ),
    ensures
        frame_outcome(triggering, inputs) == Ok::<Option<ScheduledFrameView>, Seq<char>>(None),
{
}

/// An identifier of up to 29 bits goes out unchanged, with the flag if and only if it is extended.
pub proof fn identifier_goes_out_unchanged(can_id: int, extended: bool)
    requires
        0 <= can_id < 0x2000_0000,
    ensures
        wire_id(can_id, extended) & 0x1FFF_FFFF == can_id,
        wire_id(can_id, extended) & CAN_EFF_FLAG == (if extended {
            CAN_EFF_FLAG
        } else {
            0
        }),
{
    let id = residue_u32(can_id);
    assert(id < 0x2000_0000 ==> (id | CAN_EFF_FLAG) & 0x1FFF_FFFF == id && id & 0x1FFF_FFFF == id
        && (id | CAN_EFF_FLAG) & CAN_EFF_FLAG == CAN_EFF_FLAG && id & CAN_EFF_FLAG == 0)
        by (bit_vector);
}

/// Builds the scheduled frame of a triggering from what `inputs` holds for each of its mappings.
pub fn assemble_scheduled_frame<S, G>(
    triggering: &CanFrameTriggering<S, G>,
    inputs: &Vec<PduInput>,
) -> (res: Result<Option<ScheduledFrame>, String>)
    requires
        inputs@.len() == triggering.pdu_mappings@.len(),
    ensures
        outcome_view(res) == frame_outcome(*triggering, inputs@),
{
    if !triggering.carries_cyclic_pdu() {
        return Ok(None);
    }
    let frame_length: usize = i64_to_usize(triggering.frame_length);
    if frame_length == 0 || frame_length > CANFD_MAX_DLEN {
        return Err(length_message(frame_length, &triggering.frame_name));
    }
    let data = pack_frame(&triggering.pdu_mappings, inputs, frame_length);
    let (period, offset) = find_timing(&triggering.pdu_mappings, inputs);
    if period.is_zero() {
        return Ok(None);
    }
    let extended_id = triggering.is_extended();
    let mut can_id: u32 = i64_to_u32(triggering.can_id);
    if extended_id {
        can_id = can_id | CAN_EFF_FLAG;
    }
    Ok(
        Some(
            ScheduledFrame {
                can_id,
                data,
                period,
                offset,
                frame_name: triggering.frame_name.clone(),
                extended_id,
            },
        ),
    )
}

/// PDU data is laid over a frame from its place on, as far as the frame reaches. The bytes before
/// and after it are as before.
pub proof fn overlay_is_cut_off_at_the_end(frame: Seq<u8>, pdu: Seq<u8>, byte_offset: int)
    requires
        0 <= byte_offset <= frame.len(),
        byte_offset + pdu.len() >= frame.len(),
    ensures
        overlay(frame, pdu, byte_offset) == frame.take(byte_offset) + pdu.take(
            frame.len() - byte_offset,
        ),
{
}

/// A PDU begins at the byte in which its first bit lies. One that begins in the byte before the
/// frame is taken to begin with the frame; one that begins before that does not reach it.
pub proof fn pdu_begins_at_the_byte_of_its_first_bit<S, G>(mapping: PDUMapping<S, G>)
    ensures
        0 <= mapping.start_position && mapping.start_position as int / 8 <= usize::MAX
            ==> byte_offset(mapping) == mapping.start_position as int / 8,
        -8 < mapping.start_position < 0 ==> byte_offset(mapping) == 0,
        mapping.start_position <= -8 && -(mapping.start_position as int) <= 8 * (usize::MAX - 64)
            ==> byte_offset(mapping) > 64,
        byte_offset(mapping) >= 0,
{
    let q = eighth(mapping.start_position as int);
    let m = usize::MAX + 1;
    if !(0 <= q <= usize::MAX) {
        vstd::arithmetic::div_mod::lemma_mod_bound(q, m);
    }
    if mapping.start_position <= -8 && -(mapping.start_position as int) <= 8 * (usize::MAX - 64) {
        vstd::arithmetic::div_mod::lemma_mod_add_multiples_vanish(q, m);
        vstd::arithmetic::div_mod::lemma_small_mod((m + q) as nat, m as nat);
    }
}

/// A PDU is cyclic if and only if it is an I-PDU with a positive period.
pub proof fn cyclic_is_an_ipdu_with_a_positive_period<S, G>(mapping: PDUMapping<S, G>)
    ensures
        mapping.pdu is NMPDU ==> !is_cyclic(mapping),
        mapping.pdu matches PDU::ISignalIPDU(ipdu) ==> (is_cyclic(mapping) <==> 0
            < ipdu.cyclic_timing_period_value.bits <= 0x7FF0_0000_0000_0000),
{
}

/// A frame carries a cyclic PDU if and only if one of its PDUs is an I-PDU with a positive period.
pub proof fn cyclic_pdu_is_found<S, G>(triggering: CanFrameTriggering<S, G>, res: bool)
    requires
        call_ensures(CanFrameTriggering::<S, G>::carries_cyclic_pdu, (&triggering,), res),
    ensures
        res <==> exists|k: int|
            0 <= k < triggering.pdu_mappings@.len() && ((
            #[trigger] triggering.pdu_mappings@[k]).pdu matches PDU::ISignalIPDU(ipdu) && 0
                < ipdu.cyclic_timing_period_value.bits <= 0x7FF0_0000_0000_0000),
{
}

/// The length of a frame is one that a CAN FD frame can have if and only if it is from 1 to 64.
pub proof fn valid_length_is_from_1_to_64<S, G>(triggering: CanFrameTriggering<S, G>)
    ensures
        0 <= triggering.frame_length <= usize::MAX ==> triggering.spec_data_length()
            == triggering.frame_length,
        -1 - usize::MAX <= triggering.frame_length < 0 ==> triggering.spec_data_length()
            == usize::MAX + 1 + triggering.frame_length,
        triggering.spec_has_valid_length() <==> 1 <= triggering.spec_data_length() <= 64,
        64 - usize::MAX <= triggering.frame_length <= usize::MAX ==> (
        triggering.spec_has_valid_length() <==> 1 <= triggering.frame_length <= 64),
{
    let m = usize::MAX + 1;
    let x = triggering.frame_length as int;
    if -m <= x < 0 {
        vstd::arithmetic::div_mod::lemma_mod_add_multiples_vanish(x, m);
        vstd::arithmetic::div_mod::lemma_small_mod((m + x) as nat, m as nat);
    }
}

/// What is assembled for a triggering. An event-driven frame is passed over. A cyclic frame whose
/// length is not from 1 to 64 is rejected, with a message that tells length and name. Otherwise the
/// last cyclic PDU decides: the frame is passed over where that has a period of no length, and
/// scheduled with its period and offset where it has one.
pub proof fn frame_is_passed_over_rejected_or_scheduled<S, G>(
    triggering: CanFrameTriggering<S, G>,
    inputs: Vec<PduInput>,
    k: int,
    res: Result<Option<ScheduledFrame>, String>,
)
    requires
        call_ensures(assemble_scheduled_frame::<S, G>, (&triggering, &inputs), res),
        inputs@.len() == triggering.pdu_mappings@.len(),
        -1 <= k < inputs@.len(),
        k >= 0 ==> is_cyclic(triggering.pdu_mappings@[k]),
        forall|j: int|
            k < j < inputs@.len() ==> !is_cyclic(#[trigger] triggering.pdu_mappings@[j]),
        64 - usize::MAX <= triggering.frame_length <= usize::MAX,
    ensures
        k == -1 ==> res matches Ok(None),
        k >= 0 && !(1 <= triggering.frame_length <= 64) ==> (res matches Err(message) && message@
            == "invalid frame length "@ + decimal(
            if triggering.frame_length >= 0 {
                triggering.frame_length as nat
            } else {
                (usize::MAX + 1 + triggering.frame_length) as nat
            },
        ) + " for '"@ + triggering.frame_name@ + "'"@),
        k >= 0 && 1 <= triggering.frame_length <= 64 ==> {
            let (period, offset) = (inputs@[k].period, inputs@[k].offset);
            if period.secs == 0 && period.nanos == 0 {
                res matches Ok(None)
            } else {
                res matches Ok(Some(frame)) && frame.period == period && frame.offset == offset
                    && frame.data@.len() == triggering.frame_length
            }
        },
{
    valid_length_is_from_1_to_64(triggering);
    if k >= 0 {
        timing_comes_from_last_cyclic_pdu(triggering.pdu_mappings@, inputs@, k);
    }
    frame_bytes_has_frame_length(
        triggering.pdu_mappings@,
        inputs@,
        triggering.spec_data_length(),
    );
}

/// A frame is scheduled under its own name and identifier. The identifier is marked as one of 29
/// bits if and only if the addressing mode says so.
pub proof fn scheduled_frame_keeps_name_and_identifier<S, G>(
    triggering: CanFrameTriggering<S, G>,
    inputs: Vec<PduInput>,
    frame: ScheduledFrame,
)
    requires
        call_ensures(
            assemble_scheduled_frame::<S, G>,
            (&triggering, &inputs),
            Ok::<Option<ScheduledFrame>, String>(Some(frame)),
        ),
    ensures
        frame.frame_name@ == triggering.frame_name@,
        frame.extended_id <==> triggering.addressing_mode@ == "Extended"@,
        ({
            let id = (triggering.can_id as int % 0x1_0000_0000) as u32;
            &&& !frame.extended_id ==> frame.can_id == id
            &&& frame.extended_id ==> frame.can_id == id | 0x8000_0000
        }),
        0 <= triggering.can_id <= 0xFFFF_FFFF && !frame.extended_id ==> frame.can_id
            == triggering.can_id,
        1 <= frame.data@.len() <= 64,
        frame.period.secs > 0 || frame.period.nanos > 0,
{
    frame_bytes_has_frame_length(
        triggering.pdu_mappings@,
        inputs@,
        triggering.spec_data_length(),
    );
}

/// The data of a PDU whose first bit is the bit `p` of the frame begins at the byte `p / 8` and goes
/// on byte by byte, as far as the frame reaches and no later PDU covers it.
pub proof fn pdu_lies_at_its_start_position<S, G>(
    triggering: CanFrameTriggering<S, G>,
    inputs: Vec<PduInput>,
    frame: ScheduledFrame,
    k: int,
    b: int,
)
    requires
        call_ensures(
            assemble_scheduled_frame::<S, G>,
            (&triggering, &inputs),
            Ok::<Option<ScheduledFrame>, String>(Some(frame)),
        ),
        inputs@.len() == triggering.pdu_mappings@.len(),
        0 <= k < inputs@.len(),
        0 <= b < inputs@[k].data@.len(),
        0 <= triggering.pdu_mappings@[k].start_position,
        triggering.pdu_mappings@[k].start_position as int / 8 + b < frame.data@.len(),
        forall|j: int|
            k < j < inputs@.len() ==> leaves_free(
                #[trigger] triggering.pdu_mappings@[j],
                inputs@[j],
                triggering.pdu_mappings@[k].start_position as int / 8 + b,
            ),
    ensures
        frame.data@[triggering.pdu_mappings@[k].start_position as int / 8 + b]
            == inputs@[k].data@[b],
{
    let mappings = triggering.pdu_mappings@;
    let i = mappings[k].start_position as int / 8 + b;
    let length = triggering.spec_data_length();
    frame_bytes_has_frame_length(mappings, inputs@, length);
    pdu_begins_at_the_byte_of_its_first_bit(mappings[k]);
    assert forall|j: int| k < j < mappings.len() implies !(#[trigger] covers(
        mappings,
        inputs@,
        j,
        i,
    )) by {
        assert(leaves_free(mappings[j], inputs@[j], i));
        pdu_begins_at_the_byte_of_its_first_bit(mappings[j]);
    }
    covered_byte_comes_from_last_pdu(mappings, inputs@, length, k, i);
}

/// The data of a mapped PDU leaves the byte `i` of the frame free: it ends before the byte or begins
/// after it, counted from the byte in which the first bit of the PDU lies.
pub open spec fn leaves_free<S, G>(mapping: PDUMapping<S, G>, input: PduInput, i: int) -> bool {
    let p = mapping.start_position as int;
    if 0 <= p && p / 8 <= usize::MAX {
        i < p / 8 || p / 8 + input.data@.len() <= i
    } else if -8 < p < 0 {
        input.data@.len() <= i
    } else {
        i < byte_offset(mapping) || byte_offset(mapping) + input.data@.len() <= i
    }
}

/// The bytes of a frame that no PDU covers have all their bits set.
pub proof fn free_byte_has_all_bits_set<S, G>(
    triggering: CanFrameTriggering<S, G>,
    inputs: Vec<PduInput>,
    frame: ScheduledFrame,
    i: int,
)
    requires
        call_ensures(
            assemble_scheduled_frame::<S, G>,
            (&triggering, &inputs),
            Ok::<Option<ScheduledFrame>, String>(Some(frame)),
        ),
        inputs@.len() == triggering.pdu_mappings@.len(),
        0 <= i < frame.data@.len(),
        forall|k: int|
            0 <= k < inputs@.len() ==> leaves_free(
                #[trigger] triggering.pdu_mappings@[k],
                inputs@[k],
                i,
            ),
    ensures
        frame.data@[i] == 0xFF,
{
    let mappings = triggering.pdu_mappings@;
    let length = triggering.spec_data_length();
    frame_bytes_has_frame_length(mappings, inputs@, length);
    assert forall|k: int| 0 <= k < mappings.len() implies !(#[trigger] covers(
        mappings,
        inputs@,
        k,
        i,
    )) by {
        assert(leaves_free(mappings[k], inputs@[k], i));
        pdu_begins_at_the_byte_of_its_first_bit(mappings[k]);
    }
    uncovered_byte_is_unused(mappings, inputs@, length, i);
}

} // verus!

use opendut_edgar::assembly::{
    assemble_scheduled_frame, copy_pdu_into_frame, PduInput, ScheduledFrame,
};
use opendut_edgar::cluster::{
    CanCluster, CanFrameTriggering, ISignalIPDU, PDUMapping, NMPDU, PDU,
};
use opendut_edgar::raw_can_frame::RawCanFrame;
use opendut_edgar::simulation::{outcomes_of, RestbusSimulation};
use opendut_edgar::timing::{Seconds, Span};
use opendut_edgar::wire::CAN_EFF_FLAG;
use std::collections::HashMap;
use std::time::Duration;

struct ISignal {
    byte_order: bool,
    start_pos: i64,
    length: i64,
    init_value: u64,
}

struct ISignalGroup;

/// Packs little-endian signals, bit by bit.
fn pack(
    unused: bool,
    signals: &Vec<ISignal>,
    groups: &Vec<ISignalGroup>,
    length: i64,
    byte_order: bool,
) -> Vec<u8> {
    assert!(groups.is_empty());
    assert!(!byte_order);
    let mut bytes = vec![if unused { 0xFFu8 } else { 0 }; length as usize];
    for signal in signals {
        assert!(!signal.byte_order);
        for bit in 0..signal.length {
            let pos = (signal.start_pos + bit) as usize;
            let mask = 1u8 << (pos % 8);
            if signal.init_value >> bit & 1 == 1 {
                bytes[pos / 8] |= mask;
            } else {
                bytes[pos / 8] &= !mask;
            }
        }
    }
    bytes
}

fn seconds(value: f64) -> Seconds {
    Seconds { bits: value.to_bits() }
}

fn to_span(secs: Seconds) -> Span {
    let duration = Duration::from_secs_f64(f64::from_bits(secs.bits));
    Span { secs: duration.as_secs(), nanos: duration.subsec_nanos() }
}

fn duration(span: Span) -> Duration {
    Duration::new(span.secs, span.nanos)
}

fn make_isignal_ipdu(
    period_secs: f64,
    offset_secs: f64,
    unused_bit_pattern: bool,
    signals: Vec<ISignal>,
) -> ISignalIPDU<ISignal, ISignalGroup> {
    ISignalIPDU {
        cyclic_timing_period_value: seconds(period_secs),
        cyclic_timing_offset_value: seconds(offset_secs),
        unused_bit_pattern,
        ungrouped_signals: signals,
        grouped_signals: Vec::new(),
    }
}

fn make_mapping(
    start_position: i64,
    length: i64,
    pdu: PDU<ISignal, ISignalGroup>,
) -> PDUMapping<ISignal, ISignalGroup> {
    PDUMapping { byte_order: false, start_position, length, pdu }
}

fn make_triggering(
    can_id: i64,
    frame_length: i64,
    pdu: PDU<ISignal, ISignalGroup>,
    pdu_length: i64,
) -> CanFrameTriggering<ISignal, ISignalGroup> {
    CanFrameTriggering {
        frame_name: format!("Frame_{:#X}", can_id),
        can_id,
        addressing_mode: "Standard".to_owned(),
        frame_length,
        pdu_mappings: vec![make_mapping(0, pdu_length, pdu)],
    }
}

fn build(
    triggering: &CanFrameTriggering<ISignal, ISignalGroup>,
) -> Result<Option<ScheduledFrame>, String> {
    RestbusSimulation::build_scheduled_frame(triggering, pack, to_span)
}

#[test]
fn build_scheduled_frame_with_cyclic_timing() {
    let ipdu = make_isignal_ipdu(0.010, 0.0, false, Vec::new());
    let triggering = make_triggering(0x123, 8, PDU::ISignalIPDU(ipdu), 8);

    let result = build(&triggering);
    let frame = result.unwrap().expect("should produce a scheduled frame");

    assert_eq!(frame.can_id, 0x123);
    assert_eq!(frame.data.len(), 8);
    assert_eq!(duration(frame.period), Duration::from_millis(10));
    assert_eq!(duration(frame.offset), Duration::ZERO);
    assert!(!frame.extended_id);
    assert_eq!(frame.frame_name, "Frame_0x123");
}

#[test]
fn build_scheduled_frame_skips_zero_period() {
    let ipdu = make_isignal_ipdu(0.0, 0.0, false, Vec::new());
    let triggering = make_triggering(0x200, 8, PDU::ISignalIPDU(ipdu), 8);

    let result = build(&triggering);
    assert!(result.unwrap().is_none(), "zero period should produce None");
}

#[test]
fn build_scheduled_frame_respects_offset() {
    let ipdu = make_isignal_ipdu(0.020, 0.005, false, Vec::new());
    let triggering = make_triggering(0x300, 8, PDU::ISignalIPDU(ipdu), 8);

    let result = build(&triggering);
    let frame = result.unwrap().unwrap();

    assert_eq!(duration(frame.period), Duration::from_millis(20));
    assert_eq!(duration(frame.offset), Duration::from_millis(5));
}

#[test]
fn build_scheduled_frame_extended_id() {
    let ipdu = make_isignal_ipdu(0.100, 0.0, false, Vec::new());
    let mut triggering = make_triggering(0x18FEF100, 8, PDU::ISignalIPDU(ipdu), 8);
    triggering.addressing_mode = "Extended".to_owned();

    let result = build(&triggering);
    let frame = result.unwrap().unwrap();

    assert!(frame.extended_id);
    assert_eq!(frame.can_id, 0x18FEF100 | CAN_EFF_FLAG);
}

#[test]
fn build_scheduled_frame_packs_signal_init_values() {
    let signal = ISignal { byte_order: false, start_pos: 0, length: 8, init_value: 0xAB };

    let ipdu = make_isignal_ipdu(0.050, 0.0, false, vec![signal]);
    let triggering = make_triggering(0x400, 8, PDU::ISignalIPDU(ipdu), 8);

    let result = build(&triggering);
    let frame = result.unwrap().unwrap();

    assert_eq!(frame.data[0], 0xAB);
}

#[test]
fn build_scheduled_frame_rejects_invalid_length() {
    let ipdu = make_isignal_ipdu(0.010, 0.0, false, Vec::new());
    let triggering = make_triggering(0x500, 0, PDU::ISignalIPDU(ipdu), 0);

    let result = build(&triggering);
    assert!(result.is_err(), "zero length should be rejected");
    assert_eq!(result.unwrap_err(), "invalid frame length 0 for 'Frame_0x500'");
}

#[test]
fn build_scheduled_frame_empty_pdu_mappings() {
    let triggering: CanFrameTriggering<ISignal, ISignalGroup> = CanFrameTriggering {
        frame_name: "Frame_Empty".to_owned(),
        can_id: 0x600,
        addressing_mode: "Standard".to_owned(),
        frame_length: 8,
        pdu_mappings: Vec::new(),
    };

    let result = build(&triggering);
    assert!(result.unwrap().is_none());
}

#[test]
fn copy_pdu_into_frame_basic() {
    let mut frame = vec![0xFFu8; 8];
    let pdu = vec![0x11, 0x22, 0x33];
    copy_pdu_into_frame(&mut frame, &pdu, 2);
    assert_eq!(frame, vec![0xFF, 0xFF, 0x11, 0x22, 0x33, 0xFF, 0xFF, 0xFF]);
}

#[test]
fn copy_pdu_into_frame_clamps_at_boundary() {
    let mut frame = vec![0xFFu8; 4];
    let pdu = vec![0xAA, 0xBB, 0xCC, 0xDD];
    copy_pdu_into_frame(&mut frame, &pdu, 2);
    // Only 2 bytes fit at offset 2 in a 4-byte frame.
    assert_eq!(frame, vec![0xFF, 0xFF, 0xAA, 0xBB]);
}

#[test]
fn copy_pdu_into_frame_offset_past_end() {
    let mut frame = vec![0xFFu8; 4];
    let pdu = vec![0x11];
    copy_pdu_into_frame(&mut frame, &pdu, 10);
    // Nothing should change.
    assert_eq!(frame, vec![0xFF, 0xFF, 0xFF, 0xFF]);
}

#[test]
fn simulation_new_collects_cyclic_frames() {
    let ipdu_cyclic = make_isignal_ipdu(0.010, 0.0, false, Vec::new());
    let ipdu_event = make_isignal_ipdu(0.0, 0.0, false, Vec::new());

    let t1 = make_triggering(0x100, 8, PDU::ISignalIPDU(ipdu_cyclic), 8);
    let t2 = make_triggering(0x200, 8, PDU::ISignalIPDU(ipdu_event), 8);

    let mut frame_triggerings = HashMap::new();
    frame_triggerings.insert(t1.can_id, t1);
    frame_triggerings.insert(t2.can_id, t2);

    let cluster =
        CanCluster { name: "TestCluster".to_owned(), can_frame_triggerings: frame_triggerings };

    let sim = RestbusSimulation::new("vcan0", &vec![&cluster], pack, to_span);

    // Only the frame with a non-zero cyclic period should be scheduled.
    assert_eq!(sim.scheduled_frames().len(), 1);
    assert_eq!(sim.scheduled_frames()[0].can_id, 0x100);
    assert_eq!(sim.interface_name(), "vcan0");
    assert!(sim.check_frames().is_ok());
}

#[test]
fn simulation_new_handles_multiple_clusters() {
    let ipdu1 = make_isignal_ipdu(0.020, 0.0, false, Vec::new());
    let ipdu2 = make_isignal_ipdu(0.050, 0.0, false, Vec::new());

    let t1 = make_triggering(0x100, 8, PDU::ISignalIPDU(ipdu1), 8);
    let t2 = make_triggering(0x200, 8, PDU::ISignalIPDU(ipdu2), 8);

    let mut m1 = HashMap::new();
    m1.insert(t1.can_id, t1);
    let cluster1 = CanCluster { name: "Cluster1".to_owned(), can_frame_triggerings: m1 };
    let mut m2 = HashMap::new();
    m2.insert(t2.can_id, t2);
    let cluster2 = CanCluster { name: "Cluster2".to_owned(), can_frame_triggerings: m2 };

    let sim = RestbusSimulation::new("vcan0", &vec![&cluster1, &cluster2], pack, to_span);
    assert_eq!(sim.scheduled_frames().len(), 2);
    assert_eq!(sim.scheduled_frames()[0].can_id, 0x100);
    assert_eq!(sim.scheduled_frames()[1].can_id, 0x200);
}

#[test]
fn build_frame_unused_bit_pattern_fills_defaults() {
    let ipdu = make_isignal_ipdu(0.010, 0.0, true, Vec::new());
    let triggering = make_triggering(0x700, 8, PDU::ISignalIPDU(ipdu), 8);

    let result = build(&triggering);
    let frame = result.unwrap().unwrap();

    assert!(frame.data.iter().all(|&b| b == 0xFF));
}

#[test]
fn build_frame_nmpdu() {
    let nmpdu = NMPDU {
        unused_bit_pattern: false,
        ungrouped_signals: Vec::new(),
        grouped_signals: Vec::new(),
    };
    // NMPDUs don't carry cyclic timing, so the frame should not be scheduled.
    let triggering = make_triggering(0x800, 8, PDU::NMPDU(nmpdu), 8);

    let result = build(&triggering);
    assert!(result.unwrap().is_none());
}

#[test]
fn frame_keeps_unused_bytes_and_the_last_of_overlapping_pdus() {
    let low = ISignal { byte_order: false, start_pos: 0, length: 16, init_value: 0x2211 };
    let high = ISignal { byte_order: false, start_pos: 0, length: 16, init_value: 0x4433 };
    let first = make_isignal_ipdu(0.010, 0.001, false, vec![low]);
    let second = make_isignal_ipdu(0.030, 0.002, false, vec![high]);
    let mut triggering = make_triggering(0x10, 6, PDU::ISignalIPDU(first), 2);
    triggering.pdu_mappings[0].start_position = 8;
    triggering.pdu_mappings.push(make_mapping(16, 2, PDU::ISignalIPDU(second)));

    let frame = build(&triggering).unwrap().unwrap();
    assert_eq!(frame.data, vec![0xFF, 0x11, 0x33, 0x44, 0xFF, 0xFF]);
    assert_eq!(duration(frame.period), Duration::from_millis(30));
    assert_eq!(duration(frame.offset), Duration::from_millis(2));
}

#[test]
fn timing_stays_that_of_the_last_cyclic_pdu() {
    let cyclic = make_isignal_ipdu(0.010, 0.001, false, Vec::new());
    let event = make_isignal_ipdu(-1.0, f64::NAN, false, Vec::new());
    let mut triggering = make_triggering(0x10, 2, PDU::ISignalIPDU(cyclic), 1);
    triggering.pdu_mappings.push(make_mapping(8, 1, PDU::ISignalIPDU(event)));

    let frame = build(&triggering).unwrap().unwrap();
    assert_eq!(frame.data, vec![0, 0]);
    assert_eq!(duration(frame.period), Duration::from_millis(10));
    assert_eq!(duration(frame.offset), Duration::from_millis(1));
}

#[test]
fn period_that_rounds_to_nothing_is_not_scheduled() {
    let ipdu = make_isignal_ipdu(1.0e-12, 0.0, false, Vec::new());
    let triggering = make_triggering(0x10, 8, PDU::ISignalIPDU(ipdu), 8);
    assert!(build(&triggering).unwrap().is_none());
}

#[test]
fn longest_and_too_long_frames() {
    let ipdu = make_isignal_ipdu(0.010, 0.0, true, Vec::new());
    let triggering = make_triggering(0x10, 64, PDU::ISignalIPDU(ipdu), 64);
    let frame = build(&triggering).unwrap().unwrap();
    assert_eq!(frame.data.len(), 64);
    assert_eq!(RawCanFrame::new(frame.can_id, &frame.data).data.to_vec(), frame.data);

    let ipdu = make_isignal_ipdu(0.010, 0.0, true, Vec::new());
    let triggering = make_triggering(0x10, 65, PDU::ISignalIPDU(ipdu), 8);
    assert_eq!(build(&triggering).unwrap_err(), "invalid frame length 65 for 'Frame_0x10'");

    let ipdu = make_isignal_ipdu(0.010, 0.0, true, Vec::new());
    let triggering = make_triggering(0x10, -1, PDU::ISignalIPDU(ipdu), 8);
    assert_eq!(
        build(&triggering).unwrap_err(),
        format!("invalid frame length {} for 'Frame_0x10'", usize::MAX)
    );
}

#[test]
fn event_driven_frames_are_passed_over_whatever_their_length() {
    for length in [0, 65, -1] {
        let event = make_isignal_ipdu(0.0, 0.0, false, Vec::new());
        let mut triggering = make_triggering(0x500, length, PDU::ISignalIPDU(event), 0);
        assert!(!triggering.carries_cyclic_pdu());
        assert!(build(&triggering).unwrap().is_none());

        let cyclic = make_isignal_ipdu(0.010, 0.0, false, Vec::new());
        triggering.pdu_mappings.push(make_mapping(0, 0, PDU::ISignalIPDU(cyclic)));
        assert!(triggering.carries_cyclic_pdu());
        assert!(build(&triggering).is_err());
    }
}

#[test]
fn pdu_positions_before_the_frame() {
    let ipdu = make_isignal_ipdu(0.010, 0.0, false, Vec::new());
    let mut triggering = make_triggering(0x10, 2, PDU::ISignalIPDU(ipdu), 1);
    // Rounds toward zero: still the first byte.
    triggering.pdu_mappings[0].start_position = -7;
    assert_eq!(build(&triggering).unwrap().unwrap().data, vec![0, 0xFF]);
    // Out of the frame.
    triggering.pdu_mappings[0].start_position = -8;
    assert_eq!(build(&triggering).unwrap().unwrap().data, vec![0xFF, 0xFF]);
    // Within a byte.
    triggering.pdu_mappings[0].start_position = 15;
    assert_eq!(build(&triggering).unwrap().unwrap().data, vec![0xFF, 0]);
}

#[test]
fn identifiers_are_reduced_to_32_bits() {
    let ipdu = make_isignal_ipdu(0.010, 0.0, false, Vec::new());
    let mut triggering = make_triggering(0x1_0000_0123, 1, PDU::ISignalIPDU(ipdu), 1);
    assert_eq!(build(&triggering).unwrap().unwrap().can_id, 0x123);
    triggering.can_id = -1;
    assert_eq!(build(&triggering).unwrap().unwrap().can_id, 0xFFFF_FFFF);
}

#[test]
fn assembly_takes_bytes_and_timing_as_given() {
    let ipdu = make_isignal_ipdu(0.010, 0.0, false, Vec::new());
    let triggering = make_triggering(0x7, 4, PDU::ISignalIPDU(ipdu), 2);
    let inputs = vec![PduInput {
        data: vec![1, 2, 3, 4, 5],
        period: Span { secs: 1, nanos: 2 },
        offset: Span { secs: 3, nanos: 4 },
    }];
    let frame = assemble_scheduled_frame(&triggering, &inputs).unwrap().unwrap();
    assert_eq!(frame.data, vec![1, 2, 3, 4]);
    assert_eq!(frame.period, Span { secs: 1, nanos: 2 });
    assert_eq!(frame.offset, Span { secs: 3, nanos: 4 });
}

#[test]
fn simulation_from_outcomes_keeps_order_and_drops_the_rest() {
    let frame = |can_id: u32| ScheduledFrame {
        can_id,
        data: vec![0],
        period: Span { secs: 1, nanos: 0 },
        offset: Span { secs: 0, nanos: 0 },
        frame_name: String::new(),
        extended_id: false,
    };
    let outcomes = vec![Ok(Some(frame(3))), Ok(None), Err("no".to_owned()), Ok(Some(frame(1)))];
    let sim = RestbusSimulation::from_outcomes("can1", outcomes);
    assert_eq!(sim.interface_name(), "can1");
    assert_eq!(sim.scheduled_frames().len(), 2);
    assert_eq!(sim.scheduled_frames()[0].can_id, 3);
    assert_eq!(sim.scheduled_frames()[1].can_id, 1);
}

#[test]
fn every_triggering_is_built_with_its_outcome() {
    let cyclic = make_isignal_ipdu(0.010, 0.0, false, Vec::new());
    let event = make_isignal_ipdu(0.0, 0.0, false, Vec::new());
    let invalid = make_isignal_ipdu(0.010, 0.0, false, Vec::new());

    let mut m1 = HashMap::new();
    m1.insert(0x100, make_triggering(0x100, 8, PDU::ISignalIPDU(cyclic), 8));
    m1.insert(0x200, make_triggering(0x200, 8, PDU::ISignalIPDU(event), 8));
    let mut m2 = HashMap::new();
    m2.insert(0x300, make_triggering(0x300, 0, PDU::ISignalIPDU(invalid), 8));
    let first = CanCluster { name: "First".to_owned(), can_frame_triggerings: m1 };
    let second = CanCluster { name: "Second".to_owned(), can_frame_triggerings: m2 };

    let built = RestbusSimulation::build_frames(&vec![&first, &second], pack, to_span);
    assert_eq!(built.len(), 3);
    for frame in &built {
        match frame.triggering.can_id {
            0x100 => assert!(matches!(&frame.outcome, Ok(Some(built)) if built.can_id == 0x100)),
            0x200 => assert!(matches!(&frame.outcome, Ok(None))),
            _ => assert!(frame.outcome.is_err()),
        }
    }
    // The clusters come in the order in which they are given.
    assert_eq!(built[2].triggering.can_id, 0x300);

    let sim = RestbusSimulation::from_outcomes("vcan0", outcomes_of(built));
    assert_eq!(sim.scheduled_frames().len(), 1);
    assert_eq!(sim.scheduled_frames()[0].can_id, 0x100);
}

#[test]
fn simulation_without_frames_does_not_run() {
    let clusters: Vec<&CanCluster<ISignal, ISignalGroup>> = Vec::new();
    let sim = RestbusSimulation::new("vcan0", &clusters, pack, to_span);
    let error = sim.check_frames().unwrap_err();
    assert_eq!(error.message(), "no scheduled frames to simulate");
}

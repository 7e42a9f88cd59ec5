use opendut_edgar::can_frame::{incomplete_write_message, send_result, CanFrame, SendError};
use opendut_edgar::cluster::{
    walk_entries, CanCluster, CanFrameTriggering, ISignalIPDU, PDUMapping, NMPDU, PDU,
};
use opendut_edgar::restbus_simulation::{
    build_scheduled_frames, prepare_frame, skip_reason, ClusterPlan, RestbusSimulation,
    RestbusSimulationConfig, ScheduledFrame, SkipReason,
};
use opendut_edgar::timing::Seconds;
use opendut_edgar::wire::{CAN_EFF_FLAG, CAN_MTU};
use std::collections::HashMap;

struct ISignal {
    start_pos: i64,
    length: i64,
    init_value: u64,
}

struct ISignalGroup;

/// Packs little-endian signals, bit by bit.
fn pack(
    unused: bool,
    signals: &Vec<ISignal>,
    groups: &Vec<ISignalGroup>,
    length: i64,
    byte_order: bool,
) -> Vec<u8> {
    assert!(groups.is_empty());
    assert!(!byte_order);
    let mut bytes = vec![if unused { 0xFFu8 } else { 0 }; length as usize];
    for signal in signals {
        for bit in 0..signal.length {
            let pos = (signal.start_pos + bit) as usize;
            let mask = 1u8 << (pos % 8);
            if signal.init_value >> bit & 1 == 1 {
                bytes[pos / 8] |= mask;
            } else {
                bytes[pos / 8] &= !mask;
            }
        }
    }
    bytes
}

fn seconds(value: f64) -> Seconds {
    Seconds { bits: value.to_bits() }
}

fn float(secs: Seconds) -> f64 {
    f64::from_bits(secs.bits)
}

fn make_isignal_ipdu(
    period: f64,
    offset: f64,
    signals: Vec<ISignal>,
) -> ISignalIPDU<ISignal, ISignalGroup> {
    ISignalIPDU {
        cyclic_timing_period_value: seconds(period),
        cyclic_timing_offset_value: seconds(offset),
        unused_bit_pattern: false,
        ungrouped_signals: signals,
        grouped_signals: Vec::new(),
    }
}

fn make_nmpdu(signals: Vec<ISignal>) -> NMPDU<ISignal, ISignalGroup> {
    NMPDU { unused_bit_pattern: false, ungrouped_signals: signals, grouped_signals: Vec::new() }
}

fn make_mapping(
    length: i64,
    pdu: PDU<ISignal, ISignalGroup>,
) -> PDUMapping<ISignal, ISignalGroup> {
    PDUMapping { byte_order: false, start_position: 0, length, pdu }
}

fn make_triggering(
    name: &str,
    can_id: i64,
    frame_length: i64,
    ipdu: ISignalIPDU<ISignal, ISignalGroup>,
) -> CanFrameTriggering<ISignal, ISignalGroup> {
    CanFrameTriggering {
        frame_name: name.to_string(),
        can_id,
        addressing_mode: "Standard".to_string(),
        frame_length,
        pdu_mappings: vec![make_mapping(frame_length, PDU::ISignalIPDU(ipdu))],
    }
}

fn make_cluster(
    name: &str,
    triggerings: Vec<CanFrameTriggering<ISignal, ISignalGroup>>,
) -> CanCluster<ISignal, ISignalGroup> {
    let mut can_frame_triggerings = HashMap::new();
    for triggering in triggerings {
        can_frame_triggerings.insert(triggering.can_id, triggering);
    }
    CanCluster { name: name.to_string(), can_frame_triggerings }
}

#[test]
fn test_can_frame_standard_id() {
    let data = [0xDE, 0xAD, 0xBE, 0xEF];
    let frame = CanFrame::new(0x123, &data, false);

    assert_eq!(frame.can_id, 0x123);
    assert_eq!(frame.len, 4);
    assert_eq!(&frame.data[..4], &[0xDE, 0xAD, 0xBE, 0xEF]);
}

#[test]
fn test_can_frame_extended_id() {
    let data = [0x01, 0x02];
    let frame = CanFrame::new(0x1234_5678, &data, true);

    assert_eq!(frame.can_id, 0x1234_5678 | CAN_EFF_FLAG);
    assert_eq!(frame.len, 2);
}

#[test]
fn test_can_frame_truncates_to_8_bytes() {
    let data = [0u8; 12];
    let frame = CanFrame::new(0x100, &data, false);

    assert_eq!(frame.len, 8);
}

#[test]
fn test_can_frame_as_bytes_length() {
    let frame = CanFrame::new(0x100, &[1, 2, 3], false);
    assert_eq!(frame.as_bytes().len(), CAN_MTU);
}

#[test]
fn test_build_scheduled_frames_with_cyclic_ipdu() {
    let signal = ISignal { start_pos: 0, length: 8, init_value: 0xAB };

    let ipdu = make_isignal_ipdu(0.01, 0.0, vec![signal]);
    let triggering = make_triggering("TestFrame", 0x100, 1, ipdu);
    let cluster = make_cluster("TestCluster", vec![triggering]);

    let frames = build_scheduled_frames(&cluster, pack);

    assert_eq!(frames.len(), 1);
    assert!((float(frames[0].period_secs) - 0.01).abs() < f64::EPSILON);
    assert!((float(frames[0].offset_secs) - 0.0).abs() < f64::EPSILON);
    assert_eq!(frames[0].frame.can_id, 0x100);
    assert_eq!(frames[0].frame.data, [0xAB, 0, 0, 0, 0, 0, 0, 0]);
    assert_eq!(frames[0].label, "TestFrame(0x100)");
}

#[test]
fn test_build_scheduled_frames_skips_zero_period() {
    let ipdu = make_isignal_ipdu(0.0, 0.0, Vec::new());
    let triggering = make_triggering("NoTimingFrame", 0x200, 8, ipdu);
    let cluster = make_cluster("TestCluster", vec![triggering]);

    let frames = build_scheduled_frames(&cluster, pack);

    // Frame is built but has zero period
    assert_eq!(frames.len(), 1);
    assert!((float(frames[0].period_secs)).abs() < f64::EPSILON);
}

#[test]
fn test_build_scheduled_frames_with_offset() {
    let signal = ISignal { start_pos: 0, length: 16, init_value: 0x1234 };

    let ipdu = make_isignal_ipdu(0.1, 0.05, vec![signal]);
    let triggering = make_triggering("OffsetFrame", 0x300, 2, ipdu);
    let cluster = make_cluster("OffsetCluster", vec![triggering]);

    let frames = build_scheduled_frames(&cluster, pack);

    assert_eq!(frames.len(), 1);
    assert!((float(frames[0].period_secs) - 0.1).abs() < f64::EPSILON);
    assert!((float(frames[0].offset_secs) - 0.05).abs() < f64::EPSILON);
}

#[test]
fn test_build_scheduled_frames_nm_pdu_no_timing() {
    let signal = ISignal { start_pos: 0, length: 8, init_value: 0x01 };

    let triggering = CanFrameTriggering {
        frame_name: "NmFrame".to_string(),
        can_id: 0x400,
        addressing_mode: "Standard".to_string(),
        frame_length: 1,
        pdu_mappings: vec![make_mapping(1, PDU::NMPDU(make_nmpdu(vec![signal])))],
    };
    let cluster = make_cluster("NmCluster", vec![triggering]);

    let frames = build_scheduled_frames(&cluster, pack);

    // NM PDU has no timing, so period should be 0
    assert_eq!(frames.len(), 1);
    assert!((float(frames[0].period_secs)).abs() < f64::EPSILON);
    assert_eq!(frames[0].frame.data[0], 0x01);
}

#[test]
fn test_build_scheduled_frames_extended_addressing() {
    let ipdu = make_isignal_ipdu(0.02, 0.0, Vec::new());

    let mut triggering = make_triggering("ExtFrame", 0x1800_0001, 8, ipdu);
    triggering.addressing_mode = "Extended".to_string();
    let cluster = make_cluster("ExtCluster", vec![triggering]);

    let frames = build_scheduled_frames(&cluster, pack);

    assert_eq!(frames.len(), 1);
    assert_eq!(frames[0].frame.can_id, 0x1800_0001 | CAN_EFF_FLAG);
    assert_eq!(frames[0].label, "ExtFrame(0x18000001)");
}

#[test]
fn test_build_scheduled_frames_multiple_signals() {
    let sig1 = ISignal { start_pos: 0, length: 8, init_value: 0xFF };
    let sig2 = ISignal { start_pos: 8, length: 8, init_value: 0x00 };

    let ipdu = make_isignal_ipdu(0.05, 0.0, vec![sig1, sig2]);
    let triggering = make_triggering("MultiSigFrame", 0x500, 2, ipdu);
    let cluster = make_cluster("MultiSigCluster", vec![triggering]);

    let frames = build_scheduled_frames(&cluster, pack);

    assert_eq!(frames.len(), 1);
    assert_eq!(frames[0].frame.len, 2);
}

#[test]
fn test_build_empty_cluster() {
    let cluster = make_cluster("EmptyCluster", Vec::new());

    let frames = build_scheduled_frames(&cluster, pack);
    assert!(frames.is_empty());
}

#[test]
fn bytes_of_a_frame_follow_the_kernel_layout() {
    let frame = CanFrame::new(0x0102_0304, &[9, 8, 7], false);
    let mut expected = vec![0u8; 16];
    expected[..4].copy_from_slice(&0x0102_0304u32.to_ne_bytes());
    expected[4] = 3;
    expected[8] = 9;
    expected[9] = 8;
    expected[10] = 7;
    assert_eq!(frame.as_bytes().to_vec(), expected);
    assert_eq!(frame.layout([1, 2, 3, 4])[..5], [1, 2, 3, 4, 3]);
}

#[test]
fn long_data_keeps_its_first_bytes() {
    let frame = CanFrame::new(1, &[1, 2, 3, 4, 5, 6, 7, 8, 9, 10], false);
    assert_eq!(frame.data, [1, 2, 3, 4, 5, 6, 7, 8]);
}

#[test]
fn first_ipdu_wins_over_earlier_and_later_pdus() {
    let byte = |value: u64| vec![ISignal { start_pos: 0, length: 8, init_value: value }];
    let mut triggering = make_triggering("F", 0xABC, 1, make_isignal_ipdu(0.5, 0.25, byte(2)));
    triggering.pdu_mappings.insert(0, make_mapping(1, PDU::NMPDU(make_nmpdu(byte(1)))));
    triggering
        .pdu_mappings
        .push(make_mapping(1, PDU::ISignalIPDU(make_isignal_ipdu(0.75, 0.0, byte(3)))));
    let frames = build_scheduled_frames(&make_cluster("C", vec![triggering]), pack);
    assert_eq!(frames.len(), 1);
    assert_eq!(frames[0].frame.data[0], 2);
    assert_eq!(float(frames[0].period_secs), 0.5);
    assert_eq!(float(frames[0].offset_secs), 0.25);
    assert_eq!(frames[0].label, "F(0xABC)");
}

#[test]
fn last_network_management_pdu_wins_without_an_ipdu() {
    let byte = |value: u64| vec![ISignal { start_pos: 0, length: 8, init_value: value }];
    let triggering = CanFrameTriggering {
        frame_name: "Nm".to_string(),
        can_id: 0x10,
        addressing_mode: "Standard".to_string(),
        frame_length: 1,
        pdu_mappings: vec![
            make_mapping(1, PDU::NMPDU(make_nmpdu(byte(1)))),
            make_mapping(1, PDU::NMPDU(make_nmpdu(byte(7)))),
        ],
    };
    let frames = build_scheduled_frames(&make_cluster("C", vec![triggering]), pack);
    assert_eq!(frames[0].frame.data[0], 7);
    assert!(!frames[0].period_secs.is_positive());
}

#[test]
fn frames_without_pdus_and_identifiers_out_of_range_are_skipped() {
    let mut empty = make_triggering("Empty", 1, 1, make_isignal_ipdu(1.0, 0.0, Vec::new()));
    empty.pdu_mappings.clear();
    let negative = make_triggering("Neg", -1, 1, make_isignal_ipdu(1.0, 0.0, Vec::new()));
    let large = make_triggering("Big", 0x1_0000_0000, 1, make_isignal_ipdu(1.0, 0.0, Vec::new()));
    let top = make_triggering("Top", 0xFFFF_FFFF, 1, make_isignal_ipdu(1.0, 0.0, Vec::new()));
    let frames = build_scheduled_frames(
        &make_cluster("C", vec![empty, negative, large, top]),
        pack,
    );
    assert_eq!(frames.len(), 1);
    assert_eq!(frames[0].frame.can_id, 0xFFFF_FFFF);
    assert_eq!(frames[0].label, "Top(0xFFFFFFFF)");
}

#[test]
fn reasons_for_skipping_a_frame() {
    let mut triggering = make_triggering("F", 5, 1, make_isignal_ipdu(1.0, 0.0, Vec::new()));
    assert_eq!(skip_reason(5, &triggering), None);
    assert_eq!(skip_reason(0xFFFF_FFFF, &triggering), None);
    assert_eq!(skip_reason(0x1_0000_0000, &triggering), Some(SkipReason::IdOutOfRange));
    assert_eq!(skip_reason(-1, &triggering), Some(SkipReason::IdOutOfRange));
    triggering.pdu_mappings.clear();
    assert_eq!(skip_reason(-1, &triggering), Some(SkipReason::NoPdu));
}

#[test]
fn the_identifier_is_that_of_the_map() {
    let triggering = make_triggering("F", 5, 1, make_isignal_ipdu(1.0, 0.0, Vec::new()));
    let mut can_frame_triggerings = HashMap::new();
    can_frame_triggerings.insert(6, triggering);
    let cluster = CanCluster { name: "C".to_string(), can_frame_triggerings };
    let frames = build_scheduled_frames(&cluster, pack);
    assert_eq!(frames[0].frame.can_id, 6);
    assert_eq!(frames[0].label, "F(0x6)");
}

#[test]
fn preparation_takes_bytes_as_given() {
    let triggering = make_triggering("F", 5, 1, make_isignal_ipdu(1.0, 2.0, Vec::new()));
    let frame = prepare_frame(0x1F, &triggering, &vec![4, 5]).unwrap();
    assert_eq!(frame.frame.len, 2);
    assert_eq!(frame.frame.data, [4, 5, 0, 0, 0, 0, 0, 0]);
    assert_eq!(float(frame.offset_secs), 2.0);
    assert_eq!(frame.label, "F(0x1F)");
    assert!(prepare_frame(-3, &triggering, &vec![4, 5]).is_none());
}

#[test]
fn every_entry_of_a_map_is_walked_once() {
    let mut map = HashMap::new();
    map.insert(3, 'c');
    map.insert(-1, 'a');
    map.insert(2, 'b');
    let mut walk: Vec<(i64, char)> = walk_entries(&map).into_iter().map(|(k, v)| (k, *v)).collect();
    walk.sort();
    assert_eq!(walk, vec![(-1, 'a'), (2, 'b'), (3, 'c')]);
}

#[test]
fn plan_keeps_what_has_a_period() {
    let frame = |period: f64| ScheduledFrame {
        frame: CanFrame::new(1, &[], false),
        period_secs: seconds(period),
        offset_secs: seconds(0.0),
        label: String::new(),
    };
    let plan = ClusterPlan::new(vec![
        frame(0.5),
        frame(0.0),
        frame(-0.0),
        frame(-2.0),
        frame(f64::NAN),
        frame(f64::INFINITY),
        frame(f64::NEG_INFINITY),
    ]);
    assert_eq!(plan.frames.len(), 2);
    assert_eq!(float(plan.frames[0].period_secs), 0.5);
    assert_eq!(float(plan.frames[1].period_secs), f64::INFINITY);
    assert_eq!(plan.skipped.len(), 5);
    assert_eq!(float(plan.skipped[2].period_secs), -2.0);
    assert!(float(plan.skipped[3].period_secs).is_nan());
}

#[test]
fn plan_covers_every_cluster() {
    let cyclic = make_triggering("A", 1, 1, make_isignal_ipdu(1.0, 0.0, Vec::new()));
    let event = make_triggering("B", 2, 1, make_isignal_ipdu(0.0, 0.0, Vec::new()));
    let (x, y) = (make_cluster("X", vec![cyclic, event]), make_cluster("Y", Vec::new()));
    let plans = RestbusSimulation::plan(&vec![&x, &y], pack);
    assert_eq!(plans.len(), 2);
    assert_eq!(plans[0].frames.len(), 1);
    assert_eq!(plans[0].frames[0].label, "A(0x1)");
    assert_eq!(plans[0].skipped.len(), 1);
    assert_eq!(plans[0].skipped[0].label, "B(0x2)");
    assert_eq!(plans[1].frames.len(), 0);
}

#[test]
fn default_interface() {
    assert_eq!(RestbusSimulationConfig::default().interface_name, "vcan0");
}

#[test]
fn writes_are_judged_by_their_length() {
    let os = || std::io::Error::from_raw_os_error(5);
    assert!(send_result(16, os()).is_ok());
    assert!(matches!(send_result(-1, os()), Err(SendError::Os(e)) if e.raw_os_error() == Some(5)));
    assert!(matches!(send_result(7, os()), Err(SendError::Incomplete { written: 7 })));
    assert_eq!(incomplete_write_message(7), "incomplete CAN frame write: 7 of 16 bytes");
}

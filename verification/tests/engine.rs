use opendut_edgar::cast::{div_eight, i64_to_u32, i64_to_usize};
use opendut_edgar::custom_setup_plugin::{CustomSetupPlugin, TaskFulfilled};
use opendut_edgar::error::SimulationError;
use opendut_edgar::raw_can_frame::{write_result, RawCanFrame};
use opendut_edgar::sender::SenderEvent::{OffsetElapsed, Stop, Tick};
use opendut_edgar::sender::{
    advance, begin, first_tick_after, FirstSend, SenderAction, SenderEvent, SenderState,
};
use opendut_edgar::socket::{
    classic_next, has_nul, if_nametoindex, index_result, interface_name_field, open_next,
    ClassicError, ClassicNext, ClassicReply, ClassicStage, OpenNext, OpenStage, Reply, IFNAMSIZ,
};
use opendut_edgar::text::{decimal_string, upper_hex_string};
use opendut_edgar::timing::{Seconds, Span};
use opendut_edgar::viper_run::{ViperRunDeployment, ViperRunId, ViperTestId};

fn os_error() -> std::io::Error {
    std::io::Error::from_raw_os_error(19)
}

fn reply(ret: i32, ifindex: i32) -> Reply {
    Reply { ret, ifindex, error: os_error() }
}

fn classic_reply(ret: i32) -> ClassicReply {
    ClassicReply { ret, error: os_error() }
}

fn count_sends(first: FirstSend, offset: Span, events: &[SenderEvent]) -> usize {
    let sends = |action: SenderAction| {
        matches!(action, SenderAction::Send | SenderAction::StartTicksAndSend)
    };
    let (mut state, action) = begin(first, offset);
    let mut count = if sends(action) { 1 } else { 0 };
    for event in events {
        let (next, action) = advance(first, state, *event);
        state = next;
        if sends(action) {
            count += 1;
        }
    }
    count
}

/// When the frame is sent, for `n` ticks, in nanoseconds.
fn send_times(first: FirstSend, offset: Span, period: Span, n: usize) -> Vec<u64> {
    let nanos = |span: Span| span.secs * 1_000_000_000 + u64::from(span.nanos);
    let sends = |action: SenderAction| {
        matches!(action, SenderAction::Send | SenderAction::StartTicksAndSend)
    };
    let mut times = Vec::new();
    let mut now = 0;
    let (mut state, mut action) = begin(first, offset);
    if state == SenderState::Offset {
        now = nanos(offset);
        (state, action) = advance(first, state, OffsetElapsed);
    }
    if sends(action) {
        times.push(now);
    }
    now += nanos(first_tick_after(first, period));
    for _ in 0..n {
        (state, action) = advance(first, state, Tick);
        if sends(action) {
            times.push(now);
        }
        now += nanos(period);
    }
    times
}

const NO_OFFSET: Span = Span { secs: 0, nanos: 0 };
const OFFSET: Span = Span { secs: 0, nanos: 1 };

#[test]
fn numbers_as_text() {
    assert_eq!(decimal_string(0), "0");
    assert_eq!(decimal_string(1090), "1090");
    assert_eq!(decimal_string(u64::MAX), "18446744073709551615");
    assert_eq!(upper_hex_string(0), "0");
    assert_eq!(upper_hex_string(0x18FE_F100), "18FEF100");
    assert_eq!(upper_hex_string(0xABCD_EF01_2345_6789), "ABCDEF0123456789");
}

#[test]
fn narrowing_of_integers() {
    assert_eq!(i64_to_usize(-1), usize::MAX);
    assert_eq!(i64_to_u32(-2), u32::MAX - 1);
    assert_eq!(div_eight(17), 2);
    assert_eq!(div_eight(-17), -2);
}

#[test]
fn seconds_compare_as_floating_point_numbers() {
    for value in [
        0.0,
        -0.0,
        1.0,
        -1.0,
        5e-324,
        -5e-324,
        f64::MAX,
        f64::MIN,
        f64::INFINITY,
        f64::NEG_INFINITY,
        f64::NAN,
        -f64::NAN,
    ] {
        let secs = Seconds { bits: value.to_bits() };
        assert_eq!(secs.is_positive(), value > 0.0);
    }
}

#[test]
fn spans_of_no_length() {
    assert!(Span::zero().is_zero());
    assert!(!Span { secs: 0, nanos: 1 }.is_zero());
    assert!(!Span { secs: 1, nanos: 0 }.is_zero());
}

#[test]
fn classic_and_fd_frames_on_the_wire() {
    let short = RawCanFrame::new(0x0102_0304, &[1, 2, 3, 4, 5, 6, 7, 8]);
    let bytes = short.as_bytes();
    assert_eq!(bytes.len(), 16);
    assert_eq!(bytes[..4], 0x0102_0304u32.to_ne_bytes());
    assert_eq!(bytes[4..], [8, 0, 0, 0, 1, 2, 3, 4, 5, 6, 7, 8]);

    let long = RawCanFrame::new(1, &[7; 9]);
    let bytes = long.as_bytes();
    assert_eq!(bytes.len(), 72);
    assert_eq!(bytes[4], 9);
    assert_eq!(bytes[8..17], [7; 9]);
    assert_eq!(bytes[17..], [0; 55]);

    let cut = RawCanFrame::new(1, &[7; 100]);
    assert_eq!(cut.len, 64);
    assert_eq!(cut.wire_length(), 72);
    assert_eq!(cut.layout([1, 2, 3, 4])[..4], [1, 2, 3, 4]);
}

#[test]
fn a_negative_write_is_an_error() {
    assert!(write_result(16, os_error()).is_ok());
    assert!(write_result(3, os_error()).is_ok());
    let error = write_result(-1, os_error()).unwrap_err();
    assert!(matches!(error, SimulationError::FrameSend(_)));
    assert_eq!(error.message(), format!("failed to send CAN frame: {}", os_error()));
}

#[test]
fn socket_opens_in_four_calls() {
    let OpenNext::Proceed(stage) = open_next("vcan0", OpenStage::CreateSocket, reply(7, 0)) else {
        panic!()
    };
    assert_eq!(stage, OpenStage::LookUpIndex { fd: 7 });
    let OpenNext::Proceed(stage) = open_next("vcan0", stage, reply(0, 3)) else { panic!() };
    assert_eq!(stage, OpenStage::EnableFdFrames { fd: 7, ifindex: 3 });
    let OpenNext::Proceed(stage) = open_next("vcan0", stage, reply(0, 0)) else { panic!() };
    assert_eq!(stage, OpenStage::Bind { fd: 7, ifindex: 3 });
    assert!(matches!(open_next("vcan0", stage, reply(0, 0)), OpenNext::Opened { fd: 7 }));
}

#[test]
fn socket_is_closed_after_a_failure() {
    let OpenNext::Failed { close, error } =
        open_next("vcan0", OpenStage::CreateSocket, reply(-1, 0))
    else {
        panic!()
    };
    assert_eq!(close, None);
    assert_eq!(
        error.message(),
        format!("failed to open CAN socket on interface 'vcan0': {}", os_error())
    );
    for stage in [
        OpenStage::LookUpIndex { fd: 7 },
        OpenStage::EnableFdFrames { fd: 7, ifindex: 3 },
        OpenStage::Bind { fd: 7, ifindex: 3 },
    ] {
        let OpenNext::Failed { close, error } = open_next("can9", stage, reply(-1, 0)) else {
            panic!()
        };
        assert_eq!(close, Some(7));
        assert!(matches!(
            error,
            SimulationError::SocketOpen { interface, source }
                if interface == "can9" && source.raw_os_error() == Some(19)
        ));
    }
}

#[test]
fn interface_names_that_do_not_fit_are_refused() {
    for name in ["a_name_too_long1", "a_name_too_long_by_far", "can0\0x"] {
        // Even where the system found an index.
        let next = open_next(name, OpenStage::LookUpIndex { fd: 7 }, reply(0, 3));
        assert!(matches!(
            next,
            OpenNext::Failed { close: Some(7), error: SimulationError::SocketOpen { interface, .. } }
                if interface == name
        ));
    }
    let next = open_next("fifteen_bytes_x", OpenStage::LookUpIndex { fd: 7 }, reply(0, 3));
    assert!(matches!(
        next,
        OpenNext::Proceed(OpenStage::EnableFdFrames { fd: 7, ifindex: 3 })
    ));
}

#[test]
fn interface_names_end_in_a_zero_byte() {
    assert_eq!(
        interface_name_field("can0", 8),
        Some(vec![b'c', b'a', b'n', b'0', 0, 0, 0, 0])
    );
    assert_eq!(interface_name_field("\u{e4}", 4), Some(vec![0xC3, 0xA4, 0, 0]));
    assert_eq!(interface_name_field("abc", 4), Some(vec![b'a', b'b', b'c', 0]));
    assert_eq!(interface_name_field("abcd", 4), None);
    assert_eq!(interface_name_field("abcdef", 4), None);
    assert_eq!(interface_name_field("a\0b", 8), None);
    assert_eq!(interface_name_field("", 0), None);
    assert_eq!(interface_name_field("fifteen_bytes_x", IFNAMSIZ).unwrap().len(), IFNAMSIZ);
}

#[test]
fn names_with_a_zero_byte_are_invalid() {
    assert!(has_nul("\0"));
    assert!(has_nul("can0\0"));
    assert!(!has_nul("can0"));
    assert!(!has_nul(""));
    // The system is not asked.
    let result = if_nametoindex("ca\0n", |_| panic!());
    assert!(matches!(result, Err(ClassicError::InvalidName)));
}

#[test]
fn index_of_an_interface() {
    let result = if_nametoindex("vcan0", |name| {
        assert_eq!(name, "vcan0");
        4
    });
    assert!(matches!(result, Ok(4)));
    assert!(matches!(
        if_nametoindex("nope", |_| 0),
        Err(ClassicError::NotFound(message)) if message == "interface 'nope' not found"
    ));
    assert!(matches!(index_result("x", 9), Ok(9)));
    assert!(matches!(
        index_result("x", 0),
        Err(ClassicError::NotFound(message)) if message == "interface 'x' not found"
    ));
}

#[test]
fn classic_socket_opens_in_two_calls() {
    let stage = ClassicStage::CreateSocket { ifindex: 4 };
    let ClassicNext::Proceed(stage) = classic_next(stage, classic_reply(8)) else { panic!() };
    assert_eq!(stage, ClassicStage::Bind { fd: 8, ifindex: 4 });
    assert!(matches!(classic_next(stage, classic_reply(0)), ClassicNext::Opened { fd: 8 }));
}

#[test]
fn classic_socket_failures() {
    let next = classic_next(ClassicStage::CreateSocket { ifindex: 1 }, classic_reply(-1));
    assert!(matches!(
        next,
        ClassicNext::Failed { close: None, error: ClassicError::Os(e) }
            if e.raw_os_error() == Some(19)
    ));
    let next = classic_next(ClassicStage::Bind { fd: 5, ifindex: 1 }, classic_reply(-1));
    assert!(matches!(
        next,
        ClassicNext::Failed { close: Some(5), error: ClassicError::Os(_) }
    ));
}

#[test]
fn sender_that_sends_at_once() {
    assert_eq!(
        begin(FirstSend::AtOnce, OFFSET),
        (SenderState::Offset, SenderAction::Sleep)
    );
    assert_eq!(count_sends(FirstSend::AtOnce, NO_OFFSET, &[]), 1);
    assert_eq!(count_sends(FirstSend::AtOnce, NO_OFFSET, &[Tick, Tick, Tick]), 4);
    assert_eq!(count_sends(FirstSend::AtOnce, OFFSET, &[OffsetElapsed, Tick, Tick]), 3);
}

#[test]
fn sender_that_sends_after_one_period() {
    assert_eq!(
        begin(FirstSend::AfterOnePeriod, NO_OFFSET),
        (SenderState::Settling, SenderAction::StartTicks)
    );
    assert_eq!(count_sends(FirstSend::AfterOnePeriod, NO_OFFSET, &[]), 0);
    assert_eq!(count_sends(FirstSend::AfterOnePeriod, NO_OFFSET, &[Tick]), 0);
    assert_eq!(count_sends(FirstSend::AfterOnePeriod, OFFSET, &[OffsetElapsed, Tick, Tick, Tick]), 2);
}

#[test]
fn first_tick_comes_at_once_or_after_one_period() {
    let period = Span { secs: 1, nanos: 5 };
    let at_once = first_tick_after(FirstSend::AtOnce, period);
    assert_eq!((at_once.secs, at_once.nanos), (1, 5));
    assert!(first_tick_after(FirstSend::AfterOnePeriod, period).is_zero());
}

#[test]
fn sends_are_due_at_multiples_of_the_period() {
    let period = Span { secs: 0, nanos: 10 };
    let offset = Span { secs: 0, nanos: 3 };
    assert_eq!(send_times(FirstSend::AtOnce, NO_OFFSET, period, 3), [0, 10, 20, 30]);
    assert_eq!(send_times(FirstSend::AtOnce, offset, period, 2), [3, 13, 23]);
    assert_eq!(send_times(FirstSend::AfterOnePeriod, NO_OFFSET, period, 4), [10, 20, 30]);
    assert_eq!(send_times(FirstSend::AfterOnePeriod, offset, period, 3), [13, 23]);
}

#[test]
fn sender_stops() {
    for first in [FirstSend::AtOnce, FirstSend::AfterOnePeriod] {
        assert_eq!(
            advance(first, SenderState::Cycling, Stop),
            (SenderState::Stopped, SenderAction::Exit)
        );
        assert_eq!(count_sends(first, OFFSET, &[Stop, OffsetElapsed, Tick, Tick]), 0);
        assert_eq!(count_sends(first, OFFSET, &[Tick, Tick]), 0);
        // Until its first tick is consumed a sender is not stopped.
        assert_eq!(
            advance(first, SenderState::Settling, Stop),
            (SenderState::Settling, SenderAction::Wait)
        );
    }
    assert_eq!(count_sends(FirstSend::AtOnce, NO_OFFSET, &[Tick, Stop, Tick]), 2);
}

#[test]
fn plugin_always_executes() {
    assert_eq!(
        CustomSetupPlugin::description(),
        "Custom Setup Plugin - Demonstrates device setup automation"
    );
    assert_eq!(CustomSetupPlugin::check_fulfilled(), Ok(TaskFulfilled::No));
}

#[test]
fn plugin_runs_its_command() {
    let execution = CustomSetupPlugin::execute(|command| {
        assert_eq!(command.program, "echo");
        assert_eq!(command.arguments, vec!["Custom setup plugin executed successfully"]);
        Ok("done".to_owned())
    });
    assert_eq!(execution.log.unwrap(), "Command output: done");
    assert_eq!(execution.result.unwrap().message, "Custom setup completed successfully");
}

#[test]
fn plugin_fails_with_its_command() {
    let execution = CustomSetupPlugin::execute(|_| Err(()));
    assert!(execution.log.is_none());
    assert!(execution.result.is_err());
    assert!(CustomSetupPlugin::conclude(Ok(String::new())).result.is_ok());
}

#[test]
fn deployments_are_cloned() {
    let deployment =
        ViperRunDeployment { run_id: ViperRunId { id: 1 }, test_id: ViperTestId { id: 2 } };
    let copy = deployment.clone();
    assert_eq!(copy.run_id, ViperRunId { id: 1 });
    assert_eq!(copy.test_id, ViperTestId { id: 2 });
}

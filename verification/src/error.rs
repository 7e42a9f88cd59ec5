//! What can go wrong on a CAN socket.
use vstd::prelude::*;
use vstd::string::*;

verus! {

/// `std::io::Error`, an error of the operating system. It is carried through unread.
#[verifier::external_type_specification]
#[verifier::external_body]
pub struct ExIoError(std::io::Error);

/// Errors that can occur during simulation.
#[derive(Debug)]
pub enum SimulationError {
    /// A CAN socket could not be opened.
    SocketOpen { interface: String, source: std::io::Error },
    /// A frame could not be sent.
    FrameSend(std::io::Error),
    /// There is no frame to send.
    NoFrames,
}

impl SimulationError {
    /// The message for this error, where `source` describes the error of the operating system.
    pub open spec fn spec_message(self, source: Seq<char>) -> Seq<char> {
        match self {
            SimulationError::SocketOpen { interface, .. } =>
                "failed to open CAN socket on interface '"@ + interface@ + "': "@ + source,
            SimulationError::FrameSend(_) => "failed to send CAN frame: "@ + source,
            SimulationError::NoFrames => "no scheduled frames to simulate"@,
        }
    }

    /// Writes the message, where `source` describes the error of the operating system.
    pub fn message_with(&self, source: &str) -> (res: String)
        ensures
            res@ == self.spec_message(source@),
    {
        match self {
            SimulationError::SocketOpen { interface, .. } => {
                let mut text = "failed to open CAN socket on interface '".to_owned();
                text.append(interface.as_str());
                text.append("': ");
                text.append(source);
                text
            },
            SimulationError::FrameSend(_) => {
                let mut text = "failed to send CAN frame: ".to_owned();
                text.append(source);
                text
            },
            SimulationError::NoFrames => "no scheduled frames to simulate".to_owned(),
        }
    }

    /// Writes the message. The error of the operating system is described by its own text.
    pub fn message(&self) -> (res: String)
        ensures
            match self {
                SimulationError::SocketOpen { source, .. } => exists|text: String| #[trigger]
                    to_string_from_display_ensures(source, text) && res@ == self.spec_message(
                        text@,
                    ),
                SimulationError::FrameSend(source) => exists|text: String| #[trigger]
                    to_string_from_display_ensures(source, text) && res@ == self.spec_message(
                        text@,
                    ),
                SimulationError::NoFrames => res@ == "no scheduled frames to simulate"@,
            },
    {
        match self {
            SimulationError::SocketOpen { source, .. } => {
                let text = source.to_string();
                self.message_with(text.as_str())
            },
            SimulationError::FrameSend(source) => {
                let text = source.to_string();
                self.message_with(text.as_str())
            },
            SimulationError::NoFrames => self.message_with(""),
        }
    }
}

/// The message says what failed. It names the interface on which no socket was opened, and ends in
/// the description of the error of the operating system, where there is one.
pub proof fn message_says_what_failed(error: SimulationError, source: &str, text: String)
    requires
        call_ensures(SimulationError::message_with, (&error, source), text),
    ensures
        error matches SimulationError::SocketOpen { interface, .. } ==> text@
            == "failed to open CAN socket on interface '"@ + interface@ + "': "@ + source@,
        error is FrameSend ==> text@ == "failed to send CAN frame: "@ + source@,
        error is NoFrames ==> text@ == "no scheduled frames to simulate"@,
{
}

/// The error of the operating system is described by its own text.
pub proof fn message_ends_in_the_cause(error: SimulationError, text: String)
    requires
        call_ensures(SimulationError::message, (&error,), text),
    ensures
        error matches SimulationError::SocketOpen { interface, source } ==> exists|cause: String|
         #[trigger]
            to_string_from_display_ensures(&source, cause) && text@
                == "failed to open CAN socket on interface '"@ + interface@ + "': "@ + cause@,
        error matches SimulationError::FrameSend(source) ==> exists|cause: String| #[trigger]
            to_string_from_display_ensures(&source, cause) && text@
                == "failed to send CAN frame: "@ + cause@,
        error is NoFrames ==> text@ == "no scheduled frames to simulate"@,
{
}

} // verus!

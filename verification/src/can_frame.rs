//! Classic CAN frames.
use crate::text::decimal_string;
use crate::wire::{bytes_in_memory, CAN_EFF_FLAG, CAN_MAX_DLEN, CAN_MTU};
use vstd::prelude::*;
use vstd::string::*;

verus! {

/// A classic CAN frame, with the fields of the Linux `struct can_frame`.
#[derive(Clone, Copy, Debug)]
pub struct CanFrame {
    pub can_id: u32,
    pub len: u8,
    pub pad: u8,
    pub res0: u8,
    pub res1: u8,
    pub data: [u8; 8],
}

/// The mathematical content of a [`CanFrame`].
#[verifier::ext_equal]
pub struct CanFrameView {
    pub can_id: u32,
    pub len: u8,
    pub pad: u8,
    pub res0: u8,
    pub res1: u8,
    pub data: Seq<u8>,
}

impl View for CanFrame {
    type V = CanFrameView;

    open spec fn view(&self) -> CanFrameView {
        CanFrameView {
            can_id: self.can_id,
            len: self.len,
            pad: self.pad,
            res0: self.res0,
            res1: self.res1,
            data: self.data@,
        }
    }
}

impl CanFrameView {
    /// The sixteen bytes of the frame on the wire, `id` being those of the identifier.
    pub open spec fn bytes(self, id: Seq<u8>) -> Seq<u8> {
        id + seq![self.len, self.pad, self.res0, self.res1] + self.data
    }

    /// The data bytes that are in use.
    pub open spec fn payload(self) -> Seq<u8> {
        self.data.take(self.len as int)
    }
}

/// The frame that carries the first eight bytes of `data` at most.
pub open spec fn frame_of(can_id: u32, data: Seq<u8>, extended: bool) -> CanFrameView {
    CanFrameView {
        can_id: if extended {
            can_id | CAN_EFF_FLAG
        } else {
            can_id
        },
        len: crate::wire::lesser(data.len(), CAN_MAX_DLEN as nat) as u8,
        pad: 0,
        res0: 0,
        res1: 0,
        data: crate::wire::padded(data, CAN_MAX_DLEN as nat),
    }
}

/// A frame carries its data as far as eight bytes reach.
pub proof fn payload_is_data_up_to_eight_bytes(can_id: u32, data: Seq<u8>, extended: bool)
    ensures
        data.len() <= CAN_MAX_DLEN ==> frame_of(can_id, data, extended).payload() == data,
        data.len() > CAN_MAX_DLEN ==> frame_of(can_id, data, extended).payload() == data.take(
            CAN_MAX_DLEN as int,
        ),
{
}

impl CanFrame {
    /// Makes a frame of the first eight bytes of `data` at most.
    pub fn new(can_id: u32, data: &[u8], extended: bool) -> (res: Self)
        ensures
            res@ == frame_of(can_id, data@, extended),
    {
        let copy_len: usize = if data.len() < CAN_MAX_DLEN {
            data.len()
        } else {
            CAN_MAX_DLEN
        };
        let mut bytes: [u8; 8] = [0u8;8];
        let mut i: usize = 0;
        while i < copy_len
            invariant
                i <= copy_len,
                copy_len == crate::wire::lesser(data@.len(), CAN_MAX_DLEN as nat),
                bytes@ == crate::wire::padded(data@.take(i as int), CAN_MAX_DLEN as nat),
            decreases copy_len - i,
        {
            bytes[i] = data[i];
            i = i + 1;
        }
        assert(bytes@ == crate::wire::padded(data@, CAN_MAX_DLEN as nat));
        let can_id: u32 = if extended {
            can_id | CAN_EFF_FLAG
        } else {
            can_id
        };
        CanFrame { can_id, len: copy_len as u8, pad: 0, res0: 0, res1: 0, data: bytes }
    }

    /// The bytes of the frame on the wire, where `id` are those of the identifier.
    pub fn layout(&self, id: [u8; 4]) -> (res: [u8; 16])
        ensures
            res@ == self@.bytes(id@),
    {
        let d = &self.data;
        let res: [u8; 16] = [
            id[0],
            id[1],
            id[2],
            id[3],
            self.len,
            self.pad,
            self.res0,
            self.res1,
            d[0],
            d[1],
            d[2],
            d[3],
            d[4],
            d[5],
            d[6],
            d[7],
        ];
        assert(res@ == self@.bytes(id@));
        res
    }

    /// The bytes of the frame on the wire. The identifier is in the byte order of the machine.
    pub fn as_bytes(&self) -> (res: [u8; 16])
        ensures
            exists|id: [u8; 4]| #[trigger]
                crate::wire::machine_bytes(self.can_id, id) && crate::wire::is_native_order(
                    id@,
                    self.can_id,
                ) && res@ == self@.bytes(id@),
    {
        let id = bytes_in_memory(self.can_id);
        self.layout(id)
    }
}

/// Why a frame was not sent.
#[derive(Debug)]
pub enum SendError {
    /// The write failed.
    Os(std::io::Error),
    /// The write took only part of the frame.
    Incomplete { written: usize },
}

impl SendError {
    /// The message for an incomplete write.
    pub open spec fn incomplete_message(written: nat) -> Seq<char> {
        "incomplete CAN frame write: "@ + crate::text::decimal(written) + " of "@
            + crate::text::decimal(CAN_MTU as nat) + " bytes"@
    }
}

/// Writes the message for an incomplete write.
pub fn incomplete_write_message(written: usize) -> (res: String)
    ensures
        res@ == SendError::incomplete_message(written as nat),
{
    let mut text = "incomplete CAN frame write: ".to_owned();
    text.append(decimal_string(written as u64).as_str());
    text.append(" of ");
    text.append(decimal_string(CAN_MTU as u64).as_str());
    text.append(" bytes");
    text
}

/// Judges a write of a frame to a socket by the number that the write returned. `error` is the
/// error of the operating system at that point.
pub fn send_result(written: isize, error: std::io::Error) -> (res: Result<(), SendError>)
    ensures
        res == (if written < 0 {
            Err(SendError::Os(error))
        } else if written != CAN_MTU {
            Err(SendError::Incomplete { written: written as usize })
        } else {
            Ok::<(), SendError>(())
        }),
{
    if written < 0 {
        return Err(SendError::Os(error));
    }
    let count: usize = written as usize;
    if count != CAN_MTU {
        return Err(SendError::Incomplete { written: count });
    }
    Ok(())
}

/// A frame goes out under the identifier that it is given, marked as one of 29 bits if and only if
/// it is extended. It holds the data as it was given, as far as eight bytes reach, and zeros after
/// it.
pub proof fn new_frame_holds_identifier_and_data(
    can_id: u32,
    data: &[u8],
    extended: bool,
    frame: CanFrame,
)
    requires
        call_ensures(CanFrame::new, (can_id, data, extended), frame),
    ensures
        !extended ==> frame.can_id == can_id,
        extended ==> frame.can_id == can_id | 0x8000_0000,
        frame.len == (if data@.len() <= 8 {
            data@.len() as int
        } else {
            8
        }),
        frame.pad == 0 && frame.res0 == 0 && frame.res1 == 0,
        forall|i: int|
            0 <= i < 8 ==> #[trigger] frame.data@[i] == (if i < data@.len() {
                data@[i]
            } else {
                0
            }),
        data@.len() <= 8 ==> frame.data@.take(data@.len() as int) == data@,
        data@.len() > 8 ==> frame.data@ == data@.take(8),
{
}

/// On the wire the fields of a frame follow each other in order: four bytes of the identifier, the
/// number of data bytes, three more bytes of the header, and the eight data bytes.
pub proof fn fields_follow_in_order(frame: CanFrame, id: [u8; 4], bytes: [u8; 16])
    requires
        call_ensures(CanFrame::layout, (&frame, id), bytes),
    ensures
        bytes@.len() == 16,
        bytes@.take(4) == id@,
        bytes@[4] == frame.len,
        bytes@[5] == frame.pad && bytes@[6] == frame.res0 && bytes@[7] == frame.res1,
        bytes@.skip(8) == frame.data@,
        frame.len <= 8 ==> bytes@.subrange(8, 8 + frame.len) == frame@.payload(),
        frame@.payload() == frame.data@.take(frame.len as int),
{
}

/// A frame goes out as it was made: the identifier in the byte order of the machine, the number of
/// data bytes, three zero bytes, and the data, filled up with zeros to eight bytes.
pub proof fn frame_goes_out_as_it_was_made(
    can_id: u32,
    data: &[u8],
    extended: bool,
    frame: CanFrame,
    bytes: [u8; 16],
)
    requires
        call_ensures(CanFrame::new, (can_id, data, extended), frame),
        call_ensures(CanFrame::as_bytes, (&frame,), bytes),
    ensures
        !extended ==> exists|id: [u8; 4]| #[trigger]
            crate::wire::machine_bytes(can_id, id) && bytes@.take(4) == id@,
        extended ==> exists|id: [u8; 4]| #[trigger]
            crate::wire::machine_bytes(can_id | 0x8000_0000, id) && bytes@.take(4) == id@,
        bytes@[4] == (if data@.len() <= 8 {
            data@.len() as int
        } else {
            8
        }),
        bytes@[5] == 0 && bytes@[6] == 0 && bytes@[7] == 0,
        forall|i: int|
            0 <= i < 8 ==> #[trigger] bytes@[8 + i] == (if i < data@.len() {
                data@[i]
            } else {
                0
            }),
{
    let id = choose|id: [u8; 4]| #[trigger]
        crate::wire::machine_bytes(frame.can_id, id) && bytes@ == frame@.bytes(id@);
    assert(bytes@.take(4) == id@);
}

/// A write sends a frame if and only if it takes all of its sixteen bytes. A negative number is an
/// error of the operating system; any other number is told as it is.
pub proof fn frame_is_sent_whole_or_not_at_all(
    written: isize,
    error: std::io::Error,
    res: Result<(), SendError>,
)
    requires
        call_ensures(send_result, (written, error), res),
    ensures
        res is Ok <==> written == 16,
        res matches Err(SendError::Os(source)) ==> source == error,
        res matches Err(SendError::Os(_)) <==> written < 0,
        res matches Err(SendError::Incomplete { written: count }) ==> count == written,
{
}

/// The message for an incomplete write says how many of the sixteen bytes were written.
pub proof fn incomplete_write_is_told_in_bytes(written: usize, text: String)
    requires
        call_ensures(incomplete_write_message, (written,), text),
    ensures
        text@ == "incomplete CAN frame write: "@ + crate::text::decimal(written as nat) + " of "@
            + crate::text::decimal(16) + " bytes"@,
{
}

} // verus!

//! CAN frames that are classic or FD, by the length of their data.
use crate::assembly::ScheduledFrameView;
use crate::error::SimulationError;
use crate::wire::{bytes_in_memory, CANFD_MAX_DLEN, CANFD_MTU, CAN_MAX_DLEN, CAN_MTU};
use vstd::prelude::*;

verus! {

/// A CAN frame, with the fields of the Linux `struct canfd_frame`.
#[derive(Clone, Copy, Debug)]
pub struct RawCanFrame {
    pub can_id: u32,
    pub len: u8,
    pub flags: u8,
    pub res0: u8,
    pub res1: u8,
    pub data: [u8; 64],
}

/// The mathematical content of a [`RawCanFrame`].
#[verifier::ext_equal]
pub struct RawCanFrameView {
    pub can_id: u32,
    pub len: u8,
    pub flags: u8,
    pub res0: u8,
    pub res1: u8,
    pub data: Seq<u8>,
}

impl View for RawCanFrame {
    type V = RawCanFrameView;

    open spec fn view(&self) -> RawCanFrameView {
        RawCanFrameView {
            can_id: self.can_id,
            len: self.len,
            flags: self.flags,
            res0: self.res0,
            res1: self.res1,
            data: self.data@,
        }
    }
}

impl RawCanFrameView {
    /// The number of bytes on the wire: frames of up to eight data bytes are classic.
    pub open spec fn wire_length(self) -> nat {
        if self.len > CAN_MAX_DLEN {
            CANFD_MTU as nat
        } else {
            CAN_MTU as nat
        }
    }

    /// The bytes of the frame on the wire, `id` being those of the identifier.
    pub open spec fn bytes(self, id: Seq<u8>) -> Seq<u8> {
        (id + seq![self.len, self.flags, self.res0, self.res1] + self.data).take(
            self.wire_length() as int,
        )
    }

    /// The data bytes that are in use.
    pub open spec fn payload(self) -> Seq<u8> {
        self.data.take(self.len as int)
    }
}

/// The frame that carries the first 64 bytes of `data` at most.
pub open spec fn raw_frame_of(id: u32, data: Seq<u8>) -> RawCanFrameView {
    RawCanFrameView {
        can_id: id,
        len: crate::wire::lesser(data.len(), CANFD_MAX_DLEN as nat) as u8,
        flags: 0,
        res0: 0,
        res1: 0,
        data: crate::wire::padded(data, CANFD_MAX_DLEN as nat),
    }
}

/// Data of up to eight bytes goes out whole in a classic frame, longer data of up to 64 bytes goes
/// out whole in an FD frame, and of what is longer still the first 64 bytes go out. In each case
/// the bytes follow the eight bytes of the header.
pub proof fn data_goes_out_classic_or_fd(id: u32, data: Seq<u8>, id_bytes: Seq<u8>)
    requires
        id_bytes.len() == 4,
    ensures
        ({
            let frame = raw_frame_of(id, data);
            let bytes = frame.bytes(id_bytes);
            &&& data.len() <= CAN_MAX_DLEN ==> bytes.len() == CAN_MTU
            &&& data.len() > CAN_MAX_DLEN ==> bytes.len() == CANFD_MTU
            &&& data.len() <= CANFD_MAX_DLEN ==> frame.payload() == data
            &&& data.len() > CANFD_MAX_DLEN ==> frame.payload() == data.take(
                CANFD_MAX_DLEN as int,
            )
            &&& bytes.take(4) == id_bytes
            &&& bytes[4] == frame.len
            &&& bytes.subrange(8, 8 + frame.len) == frame.payload()
        }),
{
}

/// A scheduled frame goes out whole.
pub proof fn scheduled_frame_goes_out_whole(frame: ScheduledFrameView)
    requires
        frame.wf(),
    ensures
        raw_frame_of(frame.can_id, frame.data).payload() == frame.data,
{
}

impl RawCanFrame {
    /// Makes a frame of the first 64 bytes of `data` at most.
    pub fn new(id: u32, data: &[u8]) -> (res: Self)
        ensures
            res@ == raw_frame_of(id, data@),
    {
        let copy_len: usize = if data.len() < CANFD_MAX_DLEN {
            data.len()
        } else {
            CANFD_MAX_DLEN
        };
        let mut bytes: [u8; 64] = [0u8;64];
        let mut i: usize = 0;
        while i < copy_len
            invariant
                i <= copy_len,
                copy_len == crate::wire::lesser(data@.len(), CANFD_MAX_DLEN as nat),
                bytes@ == crate::wire::padded(data@.take(i as int), CANFD_MAX_DLEN as nat),
            decreases copy_len - i,
        {
            bytes[i] = data[i];
            i = i + 1;
        }
        assert(bytes@ == crate::wire::padded(data@, CANFD_MAX_DLEN as nat));
        RawCanFrame { can_id: id, len: copy_len as u8, flags: 0, res0: 0, res1: 0, data: bytes }
    }

    /// The number of bytes on the wire.
    pub fn wire_length(&self) -> (res: usize)
        ensures
            res == self@.wire_length(),
    {
        if self.len as usize > CAN_MAX_DLEN {
            CANFD_MTU
        } else {
            CAN_MTU
        }
    }

    /// The bytes of the frame on the wire, where `id` are those of the identifier.
    pub fn layout(&self, id: [u8; 4]) -> (res: Vec<u8>)
        ensures
            res@ == self@.bytes(id@),
    {
        let wire_length: usize = self.wire_length();
        let mut res: Vec<u8> = vec![
            id[0],
            id[1],
            id[2],
            id[3],
            self.len,
            self.flags,
            self.res0,
            self.res1,
        ];
        let ghost header = id@ + seq![self.len, self.flags, self.res0, self.res1];
        assert(res@ == header);
        let mut i: usize = 0;
        while i < wire_length - 8
            invariant
                i <= wire_length - 8,
                wire_length == self@.wire_length(),
                header.len() == 8,
                res@ == header + self.data@.take(i as int),
            decreases wire_length - i,
        {
            res.push(self.data[i]);
            i = i + 1;
        }
        assert(res@ == self@.bytes(id@));
        res
    }

    /// The bytes of the frame on the wire. The identifier is in the byte order of the machine.
    pub fn as_bytes(&self) -> (res: Vec<u8>)
        ensures
            exists|id: [u8; 4]| #[trigger]
                crate::wire::machine_bytes(self.can_id, id) && crate::wire::is_native_order(
                    id@,
                    self.can_id,
                ) && res@ == self@.bytes(id@),
    {
        let id = bytes_in_memory(self.can_id);
        self.layout(id)
    }
}

/// Judges a write of a frame to a socket by the number that the write returned. `error` is the
/// error of the operating system at that point.
pub fn write_result(written: isize, error: std::io::Error) -> (res: Result<(), SimulationError>)
    ensures
        res == (if written < 0 {
            Err(SimulationError::FrameSend(error))
        } else {
            Ok::<(), SimulationError>(())
        }),
{
    if written < 0 {
        Err(SimulationError::FrameSend(error))
    } else {
        Ok(())
    }
}

/// A frame goes out under the identifier that it is given, whatever the length of its data. It holds
/// the data as it was given, as far as 64 bytes reach, and zeros after it.
pub proof fn new_frame_holds_identifier_and_data(id: u32, data: &[u8], frame: RawCanFrame)
    requires
        call_ensures(RawCanFrame::new, (id, data), frame),
    ensures
        frame.can_id == id,
        frame.len == (if data@.len() <= 64 {
            data@.len() as int
        } else {
            64
        }),
        frame.flags == 0 && frame.res0 == 0 && frame.res1 == 0,
        forall|i: int|
            0 <= i < 64 ==> #[trigger] frame.data@[i] == (if i < data@.len() {
                data@[i]
            } else {
                0
            }),
        data@.len() <= 64 ==> frame.data@.take(data@.len() as int) == data@,
        data@.len() > 64 ==> frame.data@ == data@.take(64),
{
}

/// On the wire the fields of a frame follow each other in order: four bytes of the identifier, the
/// number of data bytes, three more bytes of the header, and the data bytes: eight of them in a
/// classic frame, 64 in an FD frame.
pub proof fn fields_follow_in_order(frame: RawCanFrame, id: [u8; 4], bytes: Vec<u8>)
    requires
        call_ensures(RawCanFrame::layout, (&frame, id), bytes),
    ensures
        frame.len <= 8 ==> bytes@.len() == 16 && bytes@.skip(8) == frame.data@.take(8),
        frame.len > 8 ==> bytes@.len() == 72 && bytes@.skip(8) == frame.data@,
        bytes@.take(4) == id@,
        bytes@[4] == frame.len,
        bytes@[5] == frame.flags && bytes@[6] == frame.res0 && bytes@[7] == frame.res1,
{
}

/// A frame goes out as it was made: the identifier in the byte order of the machine, the number of
/// data bytes, three zero bytes, and the data, filled up with zeros to eight bytes where it fits a
/// classic frame and to 64 bytes where it does not.
pub proof fn frame_goes_out_as_it_was_made(
    id: u32,
    data: &[u8],
    frame: RawCanFrame,
    bytes: Vec<u8>,
)
    requires
        call_ensures(RawCanFrame::new, (id, data), frame),
        call_ensures(RawCanFrame::as_bytes, (&frame,), bytes),
    ensures
        bytes@.len() == (if data@.len() <= 8 {
            16int
        } else {
            72
        }),
        exists|id_bytes: [u8; 4]| #[trigger]
            crate::wire::machine_bytes(id, id_bytes) && bytes@.take(4) == id_bytes@,
        bytes@[4] == (if data@.len() <= 64 {
            data@.len() as int
        } else {
            64
        }),
        bytes@[5] == 0 && bytes@[6] == 0 && bytes@[7] == 0,
        forall|i: int|
            0 <= i < bytes@.len() - 8 ==> #[trigger] bytes@[8 + i] == (if i < data@.len() {
                data@[i]
            } else {
                0
            }),
{
    let id_bytes = choose|id_bytes: [u8; 4]| #[trigger]
        crate::wire::machine_bytes(frame.can_id, id_bytes) && bytes@ == frame@.bytes(id_bytes@);
    assert(bytes@.take(4) == id_bytes@);
}

/// As many bytes are announced for a frame as go out for it.
pub proof fn wire_length_is_the_number_of_bytes(
    frame: RawCanFrame,
    bytes: Vec<u8>,
    wire_length: usize,
)
    requires
        call_ensures(RawCanFrame::as_bytes, (&frame,), bytes),
        call_ensures(RawCanFrame::wire_length, (&frame,), wire_length),
    ensures
        wire_length == bytes@.len(),
        wire_length == (if frame.len <= 8 {
            16int
        } else {
            72
        }),
{
}

/// A write fails if and only if it returns a negative number, with the error of the operating
/// system.
pub proof fn only_a_negative_write_fails(
    written: isize,
    error: std::io::Error,
    res: Result<(), SimulationError>,
)
    requires
        call_ensures(write_result, (written, error), res),
    ensures
        res is Ok <==> written >= 0,
        res matches Err(failure) ==> (failure matches SimulationError::FrameSend(source) && source
            == error),
{
}

} // verus!

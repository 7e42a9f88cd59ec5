//! The order of system calls by which CAN sockets are opened.
use crate::error::SimulationError;
use vstd::prelude::*;
use vstd::string::*;

verus! {

/// Number of bytes of an interface name, the zero byte at its end included.
pub const IFNAMSIZ: usize = 16;

/// A name of these bytes can be told to the system: a zero byte follows it within the capacity, and
/// there is none in it.
pub open spec fn name_fits(name: Seq<u8>, capacity: nat) -> bool {
    name.len() < capacity && !name.contains(0u8)
}

/// Tells whether a name holds a zero byte.
pub fn has_nul(name: &str) -> (res: bool)
    ensures
        res == name.spec_bytes().contains(0u8),
{
    let bytes = name.as_bytes();
    let mut i: usize = 0;
    while i < bytes.len()
        invariant
            i <= bytes@.len(),
            bytes@ == name.spec_bytes(),
            forall|j: int| 0 <= j < i ==> bytes@[j] != 0,
        decreases bytes@.len() - i,
    {
        if bytes[i] == 0 {
            assert(bytes@[i as int] == 0);
            return true;
        }
        i = i + 1;
    }
    false
}

/// The name field of an interface request: the bytes of the name, filled up with zeros. There is
/// none where the name does not fit.
pub fn interface_name_field(interface: &str, capacity: usize) -> (res: Option<Vec<u8>>)
    ensures
        res is Some <==> interface.spec_bytes().len() < capacity
            && !interface.spec_bytes().contains(0u8),
        res matches Some(field) ==> field@ == crate::wire::padded(
            interface.spec_bytes(),
            capacity as nat,
        ),
{
    let bytes = interface.as_bytes();
    if bytes.len() >= capacity || has_nul(interface) {
        return None;
    }
    let mut field: Vec<u8> = vec![0u8; capacity];
    let mut i: usize = 0;
    while i < bytes.len()
        invariant
            i <= bytes@.len() < capacity,
            field@ == crate::wire::padded(bytes@.take(i as int), capacity as nat),
        decreases bytes@.len() - i,
    {
        field.set(i, bytes[i]);
        i = i + 1;
    }
    assert(bytes@.take(i as int) == bytes@);
    Some(field)
}

/// The system call to make next while a CAN FD socket is opened.
#[derive(Clone, Copy, Debug, PartialEq, Eq, Structural)]
pub enum OpenStage {
    /// Create a raw CAN socket.
    CreateSocket,
    /// Look up the index of the interface. Fails where the name of the interface does not fit.
    LookUpIndex { fd: i32 },
    /// Enable CAN FD frames on the socket.
    EnableFdFrames { fd: i32, ifindex: i32 },
    /// Bind the socket to the interface.
    Bind { fd: i32, ifindex: i32 },
}

/// What a system call came back with.
#[derive(Debug)]
pub struct Reply {
    /// The value that the call returned; negative where it failed.
    pub ret: i32,
    /// The index of the interface, after the call that looks it up.
    pub ifindex: i32,
    /// The error of the operating system after the call.
    pub error: std::io::Error,
}

/// How the opening of a CAN FD socket goes on.
#[derive(Debug)]
pub enum OpenNext {
    /// Make another system call.
    Proceed(OpenStage),
    /// The socket is open.
    Opened { fd: i32 },
    /// The socket is not open. A descriptor that was created has to be closed.
    Failed { close: Option<i32>, error: SimulationError },
}

/// How the opening of a socket goes on, but for the error.
pub enum OpenStep {
    Proceed(OpenStage),
    Opened(i32),
    Failed(Option<i32>),
}

/// What follows the reply to a system call, where `fits` says whether the name of the interface
/// fits. Every reply is checked, and no index is taken for a name that does not fit.
pub open spec fn open_step(fits: bool, stage: OpenStage, ret: i32, ifindex: i32) -> OpenStep {
    match stage {
        OpenStage::CreateSocket => if ret < 0 {
            OpenStep::Failed(None)
        } else {
            OpenStep::Proceed(OpenStage::LookUpIndex { fd: ret })
        },
        OpenStage::LookUpIndex { fd } => if ret < 0 || !fits {
            OpenStep::Failed(Some(fd))
        } else {
            OpenStep::Proceed(OpenStage::EnableFdFrames { fd, ifindex })
        },
        OpenStage::EnableFdFrames { fd, ifindex } => if ret < 0 {
            OpenStep::Failed(Some(fd))
        } else {
            OpenStep::Proceed(OpenStage::Bind { fd, ifindex })
        },
        OpenStage::Bind { fd, ifindex: _ } => if ret < 0 {
            OpenStep::Failed(Some(fd))
        } else {
            OpenStep::Opened(fd)
        },
    }
}

fn open_error(interface: &str, source: std::io::Error) -> (res: SimulationError)
    ensures
        res matches SimulationError::SocketOpen { interface: name, source: s } && name@
            == interface@ && s == source,
{
    SimulationError::SocketOpen { interface: interface.to_owned(), source }
}

/// Goes on with the opening of a CAN FD socket on `interface` after the reply to a system call.
pub fn open_next(interface: &str, stage: OpenStage, reply: Reply) -> (res: OpenNext)
    ensures
        ({
            let fits = name_fits(interface.spec_bytes(), IFNAMSIZ as nat);
            let step = open_step(fits, stage, reply.ret, reply.ifindex);
            match res {
                OpenNext::Proceed(next) => step == OpenStep::Proceed(next),
                OpenNext::Opened { fd } => step == OpenStep::Opened(fd),
                OpenNext::Failed { close, error } => {
                    &&& step == OpenStep::Failed(close)
                    &&& error matches SimulationError::SocketOpen { interface: name, source }
                        && name@ == interface@ && source == reply.error
                },
            }
        }),
{
    match stage {
        OpenStage::CreateSocket => if reply.ret < 0 {
            OpenNext::Failed { close: None, error: open_error(interface, reply.error) }
        } else {
            OpenNext::Proceed(OpenStage::LookUpIndex { fd: reply.ret })
        },
        OpenStage::LookUpIndex { fd } => if reply.ret < 0 || interface.as_bytes().len() >= IFNAMSIZ
            || has_nul(interface) {
            OpenNext::Failed { close: Some(fd), error: open_error(interface, reply.error) }
        } else {
            OpenNext::Proceed(OpenStage::EnableFdFrames { fd, ifindex: reply.ifindex })
        },
        OpenStage::EnableFdFrames { fd, ifindex } => if reply.ret < 0 {
            OpenNext::Failed { close: Some(fd), error: open_error(interface, reply.error) }
        } else {
            OpenNext::Proceed(OpenStage::Bind { fd, ifindex })
        },
        OpenStage::Bind { fd, ifindex: _ } => if reply.ret < 0 {
            OpenNext::Failed { close: Some(fd), error: open_error(interface, reply.error) }
        } else {
            OpenNext::Opened { fd }
        },
    }
}

/// Where the opening of a CAN FD socket stands after some replies, each the value that the call
/// returned and the index of the interface. `fits` says whether the name of the interface fits.
pub open spec fn open_run(fits: bool, replies: Seq<(i32, i32)>) -> OpenStep
    decreases replies.len(),
{
    if replies.len() == 0 {
        OpenStep::Proceed(OpenStage::CreateSocket)
    } else {
        match open_run(fits, replies.drop_last()) {
            OpenStep::Proceed(stage) => open_step(
                fits,
                stage,
                replies.last().0,
                replies.last().1,
            ),
            ended => ended,
        }
    }
}

/// After four system calls the opening of a CAN FD socket has come to an end. It succeeds if and
/// only if the name of the interface fits and every call succeeded; the socket is then the one that
/// was created. Otherwise a socket that was created is closed, and no other.
pub proof fn opening_ends_and_leaks_no_socket(fits: bool, replies: Seq<(i32, i32)>)
    requires
        replies.len() == 4,
    ensures
        !(open_run(fits, replies) is Proceed),
        open_run(fits, replies) is Opened <==> fits && replies[0].0 >= 0 && replies[1].0 >= 0
            && replies[2].0 >= 0 && replies[3].0 >= 0,
        open_run(fits, replies) matches OpenStep::Opened(fd) ==> fd == replies[0].0,
        open_run(fits, replies) matches OpenStep::Failed(close) ==> close == (if replies[0].0 < 0 {
            None
        } else {
            Some(replies[0].0)
        }),
{
    reveal_with_fuel(open_run, 5);
}

/// The socket is bound to the interface whose index was looked up, and that only where the name of
/// the interface fits.
pub proof fn only_a_named_interface_is_bound(fits: bool, replies: Seq<(i32, i32)>)
    requires
        replies.len() == 3,
    ensures
        open_run(fits, replies) matches OpenStep::Proceed(stage) ==> fits && stage == (
        OpenStage::Bind { fd: replies[0].0, ifindex: replies[1].1 }),
{
    reveal_with_fuel(open_run, 4);
}

/// Why a classic CAN socket is not open.
#[derive(Debug)]
pub enum ClassicError {
    /// The name of the interface holds a zero byte.
    InvalidName,
    /// No interface has the name; holds the message that says so.
    NotFound(String),
    /// A system call failed.
    Os(std::io::Error),
}

/// The message that an interface was not found.
pub open spec fn not_found_message(interface: Seq<char>) -> Seq<char> {
    "interface '"@ + interface + "' not found"@
}

/// `res` is what follows from `index`, the index that the system gives for the name, zero where it
/// gives none.
pub open spec fn is_index_result(
    name: Seq<char>,
    index: u32,
    res: Result<u32, ClassicError>,
) -> bool {
    if index == 0 {
        res matches Err(ClassicError::NotFound(message)) && message@ == not_found_message(name)
    } else {
        res == Ok::<u32, ClassicError>(index)
    }
}

/// Judges the index that the system gives for the name of an interface.
pub fn index_result(name: &str, index: u32) -> (res: Result<u32, ClassicError>)
    ensures
        is_index_result(name@, index, res),
{
    if index == 0 {
        let mut message = "interface '".to_owned();
        message.append(name);
        message.append("' not found");
        Err(ClassicError::NotFound(message))
    } else {
        Ok(index)
    }
}

/// Finds the index of an interface: `look_up` asks the system, and gives zero where there is none.
///
/// A name with a zero byte is invalid, and the system is not asked for it.
pub fn if_nametoindex<L: FnOnce(&str) -> u32>(name: &str, look_up: L) -> (res: Result<
    u32,
    ClassicError,
>)
    requires
        !name.spec_bytes().contains(0u8) ==> call_requires(look_up, (name,)),
    ensures
        res matches Err(ClassicError::InvalidName) <==> name.spec_bytes().contains(0u8),
        !name.spec_bytes().contains(0u8) ==> exists|index: u32| #[trigger]
            call_ensures(look_up, (name,), index) && is_index_result(name@, index, res),
        res matches Ok(index) ==> index != 0,
{
    if has_nul(name) {
        return Err(ClassicError::InvalidName);
    }
    let index: u32 = look_up(name);
    index_result(name, index)
}

/// The system call to make next while a classic CAN socket is opened.
#[derive(Clone, Copy, Debug, PartialEq, Eq, Structural)]
pub enum ClassicStage {
    /// Create a raw CAN socket.
    CreateSocket { ifindex: u32 },
    /// Bind the socket to the interface.
    Bind { fd: i32, ifindex: u32 },
}

/// What a system call came back with.
#[derive(Debug)]
pub struct ClassicReply {
    /// The value that the call returned; negative where it failed.
    pub ret: i32,
    /// The error of the operating system after the call.
    pub error: std::io::Error,
}

/// How the opening of a classic CAN socket goes on.
#[derive(Debug)]
pub enum ClassicNext {
    /// Make another system call.
    Proceed(ClassicStage),
    /// The socket is open.
    Opened { fd: i32 },
    /// The socket is not open. A descriptor that was created has to be closed.
    Failed { close: Option<i32>, error: ClassicError },
}

/// How the opening of a classic CAN socket goes on, but for the error.
pub enum ClassicStep {
    Proceed(ClassicStage),
    Opened(i32),
    Failed(Option<i32>),
}

/// What follows the reply to a system call.
pub open spec fn classic_step(stage: ClassicStage, ret: i32) -> ClassicStep {
    match stage {
        ClassicStage::CreateSocket { ifindex } => if ret < 0 {
            ClassicStep::Failed(None)
        } else {
            ClassicStep::Proceed(ClassicStage::Bind { fd: ret, ifindex })
        },
        ClassicStage::Bind { fd, ifindex: _ } => if ret < 0 {
            ClassicStep::Failed(Some(fd))
        } else {
            ClassicStep::Opened(fd)
        },
    }
}

/// Goes on with the opening of a classic CAN socket after the reply to a system call.
pub fn classic_next(stage: ClassicStage, reply: ClassicReply) -> (res: ClassicNext)
    ensures
        match res {
            ClassicNext::Proceed(next) => classic_step(stage, reply.ret) == ClassicStep::Proceed(
                next,
            ),
            ClassicNext::Opened { fd } => classic_step(stage, reply.ret) == ClassicStep::Opened(fd),
            ClassicNext::Failed { close, error } => {
                &&& classic_step(stage, reply.ret) == ClassicStep::Failed(close)
                &&& error == ClassicError::Os(reply.error)
            },
        },
{
    match stage {
        ClassicStage::CreateSocket { ifindex } => if reply.ret < 0 {
            ClassicNext::Failed { close: None, error: ClassicError::Os(reply.error) }
        } else {
            ClassicNext::Proceed(ClassicStage::Bind { fd: reply.ret, ifindex })
        },
        ClassicStage::Bind { fd, ifindex: _ } => if reply.ret < 0 {
            ClassicNext::Failed { close: Some(fd), error: ClassicError::Os(reply.error) }
        } else {
            ClassicNext::Opened { fd }
        },
    }
}

/// Where the opening of a classic CAN socket on the interface of the given index stands after the
/// system calls returned some values.
pub open spec fn classic_run(ifindex: u32, rets: Seq<i32>) -> ClassicStep
    decreases rets.len(),
{
    if rets.len() == 0 {
        ClassicStep::Proceed(ClassicStage::CreateSocket { ifindex })
    } else {
        match classic_run(ifindex, rets.drop_last()) {
            ClassicStep::Proceed(stage) => classic_step(stage, rets.last()),
            ended => ended,
        }
    }
}

/// After two system calls the opening of a classic CAN socket has come to an end. It succeeds if
/// and only if the socket was created and bound; the socket is then the one that was created.
/// Otherwise a socket that was created is closed, and no other.
pub proof fn classic_opening_ends_and_leaks_no_socket(ifindex: u32, rets: Seq<i32>)
    requires
        rets.len() == 2,
    ensures
        !(classic_run(ifindex, rets) is Proceed),
        classic_run(ifindex, rets) is Opened <==> rets[0] >= 0 && rets[1] >= 0,
        classic_run(ifindex, rets) matches ClassicStep::Opened(fd) ==> fd == rets[0],
        classic_run(ifindex, rets) matches ClassicStep::Failed(close) ==> close == (if rets[0] < 0 {
            None
        } else {
            Some(rets[0])
        }),
        classic_run(ifindex, rets.take(1)) matches ClassicStep::Proceed(stage) ==> stage == (
        ClassicStage::Bind { fd: rets[0], ifindex }),
{
    reveal_with_fuel(classic_run, 3);
    assert(rets.take(1).drop_last() == Seq::<i32>::empty());
}

/// A zero byte is found in a name if and only if one of its bytes is zero.
pub proof fn zero_byte_is_found(name: &str, res: bool)
    requires
        call_ensures(has_nul, (name,), res),
    ensures
        res <==> exists|i: int|
            0 <= i < name.spec_bytes().len() && #[trigger] name.spec_bytes()[i] == 0,
{
    if res {
        let i = name.spec_bytes().index_of(0u8);
        assert(name.spec_bytes()[i] == 0);
    }
}

/// The name field holds the bytes of the name and zeros after it, one at least. There is a field if
/// and only if the name leaves room for the zero and holds none.
pub proof fn name_field_ends_in_zeros(interface: &str, capacity: usize, res: Option<Vec<u8>>)
    requires
        call_ensures(interface_name_field, (interface, capacity), res),
    ensures
        ({
            let name = interface.spec_bytes();
            &&& res is Some <==> name.len() + 1 <= capacity && forall|i: int|
                0 <= i < name.len() ==> #[trigger] name[i] != 0
            &&& res matches Some(field) ==> {
                &&& field@.len() == capacity
                &&& field@.take(name.len() as int) == name
                &&& forall|i: int| name.len() <= i < capacity ==> #[trigger] field@[i] == 0
            }
        }),
{
    let name = interface.spec_bytes();
    if forall|i: int| 0 <= i < name.len() ==> #[trigger] name[i] != 0 {
        assert(!name.contains(0u8));
    } else {
        let i = choose|i: int| 0 <= i < name.len() && #[trigger] name[i] == 0;
        assert(name.contains(name[i]));
    }
}

/// A failed system call ends the opening of a socket at once. The error names the interface and is
/// that of the system call. The descriptor of a socket that was created is given up to be closed,
/// and no other.
pub proof fn failed_call_ends_the_opening(
    interface: &str,
    stage: OpenStage,
    reply: Reply,
    res: OpenNext,
)
    requires
        call_ensures(open_next, (interface, stage, reply), res),
    ensures
        reply.ret < 0 ==> res is Failed,
        res matches OpenNext::Failed { close, error } ==> {
            &&& error matches SimulationError::SocketOpen { interface: name, source } && name@
                == interface@ && source == reply.error
            &&& match stage {
                OpenStage::CreateSocket => close is None,
                OpenStage::LookUpIndex { fd } => close == Some(fd),
                OpenStage::EnableFdFrames { fd, .. } => close == Some(fd),
                OpenStage::Bind { fd, .. } => close == Some(fd),
            }
        },
{
}

/// A successful system call is followed by the next, or the socket is open. Only the index of an
/// interface whose name has at most fifteen bytes, none of them zero, is gone on with.
pub proof fn successful_call_is_followed_by_the_next(
    interface: &str,
    stage: OpenStage,
    reply: Reply,
    res: OpenNext,
)
    requires
        call_ensures(open_next, (interface, stage, reply), res),
        reply.ret >= 0,
    ensures
        stage is CreateSocket ==> res == OpenNext::Proceed(
            OpenStage::LookUpIndex { fd: reply.ret },
        ),
        stage matches OpenStage::LookUpIndex { fd } ==> {
            let name = interface.spec_bytes();
            if name.len() <= 15 && forall|i: int| 0 <= i < name.len() ==> #[trigger] name[i] != 0 {
                res == OpenNext::Proceed(
                    OpenStage::EnableFdFrames { fd, ifindex: reply.ifindex },
                )
            } else {
                res is Failed
            }
        },
        stage matches OpenStage::EnableFdFrames { fd, ifindex } ==> res == OpenNext::Proceed(
            OpenStage::Bind { fd, ifindex },
        ),
        stage matches OpenStage::Bind { fd, .. } ==> res == (OpenNext::Opened { fd }),
{
    let name = interface.spec_bytes();
    if forall|i: int| 0 <= i < name.len() ==> #[trigger] name[i] != 0 {
        assert(!name.contains(0u8));
    } else {
        let i = choose|i: int| 0 <= i < name.len() && #[trigger] name[i] == 0;
        assert(name.contains(name[i]));
    }
}

/// As long as the system calls succeed they are made in this order: the socket is created, the index
/// of the interface is looked up, CAN FD frames are enabled on the socket, and it is bound to that
/// interface.
pub proof fn calls_are_made_in_order(replies: Seq<(i32, i32)>)
    requires
        replies.len() <= 4,
        forall|i: int| 0 <= i < replies.len() ==> (#[trigger] replies[i]).0 >= 0,
    ensures
        replies.len() == 0 ==> open_run(true, replies) == OpenStep::Proceed(
            OpenStage::CreateSocket,
        ),
        replies.len() == 1 ==> open_run(true, replies) == OpenStep::Proceed(
            OpenStage::LookUpIndex { fd: replies[0].0 },
        ),
        replies.len() == 2 ==> open_run(true, replies) == OpenStep::Proceed(
            OpenStage::EnableFdFrames { fd: replies[0].0, ifindex: replies[1].1 },
        ),
        replies.len() == 3 ==> open_run(true, replies) == OpenStep::Proceed(
            OpenStage::Bind { fd: replies[0].0, ifindex: replies[1].1 },
        ),
        replies.len() == 4 ==> open_run(true, replies) == OpenStep::Opened(replies[0].0),
{
    reveal_with_fuel(open_run, 5);
}

/// The index that the system gives for a name is taken as it is. Where it gives none, the message
/// names the interface.
pub proof fn index_is_taken_unless_zero(name: &str, index: u32, res: Result<u32, ClassicError>)
    requires
        call_ensures(index_result, (name, index), res),
    ensures
        index != 0 ==> res == Ok::<u32, ClassicError>(index),
        index == 0 ==> (res matches Err(ClassicError::NotFound(message)) && message@
            == "interface '"@ + name@ + "' not found"@),
{
}

/// A name with a zero byte is invalid. For any other name the answer of the system is what counts.
pub proof fn system_is_asked_for_the_index<L: FnOnce(&str) -> u32>(
    name: &str,
    look_up: L,
    res: Result<u32, ClassicError>,
)
    requires
        call_ensures(if_nametoindex::<L>, (name, look_up), res),
    ensures
        ({
            let bytes = name.spec_bytes();
            if exists|i: int| 0 <= i < bytes.len() && #[trigger] bytes[i] == 0 {
                res matches Err(ClassicError::InvalidName)
            } else {
                exists|index: u32| #[trigger]
                    call_ensures(look_up, (name,), index) && (if index != 0 {
                        res == Ok::<u32, ClassicError>(index)
                    } else {
                        res matches Err(ClassicError::NotFound(message)) && message@
                            == "interface '"@ + name@ + "' not found"@
                    })
            }
        }),
{
    let bytes = name.spec_bytes();
    if exists|i: int| 0 <= i < bytes.len() && #[trigger] bytes[i] == 0 {
        let i = choose|i: int| 0 <= i < bytes.len() && #[trigger] bytes[i] == 0;
        assert(bytes.contains(bytes[i]));
    } else {
        assert(!bytes.contains(0u8));
    }
}

/// A classic CAN socket is created and then bound to the interface whose index was found. A failed
/// system call ends the opening at once, with the error of that call, and the descriptor of a socket
/// that was created is given up to be closed.
pub proof fn classic_socket_is_created_and_bound(
    stage: ClassicStage,
    reply: ClassicReply,
    res: ClassicNext,
)
    requires
        call_ensures(classic_next, (stage, reply), res),
    ensures
        res is Failed <==> reply.ret < 0,
        res matches ClassicNext::Failed { error, .. } ==> error == ClassicError::Os(reply.error),
        stage matches ClassicStage::CreateSocket { ifindex } ==> {
            &&& reply.ret >= 0 ==> res == ClassicNext::Proceed(
                ClassicStage::Bind { fd: reply.ret, ifindex },
            )
            &&& res matches ClassicNext::Failed { close, .. } ==> close is None
        },
        stage matches ClassicStage::Bind { fd, .. } ==> {
            &&& reply.ret >= 0 ==> res == (ClassicNext::Opened { fd })
            &&& res matches ClassicNext::Failed { close, .. } ==> close == Some(fd)
        },
{
}

} // verus!

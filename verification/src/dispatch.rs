//! The two loops of a session with a plugin: what is done with each frame that was read, and with
//! each frame that is to be written.

use vstd::prelude::*;

use crate::fault::{ErrorCode, PluginFault, RpcError};
use crate::manifest::{has_permission, Permission, Stage};
use crate::text::same;

verus! {

/// The names of the methods by which a middleware hands a request on and reads its body.
pub struct MiddlewareMethods {
    pub next: String,
    pub body_read: String,
    pub body_close: String,
}

/// A method that reads or changes the plugin's own state.
pub open spec fn is_state_method(method: Seq<char>) -> bool {
    method == "host.state.get"@ || method == "host.state.put"@ || method == "host.state.delete"@
}

/// A method of a middleware.
pub open spec fn is_middleware_method(method: Seq<char>, middleware: MiddlewareMethods) -> bool {
    method == middleware.next@ || method == middleware.body_read@ || method
        == middleware.body_close@
}

/// The permission that a method needs.
pub open spec fn needed_permission(method: Seq<char>) -> Option<Permission> {
    if method == "host.http.do"@ || method == "host.http.do_stream"@ || method
        == "host.http.stream_read"@ || method == "host.http.stream_close"@ {
        Some(Permission::Network)
    } else if method == "host.model.execute"@ || method == "host.model.execute_stream"@ || method
        == "host.model.stream_read"@ || method == "host.model.stream_close"@ || method
        == "host.models.list"@ || method == "host.keys.list"@ {
        Some(Permission::Models)
    } else if method == "host.auth.list"@ || method == "host.auth.get_runtime"@ || method
        == "host.auth.get"@ || method == "host.auth.save"@ {
        Some(Permission::Accounts)
    } else if method == "host.affinity.lookup"@ {
        Some(Permission::Requests)
    } else {
        None
    }
}

/// A plugin may call a method of the host from a stage, with the permissions that it was granted.
pub open spec fn is_callback_allowed(
    method: Seq<char>,
    stage: Stage,
    permissions: Seq<Permission>,
    middleware: MiddlewareMethods,
) -> bool {
    if stage == Stage::PublicManagement {
        false
    } else if method == "host.log"@ {
        true
    } else if stage == Stage::Registration || stage == Stage::Configuration {
        false
    } else if is_state_method(method) {
        true
    } else if is_middleware_method(method, middleware) {
        stage == Stage::Request || stage == Stage::Attempt
    } else {
        needed_permission(method) matches Some(permission) && permissions.contains(permission)
    }
}

fn permission_for(method: &str) -> (permission: Option<Permission>)
    ensures
        permission == needed_permission(method@),
{
    if same(method, "host.http.do") || same(method, "host.http.do_stream") || same(
        method,
        "host.http.stream_read",
    ) || same(method, "host.http.stream_close") {
        Some(Permission::Network)
    } else if same(method, "host.model.execute") || same(method, "host.model.execute_stream")
        || same(method, "host.model.stream_read") || same(method, "host.model.stream_close") || same(
        method,
        "host.models.list",
    ) || same(method, "host.keys.list") {
        Some(Permission::Models)
    } else if same(method, "host.auth.list") || same(method, "host.auth.get_runtime") || same(
        method,
        "host.auth.get",
    ) || same(method, "host.auth.save") {
        Some(Permission::Accounts)
    } else if same(method, "host.affinity.lookup") {
        Some(Permission::Requests)
    } else {
        None
    }
}

pub fn callback_allowed(
    method: &str,
    stage: Stage,
    permissions: &Vec<Permission>,
    middleware: &MiddlewareMethods,
) -> (r: bool)
    ensures
        r == is_callback_allowed(method@, stage, permissions@, *middleware),
{
    if stage == Stage::PublicManagement {
        return false;
    }
    if same(method, "host.log") {
        return true;
    }
    if matches!(stage, Stage::Registration | Stage::Configuration) {
        return false;
    }
    if same(method, "host.state.get") || same(method, "host.state.put") || same(
        method,
        "host.state.delete",
    ) {
        return true;
    }
    if same(method, middleware.next.as_str()) || same(method, middleware.body_read.as_str())
        || same(method, middleware.body_close.as_str()) {
        return matches!(stage, Stage::Request | Stage::Attempt);
    }
    match permission_for(method) {
        Some(permission) => has_permission(permissions, permission),
        None => false,
    }
}

/// From the public stage nothing of the host can be called, whatever was granted.
pub proof fn public_stage_has_no_callbacks(
    method: Seq<char>,
    permissions: Seq<Permission>,
    middleware: MiddlewareMethods,
)
    ensures
        !is_callback_allowed(method, Stage::PublicManagement, permissions, middleware),
{
}

/// A plugin without permissions can only write to the log, use its own state and take part in the
/// handling of a request.
pub proof fn nothing_granted_nothing_reached(
    method: Seq<char>,
    stage: Stage,
    middleware: MiddlewareMethods,
)
    requires
        is_callback_allowed(method, stage, Seq::empty(), middleware),
    ensures
        method == "host.log"@ || is_state_method(method) || is_middleware_method(
            method,
            middleware,
        ),
{
}

/// More permissions never take a callback away.
pub proof fn permissions_only_add(
    method: Seq<char>,
    stage: Stage,
    fewer: Seq<Permission>,
    more: Seq<Permission>,
    middleware: MiddlewareMethods,
)
    requires
        forall|permission: Permission| #[trigger]
            fewer.contains(permission) ==> more.contains(permission),
        is_callback_allowed(method, stage, fewer, middleware),
    ensures
        is_callback_allowed(method, stage, more, middleware),
{
}

/// What a frame says.
pub enum Message {
    Call { id: u64 },
    Credit { id: u64 },
    Cancelled { id: u64 },
    Stream { id: u64, sequence: u64 },
    End { id: u64, fault: Option<PluginFault> },
    Result { id: u64 },
    Error { id: u64, error: PluginFault },
    Callback { id: u64, parent_id: u64, method: String },
    /// Any other message.
    Other,
}

/// The call that a callback belongs to.
#[derive(Clone, Copy, Debug, PartialEq, Eq, Structural)]
pub enum Parent {
    /// The call is running, at a stage.
    Running(Stage),
    /// The call is being cancelled.
    Cancelling,
    /// There is no such call.
    Unknown,
}

/// Why a callback is not run.
#[derive(Clone, Copy, Debug, PartialEq, Eq, Structural)]
pub enum CallbackRefusal {
    NotAuthorized,
    CapacityExhausted,
    ParentCancelled,
}

impl CallbackRefusal {
    /// The code that the plugin is answered.
    pub open spec fn answered_code(self) -> ErrorCode {
        match self {
            CallbackRefusal::NotAuthorized => ErrorCode::PermissionDenied,
            CallbackRefusal::CapacityExhausted => ErrorCode::Capacity,
            CallbackRefusal::ParentCancelled => ErrorCode::Cancelled,
        }
    }

    /// The text that the plugin is answered.
    pub open spec fn answered_text(self) -> Seq<char> {
        match self {
            CallbackRefusal::NotAuthorized => "callback is not authorized in this stage"@,
            CallbackRefusal::CapacityExhausted => "callback capacity is exhausted"@,
            CallbackRefusal::ParentCancelled => "parent call was cancelled"@,
        }
    }

    pub fn code(self) -> (code: ErrorCode)
        ensures
            code == self.answered_code(),
    {
        match self {
            CallbackRefusal::NotAuthorized => ErrorCode::PermissionDenied,
            CallbackRefusal::CapacityExhausted => ErrorCode::Capacity,
            CallbackRefusal::ParentCancelled => ErrorCode::Cancelled,
        }
    }

    pub fn text(self) -> (text: &'static str)
        ensures
            text@ == self.answered_text(),
    {
        match self {
            CallbackRefusal::NotAuthorized => "callback is not authorized in this stage",
            CallbackRefusal::CapacityExhausted => "callback capacity is exhausted",
            CallbackRefusal::ParentCancelled => "parent call was cancelled",
        }
    }
}

/// What is done with a frame that was read.
#[derive(Clone, Copy, Debug, PartialEq, Eq, Structural)]
pub enum ReadAction {
    /// The session's end was asked for.
    Stop,
    /// The session is broken.
    Fail(RpcError),
    AcknowledgeCancellation { id: u64 },
    StreamChunk { id: u64, sequence: u64 },
    StreamEnd { id: u64, fault: Option<PluginFault> },
    FinishResult { id: u64 },
    FinishError { id: u64, error: PluginFault },
    /// The callback may run, if there is room for it.
    AcquireSlot { id: u64, parent_id: u64 },
    RefuseCallback { id: u64, refusal: CallbackRefusal },
    /// The callback runs.
    RunCallback { id: u64, parent_id: u64 },
}

/// A frame that was read.
pub struct ReadFrame {
    pub message: Message,
    pub payload_empty: bool,
    /// The call that a callback belongs to.
    pub parent: Parent,
}

/// A callback's number is even, follows those before it and is never zero.
pub open spec fn is_next_callback(id: u64, last: u64) -> bool {
    id != 0 && id % 2 == 0 && id > last
}

/// What is done with a callback.
pub open spec fn callback_action(
    id: u64,
    parent_id: u64,
    method: Seq<char>,
    parent: Parent,
    last: u64,
    permissions: Seq<Permission>,
    middleware: MiddlewareMethods,
) -> ReadAction {
    if !is_next_callback(id, last) {
        ReadAction::Fail(RpcError::Protocol)
    } else {
        match parent {
            Parent::Running(stage) => if is_callback_allowed(
                method,
                stage,
                permissions,
                middleware,
            ) {
                ReadAction::AcquireSlot { id, parent_id }
            } else {
                ReadAction::RefuseCallback { id, refusal: CallbackRefusal::NotAuthorized }
            },
            Parent::Cancelling => ReadAction::RefuseCallback {
                id,
                refusal: CallbackRefusal::ParentCancelled,
            },
            Parent::Unknown => ReadAction::Fail(RpcError::Protocol),
        }
    }
}

/// What is done with a frame. Frames that carry no payload of their own must come without one.
pub open spec fn read_action(
    frame: ReadFrame,
    last: u64,
    permissions: Seq<Permission>,
    middleware: MiddlewareMethods,
) -> ReadAction {
    match frame.message {
        Message::Cancelled { id } if frame.payload_empty => ReadAction::AcknowledgeCancellation {
            id,
        },
        Message::Stream { id, sequence } => ReadAction::StreamChunk { id, sequence },
        Message::End { id, fault } if frame.payload_empty => ReadAction::StreamEnd { id, fault },
        Message::Result { id } => ReadAction::FinishResult { id },
        Message::Error { id, error } if frame.payload_empty => ReadAction::FinishError {
            id,
            error,
        },
        Message::Callback { id, parent_id, method } => callback_action(
            id,
            parent_id,
            method@,
            frame.parent,
            last,
            permissions,
            middleware,
        ),
        _ => ReadAction::Fail(RpcError::Protocol),
    }
}

/// The number of the last callback that was taken, after a frame.
pub open spec fn last_after(frame: ReadFrame, last: u64) -> u64 {
    match frame.message {
        Message::Callback { id, .. } => if is_next_callback(id, last) && !(frame.parent
            is Unknown) {
            id
        } else {
            last
        },
        _ => last,
    }
}

/// The loop that reads.
pub struct ReadLoop {
    pub last_callback: u64,
    pub permissions: Vec<Permission>,
    pub middleware: MiddlewareMethods,
}

impl ReadLoop {
    pub fn new(permissions: Vec<Permission>, middleware: MiddlewareMethods) -> (reading: Self)
        ensures
            reading.last_callback == 0,
            reading.permissions == permissions,
            reading.middleware == middleware,
    {
        ReadLoop { last_callback: 0, permissions, middleware }
    }

    /// What is done after a read: `stopped` says that the session's end was asked for, and the frame
    /// is missing where nothing could be read.
    pub fn step(&mut self, stopped: bool, frame: Option<&ReadFrame>) -> (action: ReadAction)
        ensures
            final(self).reads(old(self), stopped, frame, action),
    {
        if stopped {
            return ReadAction::Stop;
        }
        let frame = match frame {
            Some(frame) => frame,
            None => return ReadAction::Fail(RpcError::Closed),
        };
        match &frame.message {
            Message::Cancelled { id } => if frame.payload_empty {
                ReadAction::AcknowledgeCancellation { id: *id }
            } else {
                ReadAction::Fail(RpcError::Protocol)
            },
            Message::Stream { id, sequence } => ReadAction::StreamChunk {
                id: *id,
                sequence: *sequence,
            },
            Message::End { id, fault } => if frame.payload_empty {
                ReadAction::StreamEnd { id: *id, fault: *fault }
            } else {
                ReadAction::Fail(RpcError::Protocol)
            },
            Message::Result { id } => ReadAction::FinishResult { id: *id },
            Message::Error { id, error } => if frame.payload_empty {
                ReadAction::FinishError { id: *id, error: *error }
            } else {
                ReadAction::Fail(RpcError::Protocol)
            },
            Message::Callback { id, parent_id, method } => {
                if *id == 0 || *id % 2 != 0 || *id <= self.last_callback {
                    return ReadAction::Fail(RpcError::Protocol);
                }
                match frame.parent {
                    Parent::Running(stage) => {
                        self.last_callback = *id;
                        if callback_allowed(
                            method.as_str(),
                            stage,
                            &self.permissions,
                            &self.middleware,
                        ) {
                            ReadAction::AcquireSlot { id: *id, parent_id: *parent_id }
                        } else {
                            ReadAction::RefuseCallback {
                                id: *id,
                                refusal: CallbackRefusal::NotAuthorized,
                            }
                        }
                    },
                    Parent::Cancelling => {
                        self.last_callback = *id;
                        ReadAction::RefuseCallback {
                            id: *id,
                            refusal: CallbackRefusal::ParentCancelled,
                        }
                    },
                    Parent::Unknown => ReadAction::Fail(RpcError::Protocol),
                }
            },
            _ => ReadAction::Fail(RpcError::Protocol),
        }
    }

    /// What is done with a callback once it is known whether there is room for it.
    pub fn slot(&self, id: u64, parent_id: u64, acquired: bool) -> (action: ReadAction)
        ensures
            action == slot_action(id, parent_id, acquired),
    {
        if acquired {
            ReadAction::RunCallback { id, parent_id }
        } else {
            ReadAction::RefuseCallback { id, refusal: CallbackRefusal::CapacityExhausted }
        }
    }

    /// What is done after an action was carried out: a failure of it breaks the session.
    pub fn settled(&self, outcome: Result<(), RpcError>) -> (action: Option<ReadAction>)
        ensures
            action == match outcome {
                Ok(()) => None,
                Err(error) => Some(ReadAction::Fail(error)),
            },
    {
        match outcome {
            Ok(()) => None,
            Err(error) => Some(ReadAction::Fail(error)),
        }
    }
}

/// Callbacks are taken in the order of their numbers, and none is taken twice: the number of the
/// last one never falls, and a callback that is answered or run has a higher one than all before.
pub proof fn callbacks_are_taken_once(
    frame: ReadFrame,
    last: u64,
    permissions: Seq<Permission>,
    middleware: MiddlewareMethods,
)
    ensures
        last_after(frame, last) >= last,
        read_action(frame, last, permissions, middleware) matches ReadAction::AcquireSlot { id, .. }
            ==> id > last && id % 2 == 0 && last_after(frame, last) == id,
        read_action(frame, last, permissions, middleware) matches ReadAction::RefuseCallback {
            id,
            ..
        } ==> id > last && id % 2 == 0 && last_after(frame, last) == id,
{
}

/// A callback runs only where its call is running and the plugin may make it.
pub proof fn only_allowed_callbacks_run(
    frame: ReadFrame,
    last: u64,
    permissions: Seq<Permission>,
    middleware: MiddlewareMethods,
)
    requires
        read_action(frame, last, permissions, middleware) is AcquireSlot,
    ensures
        frame.message matches Message::Callback { method, .. } && (frame.parent
            matches Parent::Running(stage) && is_callback_allowed(
            method@,
            stage,
            permissions,
            middleware,
        )),
{
}

/// What has to be known before a frame is written.
#[derive(Clone, Copy, Debug, PartialEq, Eq, Structural)]
pub enum WriteGate {
    /// The session's end was asked for.
    Stop,
    /// The session is broken.
    Fail(RpcError),
    /// Whether the call was withdrawn before it was sent.
    MarkTransmitted { id: u64 },
    /// Whether the call that is given credit is still there.
    FindCall { id: u64 },
    Write,
}

/// What is done before a frame is written: a call must not have been withdrawn, and credit is only
/// given to calls that are still there.
pub fn write_gate(stopped: bool, message: Option<&Message>) -> (gate: WriteGate)
    ensures
        gate == gate_of(stopped, message),
{
    if stopped {
        return WriteGate::Stop;
    }
    match message {
        None => WriteGate::Fail(RpcError::Closed),
        Some(Message::Call { id }) => WriteGate::MarkTransmitted { id: *id },
        Some(Message::Credit { id }) => WriteGate::FindCall { id: *id },
        Some(_) => WriteGate::Write,
    }
}

/// What is done with a frame that is to be written.
#[derive(Clone, Copy, Debug, PartialEq, Eq, Structural)]
pub enum WriteAction {
    Stop,
    Fail(RpcError),
    Skip,
    Write,
}

/// What is done with a frame once it is known whether its call is there.
pub fn write_action(gate: WriteGate, call_present: bool) -> (action: WriteAction)
    ensures
        action == gated(gate, call_present),
{
    match gate {
        WriteGate::Stop => WriteAction::Stop,
        WriteGate::Fail(error) => WriteAction::Fail(error),
        WriteGate::Write => WriteAction::Write,
        WriteGate::MarkTransmitted { .. } | WriteGate::FindCall { .. } => if call_present {
            WriteAction::Write
        } else {
            WriteAction::Skip
        },
    }
}

/// What is done after a frame was written.
pub fn written(stopped: bool, success: bool) -> (action: Option<WriteAction>)
    ensures
        action == after_writing(stopped, success),
{
    if stopped {
        Some(WriteAction::Stop)
    } else if success {
        None
    } else {
        Some(WriteAction::Fail(RpcError::Closed))
    }
}

/// Each method of the host needs the permission for what it reaches: the network, models and keys,
/// accounts, or requests; no other method can be granted.
pub proof fn permissions_by_method(method: Seq<char>)
    ensures
        needed_permission(method) == Some(Permission::Network) <==> method == "host.http.do"@ || method == "host.http.do_stream"@ || method == "host.http.stream_read"@ || method == "host.http.stream_close"@,
        needed_permission(method) == Some(Permission::Models) <==> method == "host.model.execute"@ || method == "host.model.execute_stream"@ || method == "host.model.stream_read"@ || method == "host.model.stream_close"@ || method == "host.models.list"@ || method == "host.keys.list"@,
        needed_permission(method) == Some(Permission::Accounts) <==> method == "host.auth.list"@ || method == "host.auth.get_runtime"@ || method == "host.auth.get"@ || method == "host.auth.save"@,
        needed_permission(method) == Some(Permission::Requests) <==> method == "host.affinity.lookup"@,
        needed_permission(method) != Some(Permission::Other),
{
    reveal_strlit("host.http.do");
    reveal_strlit("host.http.do_stream");
    reveal_strlit("host.http.stream_read");
    reveal_strlit("host.http.stream_close");
    reveal_strlit("host.model.execute");
    reveal_strlit("host.model.execute_stream");
    reveal_strlit("host.model.stream_read");
    reveal_strlit("host.model.stream_close");
    reveal_strlit("host.models.list");
    reveal_strlit("host.keys.list");
    reveal_strlit("host.auth.list");
    reveal_strlit("host.auth.get_runtime");
    reveal_strlit("host.auth.get");
    reveal_strlit("host.auth.save");
    reveal_strlit("host.affinity.lookup");
    assert("host.http.do"@.len() == 12);
    assert("host.http.do_stream"@.len() == 19);
    assert("host.http.stream_read"@.len() == 21);
    assert("host.http.stream_close"@.len() == 22);
    assert("host.model.execute"@.len() == 18);
    assert("host.model.execute_stream"@.len() == 25);
    assert("host.model.stream_read"@.len() == 22);
    assert("host.model.stream_close"@.len() == 23);
    assert("host.models.list"@.len() == 16);
    assert("host.keys.list"@.len() == 14);
    assert("host.auth.list"@.len() == 14);
    assert("host.auth.get_runtime"@.len() == 21);
    assert("host.auth.get"@.len() == 13);
    assert("host.auth.save"@.len() == 14);
    assert("host.affinity.lookup"@.len() == 20);
    assert("host.http.stream_read"@[5] != "host.auth.get_runtime"@[5]);
    assert("host.http.stream_close"@[5] != "host.model.stream_read"@[5]);
    assert("host.keys.list"@[5] != "host.auth.list"@[5]);
    assert("host.keys.list"@[5] != "host.auth.save"@[5]);
    assert("host.auth.list"@[10] != "host.auth.save"@[10]);
}

/// A plugin may always write to the log, except from the public stage. While it is registered and set
/// up it may do nothing else; later it may use its own state, hand a request on while it handles one,
/// and call whatever it has the permission for.
pub proof fn callbacks_in_order(
    method: Seq<char>,
    stage: Stage,
    permissions: Seq<Permission>,
    middleware: MiddlewareMethods,
)
    ensures
        stage is PublicManagement ==> !is_callback_allowed(method, stage, permissions, middleware),
        !(stage is PublicManagement) && method == "host.log"@ ==> is_callback_allowed(
            method,
            stage,
            permissions,
            middleware,
        ),
        (stage is Registration || stage is Configuration) && method != "host.log"@
            ==> !is_callback_allowed(method, stage, permissions, middleware),
        !(stage is PublicManagement || stage is Registration || stage is Configuration) && (method
            == "host.state.get"@ || method == "host.state.put"@ || method == "host.state.delete"@)
            ==> is_callback_allowed(method, stage, permissions, middleware),
        !(stage is PublicManagement || stage is Registration || stage is Configuration) && method
            != "host.log"@ && !is_state_method(method) && (method == middleware.next@ || method
            == middleware.body_read@ || method == middleware.body_close@) ==> (is_callback_allowed(
            method,
            stage,
            permissions,
            middleware,
        ) <==> stage is Request || stage is Attempt),
        !(stage is PublicManagement || stage is Registration || stage is Configuration) && method
            != "host.log"@ && !is_state_method(method) && !is_middleware_method(method, middleware)
            ==> (is_callback_allowed(method, stage, permissions, middleware)
            <==> needed_permission(method) is Some && permissions.contains(
            needed_permission(method)->0,
        )),
{
}

/// Each frame is taken for what it is: an answer, a part or the end of a stream, a fault or a
/// cancellation goes to its call, and what must come without bytes breaks the protocol with them, as
/// does any frame that a plugin may not send.
pub proof fn frames_by_kind(
    frame: ReadFrame,
    last: u64,
    permissions: Seq<Permission>,
    middleware: MiddlewareMethods,
)
    ensures
        ({
            let action = read_action(frame, last, permissions, middleware);
            let broken = ReadAction::Fail(RpcError::Protocol);
            &&& frame.message matches Message::Result { id } ==> action == (
            ReadAction::FinishResult { id })
            &&& frame.message matches Message::Stream { id, sequence } ==> action == (
            ReadAction::StreamChunk { id, sequence })
            &&& frame.message matches Message::Cancelled { id } ==> action == (
            if frame.payload_empty {
                ReadAction::AcknowledgeCancellation { id }
            } else {
                broken
            })
            &&& frame.message matches Message::End { id, fault } ==> action == (
            if frame.payload_empty {
                ReadAction::StreamEnd { id, fault }
            } else {
                broken
            })
            &&& frame.message matches Message::Error { id, error } ==> action == (
            if frame.payload_empty {
                ReadAction::FinishError { id, error }
            } else {
                broken
            })
            &&& frame.message is Call || frame.message is Credit || frame.message is Other ==> action
                == broken
        }),
{
}

/// A callback is taken only with an even number that is higher than all before, while its call is
/// known; it may run if the plugin may make it where its call is, and is refused while its call is
/// being cancelled.
pub proof fn callbacks_by_parent(
    id: u64,
    parent_id: u64,
    method: Seq<char>,
    parent: Parent,
    last: u64,
    permissions: Seq<Permission>,
    middleware: MiddlewareMethods,
)
    ensures
        ({
            let action = callback_action(
                id,
                parent_id,
                method,
                parent,
                last,
                permissions,
                middleware,
            );
            let next = id > last && id % 2 == 0;
            &&& !next || parent is Unknown <==> action == ReadAction::Fail(RpcError::Protocol)
            &&& next && parent is Cancelling ==> action == (ReadAction::RefuseCallback {
                id,
                refusal: CallbackRefusal::ParentCancelled,
            })
            &&& next ==> (parent matches Parent::Running(stage) ==> action == (
            if is_callback_allowed(method, stage, permissions, middleware) {
                ReadAction::AcquireSlot { id, parent_id }
            } else {
                ReadAction::RefuseCallback { id, refusal: CallbackRefusal::NotAuthorized }
            }))
        }),
{
}

/// A callback that is refused is answered with the reason: it has no right, there is no room, or its
/// call was cancelled.
pub proof fn refusals_by_reason()
    ensures
        CallbackRefusal::NotAuthorized.answered_code() is PermissionDenied,
        CallbackRefusal::CapacityExhausted.answered_code() is Capacity,
        CallbackRefusal::ParentCancelled.answered_code() is Cancelled,
        CallbackRefusal::NotAuthorized.answered_text()
            == "callback is not authorized in this stage"@,
        CallbackRefusal::CapacityExhausted.answered_text() == "callback capacity is exhausted"@,
        CallbackRefusal::ParentCancelled.answered_text() == "parent call was cancelled"@,
{
}

impl ReadLoop {
    /// What taking the next frame does: once the end was asked for none is taken, and without one the
    /// session is over.
    pub open spec fn reads(
        &self,
        before: &Self,
        stopped: bool,
        frame: Option<&ReadFrame>,
        action: ReadAction,
    ) -> bool {
        &&& self.permissions == before.permissions
        &&& self.middleware == before.middleware
        &&& match frame {
            _ if stopped => action == ReadAction::Stop && self.last_callback == before.last_callback,
            None => action == ReadAction::Fail(RpcError::Closed) && self.last_callback
                == before.last_callback,
            Some(frame) => action == read_action(
                *frame,
                before.last_callback,
                before.permissions@,
                before.middleware,
            ) && self.last_callback == last_after(*frame, before.last_callback),
        }
    }
}

/// What is done with a callback once it is known whether there is a place for it.
pub open spec fn slot_action(id: u64, parent_id: u64, acquired: bool) -> ReadAction {
    if acquired {
        ReadAction::RunCallback { id, parent_id }
    } else {
        ReadAction::RefuseCallback { id, refusal: CallbackRefusal::CapacityExhausted }
    }
}

/// What has to be known before a frame is written.
pub open spec fn gate_of(stopped: bool, message: Option<&Message>) -> WriteGate {
    if stopped {
        WriteGate::Stop
    } else {
        match message {
            None => WriteGate::Fail(RpcError::Closed),
            Some(Message::Call { id }) => WriteGate::MarkTransmitted { id: *id },
            Some(Message::Credit { id }) => WriteGate::FindCall { id: *id },
            Some(_) => WriteGate::Write,
        }
    }
}

/// What is done with a frame once that is known.
pub open spec fn gated(gate: WriteGate, call_present: bool) -> WriteAction {
    match gate {
        WriteGate::Stop => WriteAction::Stop,
        WriteGate::Fail(error) => WriteAction::Fail(error),
        WriteGate::Write => WriteAction::Write,
        _ => if call_present {
            WriteAction::Write
        } else {
            WriteAction::Skip
        },
    }
}

/// What is done once a frame is written, or could not be.
pub open spec fn after_writing(stopped: bool, success: bool) -> Option<WriteAction> {
    if stopped {
        Some(WriteAction::Stop)
    } else if success {
        None::<WriteAction>
    } else {
        Some(WriteAction::Fail(RpcError::Closed))
    }
}

/// Once the end was asked for, nothing is read or written any more.
pub proof fn stopped_is_stopped(
    before: ReadLoop,
    after: ReadLoop,
    frame: Option<&ReadFrame>,
    read: ReadAction,
    message: Option<&Message>,
    present: bool,
    success: bool,
)
    requires
        after.reads(&before, true, frame, read),
    ensures
        read is Stop,
        after.last_callback == before.last_callback,
        gated(gate_of(true, message), present) is Stop,
        after_writing(true, success) == Some(WriteAction::Stop),
{
}

/// A call that was withdrawn is not sent, and credit is not given to a call that is gone; everything
/// else is written. Where nothing is left to write, or a frame cannot be written, the session is over.
pub proof fn written_unless_gone(message: &Message, present: bool, success: bool)
    ensures
        gated(gate_of(false, Some(message)), present) is Skip <==> (message is Call || message
            is Credit) && !present,
        gated(gate_of(false, Some(message)), present) is Write <==> !((message is Call || message
            is Credit) && !present),
        message matches Message::Call { id } ==> (gate_of(false, Some(message))
            matches WriteGate::MarkTransmitted { id: marked } && marked == id),
        message matches Message::Credit { id } ==> (gate_of(false, Some(message))
            matches WriteGate::FindCall { id: found } && found == id),
        gated(gate_of(false, None), present) == WriteAction::Fail(RpcError::Closed),
        after_writing(false, success) is None <==> success,
        !success ==> after_writing(false, success) == Some(WriteAction::Fail(RpcError::Closed)),
{
}

/// Of two callbacks that are taken one after the other, the later one has the higher number, however
/// many frames lie between them; none is run without a place.
pub proof fn callbacks_rise(
    first: ReadLoop,
    second: ReadLoop,
    third: ReadLoop,
    stopped: bool,
    frame: Option<&ReadFrame>,
    next: Option<&ReadFrame>,
    one: ReadAction,
    other: ReadAction,
    id: u64,
    parent_id: u64,
    acquired: bool,
)
    requires
        second.reads(&first, stopped, frame, one),
        third.reads(&second, stopped, next, other),
    ensures
        first.last_callback <= second.last_callback <= third.last_callback,
        one matches ReadAction::AcquireSlot { id: a, .. } ==> (other matches ReadAction::AcquireSlot {
            id: b,
            ..
        } ==> a < b),
        frame is None && !stopped ==> one == ReadAction::Fail(RpcError::Closed),
        third.permissions == first.permissions,
        slot_action(id, parent_id, acquired) is RunCallback <==> acquired,
        acquired ==> slot_action(id, parent_id, acquired) == (ReadAction::RunCallback { id, parent_id }),
        !acquired ==> (slot_action(id, parent_id, acquired) matches ReadAction::RefuseCallback {
            id: refused,
            refusal,
        } && refused == id && refusal is CapacityExhausted),
{
    if let Some(f) = frame {
        callbacks_are_taken_once(*f, first.last_callback, first.permissions@, first.middleware);
    }
    if let Some(f) = next {
        callbacks_are_taken_once(*f, second.last_callback, second.permissions@, second.middleware);
    }
}

} // verus!

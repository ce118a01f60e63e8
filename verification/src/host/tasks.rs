//! The tasks that perform the transfers of a connection.
//!
//! One task receives, one sends and one polls the status of the device. They share the
//! error that made the connection fail, if any.

use vstd::prelude::*;

use crate::ctrl;
use crate::ctrl::ControlIn;
use crate::error::{TaskError, TransferError, WebError};
use crate::framing::{
    law_terminator_ends_packet, law_terminator_multiples, needs_terminator, terminator_needed,
    transfer_packets, wire_packets, wire_stream,
};

verus! {

/// Number of transfers that are submitted at the same time.
pub const DMA_BUFFERS: usize = 8;

/// Whether a failure says that the device has halted the endpoint.
pub open spec fn halted(err: TaskError) -> bool {
    err == TaskError::Transfer(TransferError::Stall) || err == TaskError::WebUsb(WebError::Stall)
}

/// Whether a failure says that the device has halted the endpoint.
pub fn is_halted(err: &TaskError) -> (result: bool)
    ensures
        result == halted(*err),
{
    match err {
        TaskError::Transfer(TransferError::Stall) => true,
        TaskError::WebUsb(WebError::Stall) => true,
        _ => false,
    }
}

/// The shared error after a failure: the first one is kept.
pub open spec fn first_error(error: Option<TaskError>, err: TaskError) -> Option<TaskError> {
    match error {
        Some(first) => Some(first),
        None => Some(err),
    }
}

/// The shared error after the failure of a transfer: a halted endpoint is no failure.
pub open spec fn transfer_error(error: Option<TaskError>, err: TaskError) -> Option<TaskError> {
    if halted(err) {
        error
    } else {
        first_error(error, err)
    }
}

/// Records the failure of a task.
pub fn record_error(error: &mut Option<TaskError>, err: TaskError)
    ensures
        *final(error) == first_error(*old(error), err),
{
    if error.is_none() {
        *error = Some(err);
    }
}

/// Records the failure of a transfer.
pub fn record_transfer_error(error: &mut Option<TaskError>, err: TaskError)
    ensures
        *final(error) == transfer_error(*old(error), err),
{
    if !is_halted(&err) {
        record_error(error, err);
    }
}

/// Something that happened to the receiving task.
#[derive(Debug, Clone, Copy)]
pub enum InEvent {
    /// A transfer has completed with this number of bytes or has failed.
    Completed(Result<usize, TaskError>),
    /// The receive queue was closed because the receiver was dropped.
    QueueClosed,
    /// The device is unreachable.
    DeviceDead,
}

/// What the receiving task has to do.
#[derive(Debug, Clone, Copy, PartialEq, Eq, Structural)]
pub enum InAction {
    /// Put the transfer into the receive queue.
    Deliver,
    /// Close the receive direction.
    Stop {
        /// The host has closed the direction.
        host_initiated: bool,
    },
}

/// What the receiving task does after an event.
pub open spec fn in_action(event: InEvent) -> InAction {
    match event {
        InEvent::Completed(Ok(_)) => InAction::Deliver,
        InEvent::Completed(Err(_)) => InAction::Stop { host_initiated: false },
        InEvent::QueueClosed => InAction::Stop { host_initiated: true },
        InEvent::DeviceDead => InAction::Stop { host_initiated: false },
    }
}

/// Decides what the receiving task does after an event.
pub fn in_task(event: InEvent, error: &mut Option<TaskError>) -> (action: InAction)
    ensures
        action == in_action(event),
        *final(error) == (match event {
            InEvent::Completed(Err(err)) => transfer_error(*old(error), err),
            _ => *old(error),
        }),
{
    match event {
        InEvent::Completed(Ok(_)) => InAction::Deliver,
        InEvent::Completed(Err(err)) => {
            record_transfer_error(error, err);
            InAction::Stop { host_initiated: false }
        },
        InEvent::QueueClosed => InAction::Stop { host_initiated: true },
        InEvent::DeviceDead => InAction::Stop { host_initiated: false },
    }
}

/// Something that happened to the sending task while it waits for data.
#[derive(Debug, Clone, Copy, PartialEq, Eq, Structural)]
pub enum OutEvent {
    /// A packet of this length was taken from the send queue.
    Data(usize),
    /// The send queue was closed because the sender was dropped.
    QueueClosed,
    /// The device is done receiving or unreachable.
    DeviceClosed,
}

/// What the sending task has to do.
#[derive(Debug, Clone, Copy, PartialEq, Eq, Structural)]
pub enum OutAction {
    /// Send the packet as one transfer.
    Send {
        /// Send a zero-length packet afterwards.
        terminator: bool,
    },
    /// Wait for the submitted transfers and close the send direction.
    Stop,
}

/// State of the sending task.
pub struct OutTaskView {
    /// Maximum packet size of the endpoint.
    pub max_packet_size: usize,
    /// Whether the task stops when a transfer sends less than requested.
    pub stop_on_partial: bool,
    /// Number of bytes taken from the send queue, modulo 2^64.
    pub total: u64,
    /// Once the task is stopping: whether the host has closed the direction.
    pub stopping: Option<bool>,
}

impl OutTaskView {
    /// The state after an event.
    pub open spec fn after(self, event: OutEvent) -> Self {
        match event {
            OutEvent::Data(len) => OutTaskView {
                total: ((self.total + len) % 0x1_0000_0000_0000_0000) as u64,
                ..self
            },
            OutEvent::QueueClosed => OutTaskView { stopping: Some(true), ..self },
            OutEvent::DeviceClosed => OutTaskView { stopping: Some(false), ..self },
        }
    }

    /// What the task does after an event.
    pub open spec fn action(self, event: OutEvent) -> OutAction {
        match event {
            OutEvent::Data(len) => OutAction::Send {
                terminator: terminator_needed(len as nat, self.max_packet_size as nat),
            },
            _ => OutAction::Stop,
        }
    }

    /// The state after a transfer of `size` bytes has completed.
    pub open spec fn completed(self, size: usize, result: Result<usize, TaskError>) -> Self {
        match result {
            Err(_) => OutTaskView { stopping: Some(false), ..self },
            Ok(sent) => if sent != size && self.stop_on_partial && self.stopping is None {
                OutTaskView { stopping: Some(false), ..self }
            } else {
                self
            },
        }
    }

    /// The shared error after a transfer of `size` bytes has completed.
    pub open spec fn error_after(
        self,
        error: Option<TaskError>,
        size: usize,
        result: Result<usize, TaskError>,
    ) -> Option<TaskError> {
        match result {
            Err(err) => transfer_error(error, err),
            Ok(sent) => if sent != size && self.stopping is None {
                Some(TaskError::PartialSend { size, sent })
            } else {
                error
            },
        }
    }
}

/// The sending task.
#[derive(Debug)]
pub struct OutTask {
    max_packet_size: usize,
    stop_on_partial: bool,
    total: u64,
    stopping: Option<bool>,
}

impl View for OutTask {
    type V = OutTaskView;

    closed spec fn view(&self) -> OutTaskView {
        OutTaskView {
            max_packet_size: self.max_packet_size,
            stop_on_partial: self.stop_on_partial,
            total: self.total,
            stopping: self.stopping,
        }
    }
}

impl OutTask {
    /// Creates a sending task for an endpoint.
    ///
    /// A native host goes on after a transfer that sent less than requested, a web host
    /// stops.
    pub fn new(max_packet_size: usize, stop_on_partial: bool) -> (task: Self)
        ensures
            task@ == (OutTaskView { max_packet_size, stop_on_partial, total: 0, stopping: None }),
    {
        OutTask { max_packet_size, stop_on_partial, total: 0, stopping: None }
    }

    /// Decides what the task does after an event.
    pub fn next(&mut self, event: OutEvent) -> (action: OutAction)
        requires
            old(self)@.max_packet_size > 0,
        ensures
            final(self)@ == old(self)@.after(event),
            action == old(self)@.action(event),
    {
        match event {
            OutEvent::Data(len) => {
                self.total = self.total.wrapping_add(len as u64);
                OutAction::Send { terminator: needs_terminator(len, self.max_packet_size) }
            },
            OutEvent::QueueClosed => {
                self.stopping = Some(true);
                OutAction::Stop
            },
            OutEvent::DeviceClosed => {
                self.stopping = Some(false);
                OutAction::Stop
            },
        }
    }

    /// Takes notice of the result of a submitted transfer of `size` bytes: the number of
    /// bytes sent, or the failure.
    pub fn completed(
        &mut self,
        error: &mut Option<TaskError>,
        size: usize,
        result: Result<usize, TaskError>,
    )
        ensures
            final(self)@ == old(self)@.completed(size, result),
            *final(error) == old(self)@.error_after(*old(error), size, result),
    {
        match result {
            Err(err) => {
                record_transfer_error(error, err);
                self.stopping = Some(false);
            },
            Ok(sent) => {
                if sent != size && self.stopping.is_none() {
                    *error = Some(TaskError::PartialSend { size, sent });
                    if self.stop_on_partial {
                        self.stopping = Some(false);
                    }
                }
            },
        }
    }

    /// Once the task is stopping: whether the device has to be told that the direction is
    /// closed.
    pub fn stopping(&self) -> (stopping: Option<bool>)
        ensures
            stopping == self@.stopping,
    {
        self.stopping
    }

    /// The number of bytes taken from the send queue.
    pub fn total_bytes_sent(&self) -> (total: u64)
        ensures
            total == self@.total,
    {
        self.total
    }
}

/// How to look for a completed transfer.
#[derive(Debug, Clone, Copy, PartialEq, Eq, Structural)]
pub enum Completion {
    /// No transfer is pending.
    Nothing,
    /// Too many transfers are pending: wait for one to complete.
    Wait,
    /// Take a transfer that has already completed, if there is one.
    Poll,
}

/// Decides how to look for a completed transfer.
pub fn completion(pending: usize) -> (completion: Completion)
    ensures
        completion == (if pending == 0 {
            Completion::Nothing
        } else if pending >= DMA_BUFFERS {
            Completion::Wait
        } else {
            Completion::Poll
        }),
{
    if pending == 0 {
        Completion::Nothing
    } else if pending >= DMA_BUFFERS {
        Completion::Wait
    } else {
        Completion::Poll
    }
}

/// Device status reported by the periodic STATUS control request.
#[derive(Debug, Clone, Copy, PartialEq, Eq, Structural)]
pub struct DeviceStatus {
    /// Device receiver has been dropped (device done receiving).
    pub recv_closed: bool,
    /// Device is unreachable (ping timed out).
    pub dead: bool,
}

impl Default for DeviceStatus {
    fn default() -> (status: Self)
        ensures
            status == (DeviceStatus { recv_closed: false, dead: false }),
    {
        DeviceStatus { recv_closed: false, dead: false }
    }
}

impl DeviceStatus {
    /// The request for the status of the device.
    pub fn request() -> (request: ControlIn)
        ensures
            request == (ControlIn { request: ctrl::STATUS, length: ctrl::STATUS_SIZE as u16 }),
    {
        ControlIn { request: ctrl::STATUS, length: ctrl::STATUS_SIZE as u16 }
    }

    /// Takes notice of the response to a status request. Unknown status bytes are ignored.
    pub fn update(&mut self, data: &[u8])
        ensures
            *final(self) == old(self).updated(data@),
    {
        let mut i: usize = 0;
        while i < data.len()
            invariant
                i <= data@.len(),
                self.dead == old(self).dead,
                self.recv_closed == (old(self).recv_closed || exists|j: int|
                    0 <= j < i && data@[j] == ctrl::RECV_CLOSED),
            decreases data@.len() - i,
        {
            if data[i] == ctrl::RECV_CLOSED {
                self.recv_closed = true;
            }
            i = i + 1;
        }
    }

    /// Takes notice of the failure of a status request.
    pub fn fail(&mut self, error: &mut Option<TaskError>, err: TaskError)
        ensures
            *final(self) == old(self).failed(),
            *final(error) == first_error(*old(error), err),
    {
        record_error(error, err);
        self.dead = true;
    }

    /// Whether the host has to stop sending.
    pub open spec fn ends_sending(self) -> bool {
        self.recv_closed || self.dead
    }

    /// Whether the host has to stop receiving.
    pub open spec fn ends_receiving(self) -> bool {
        self.dead
    }

    /// The status after the response to a status request.
    pub open spec fn updated(self, data: Seq<u8>) -> Self {
        DeviceStatus {
            recv_closed: self.recv_closed || data.contains(ctrl::RECV_CLOSED),
            dead: self.dead,
        }
    }

    /// The status after the failure of a status request.
    pub open spec fn failed(self) -> Self {
        DeviceStatus { recv_closed: self.recv_closed, dead: true }
    }

    /// Whether the host has to stop sending.
    pub fn stops_sending(&self) -> (stop: bool)
        ensures
            stop == self.ends_sending(),
    {
        self.recv_closed || self.dead
    }

    /// Whether the host has to stop receiving.
    pub fn stops_receiving(&self) -> (stop: bool)
        ensures
            stop == self.ends_receiving(),
    {
        self.dead
    }
}

/// A device that does not answer a status request ends both directions, and one that
/// reports that it is done receiving ends sending only. Neither is taken back, and unknown
/// status bytes have no effect.
pub proof fn law_status_ends_directions(status: DeviceStatus, data: Seq<u8>)
    ensures
        status.failed().ends_sending() && status.failed().ends_receiving(),
        data.contains(ctrl::RECV_CLOSED) ==> status.updated(data).ends_sending(),
        status.updated(data).ends_receiving() == status.ends_receiving(),
        status.ends_sending() ==> status.updated(data).ends_sending(),
        !data.contains(ctrl::RECV_CLOSED) ==> status.updated(data) == status,
{
}

/// The state of the sending task after packets of these lengths were sent.
pub open spec fn send_all(task: OutTaskView, lens: Seq<usize>) -> OutTaskView
    decreases lens.len(),
{
    if lens.len() == 0 {
        task
    } else {
        send_all(task.after(OutEvent::Data(lens[0])), lens.drop_first())
    }
}

/// The sum of the lengths.
pub open spec fn sum(lens: Seq<usize>) -> nat
    decreases lens.len(),
{
    if lens.len() == 0 {
        0
    } else {
        lens[0] as nat + sum(lens.drop_first())
    }
}

/// The count that the host announces at the end is the number of bytes of all packets.
pub proof fn law_announced_count(task: OutTaskView, lens: Seq<usize>)
    requires
        task.total + sum(lens) <= u64::MAX,
    ensures
        send_all(task, lens) == (OutTaskView { total: (task.total + sum(lens)) as u64, ..task }),
    decreases lens.len(),
{
    if lens.len() > 0 {
        law_announced_count(task.after(OutEvent::Data(lens[0])), lens.drop_first());
    }
}

/// Once an error is recorded, no failed or successful transfer removes it.
pub proof fn law_error_stays(
    task: OutTaskView,
    error: Option<TaskError>,
    size: usize,
    result: Result<usize, TaskError>,
    err: TaskError,
)
    requires
        error is Some,
    ensures
        first_error(error, err) == error,
        transfer_error(error, err) == error,
        task.error_after(error, size, result) is Some,
{
}

/// The end of a direction that the device has closed by halting its endpoint is no error.
pub proof fn law_halt_is_clean(
    task: OutTaskView,
    error: Option<TaskError>,
    size: usize,
    err: TaskError,
)
    requires
        halted(err),
    ensures
        transfer_error(error, err) == error,
        in_action(InEvent::Completed(Err(err))) == (InAction::Stop { host_initiated: false }),
        task.completed(size, Err(err)).stopping == Some(false),
        task.error_after(error, size, Err(err)) == error,
{
}

/// What a sending task puts on the wire for a packet: one transfer, followed by a
/// zero-length transfer if the task decides so.
pub open spec fn put_on_wire(task: OutTaskView, data: Seq<u8>) -> Seq<Seq<u8>> {
    let mps = task.max_packet_size as nat;
    match task.action(OutEvent::Data(data.len() as usize)) {
        OutAction::Send { terminator: true } => transfer_packets(data, mps) + transfer_packets(
            Seq::empty(),
            mps,
        ),
        OutAction::Send { terminator: false } => transfer_packets(data, mps),
        OutAction::Stop => Seq::empty(),
    }
}

/// What a sending task puts on the wire for several packets.
pub open spec fn put_all_on_wire(task: OutTaskView, messages: Seq<Seq<u8>>) -> Seq<Seq<u8>>
    decreases messages.len(),
{
    if messages.len() == 0 {
        Seq::empty()
    } else {
        put_on_wire(task, messages[0]) + put_all_on_wire(
            task.after(OutEvent::Data(messages[0].len() as usize)),
            messages.drop_first(),
        )
    }
}

/// A packet is followed by a zero-length packet exactly if it fills at least one USB packet
/// of the endpoint of the task and leaves none partly filled. Every packet is sent.
pub proof fn law_terminator_of_endpoint(task: OutTaskView, len: usize)
    requires
        task.max_packet_size > 0,
    ensures
        task.action(OutEvent::Data(len)) is Send,
        task.action(OutEvent::Data(len)) == (OutAction::Send { terminator: true })
            <==> exists|full: nat| full > 0 && len == #[trigger] (full * task.max_packet_size),
{
    law_terminator_multiples(len as nat, task.max_packet_size as nat);
    if exists|full: nat| full > 0 && len == #[trigger] (full * task.max_packet_size as nat) {
        let full = choose|full: nat|
            full > 0 && len == #[trigger] (full * task.max_packet_size as nat);
        assert(len == full * task.max_packet_size);
    }
    if exists|full: nat| full > 0 && len == #[trigger] (full * task.max_packet_size) {
        let full = choose|full: nat| full > 0 && len == #[trigger] (full * task.max_packet_size);
        assert(len == full * task.max_packet_size as nat);
    }
}

/// What a sending task puts on the wire for a packet are the USB packets of its endpoint
/// that carry the packet.
pub proof fn law_packet_on_wire(task: OutTaskView, data: Seq<u8>)
    requires
        task.max_packet_size > 0,
        data.len() <= usize::MAX,
    ensures
        put_on_wire(task, data) == wire_packets(data, task.max_packet_size as nat),
{
    let mps = task.max_packet_size as nat;
    law_terminator_ends_packet(data, mps);
    assert(transfer_packets(data, mps) + Seq::<Seq<u8>>::empty() =~= transfer_packets(data, mps));
}

/// What a sending task puts on the wire for several packets are the USB packets of its
/// endpoint that carry them, in order.
pub proof fn law_stream_on_wire(task: OutTaskView, messages: Seq<Seq<u8>>)
    requires
        task.max_packet_size > 0,
        forall|i: int| 0 <= i < messages.len() ==> (#[trigger] messages[i]).len() <= usize::MAX,
    ensures
        put_all_on_wire(task, messages) == wire_stream(messages, task.max_packet_size as nat),
    decreases messages.len(),
{
    if messages.len() > 0 {
        let rest = messages.drop_first();
        assert forall|i: int| 0 <= i < rest.len() implies (#[trigger] rest[i]).len()
            <= usize::MAX by {
            assert(rest[i] == messages[i + 1]);
        }
        law_packet_on_wire(task, messages[0]);
        law_stream_on_wire(task.after(OutEvent::Data(messages[0].len() as usize)), rest);
    }
}

/// Taking a packet only adds its length to the total. The task stops exactly when its queue
/// or the device is closed, and remembers which; the device is to be told only if it was
/// the queue. The total stays as it is then.
pub proof fn law_sending_state(task: OutTaskView, len: usize)
    ensures
        ({
            let next = task.after(OutEvent::Data(len));
            &&& next.total as int == (task.total + len) % 0x1_0000_0000_0000_0000
            &&& next.stopping == task.stopping
            &&& next.max_packet_size == task.max_packet_size
            &&& next.stop_on_partial == task.stop_on_partial
        }),
        forall|event: OutEvent|
            #![trigger task.after(event)]
            !(event is Data) ==> {
                let next = task.after(event);
                &&& task.action(event) == OutAction::Stop
                &&& next.stopping == Some(event == OutEvent::QueueClosed)
                &&& next.total == task.total
                &&& next.max_packet_size == task.max_packet_size
                &&& next.stop_on_partial == task.stop_on_partial
            },
{
}

/// A transfer that has sent everything changes nothing. One that has failed stops the task
/// and is recorded unless the endpoint is halted or something was recorded before. One that
/// has sent less is recorded with both sizes unless the task is stopping, and stops the
/// task if it is to stop then. No transfer changes the total.
pub proof fn law_completed_transfers(
    task: OutTaskView,
    error: Option<TaskError>,
    size: usize,
    sent: usize,
    err: TaskError,
)
    ensures
        task.completed(size, Ok(size)) == task,
        task.error_after(error, size, Ok(size)) == error,
        task.completed(size, Err(err)).stopping == Some(false),
        task.error_after(error, size, Err(err)) == (if error is Some || err
            == TaskError::Transfer(TransferError::Stall) || err == TaskError::WebUsb(
            WebError::Stall,
        ) {
            error
        } else {
            Some(err)
        }),
        sent != size && task.stopping is None ==> {
            &&& task.error_after(error, size, Ok(sent)) == Some(
                TaskError::PartialSend { size, sent },
            )
            &&& task.completed(size, Ok(sent)).stopping == (if task.stop_on_partial {
                Some(false)
            } else {
                None
            })
        },
        task.stopping is Some ==> {
            &&& task.completed(size, Ok(sent)) == task
            &&& task.error_after(error, size, Ok(sent)) == error
        },
        forall|result: Result<usize, TaskError>|
            #![trigger task.completed(size, result)]
            {
                let next = task.completed(size, result);
                &&& next.total == task.total
                &&& next.max_packet_size == task.max_packet_size
                &&& next.stop_on_partial == task.stop_on_partial
            },
{
}

/// Every received transfer is delivered, whatever its size. Everything else ends the
/// receive direction; the host has closed it only if its queue was closed.
pub proof fn law_receiving_actions(event: InEvent)
    ensures
        in_action(event) == InAction::Deliver <==> (event matches InEvent::Completed(result)
            && result is Ok),
        in_action(event) == (InAction::Stop { host_initiated: true }) <==> event
            == InEvent::QueueClosed,
{
}

/// The first failure is kept, and only a stalled transfer is no failure.
pub proof fn law_first_failure(error: Option<TaskError>, err: TaskError)
    ensures
        first_error(None, err) == Some(err),
        error is Some ==> first_error(error, err) == error,
        halted(err) <==> err == TaskError::Transfer(TransferError::Stall) || err
            == TaskError::WebUsb(WebError::Stall),
        transfer_error(error, err) == (if halted(err) {
            error
        } else {
            first_error(error, err)
        }),
{
}

/// The host stops sending exactly if a status response has held the closed flag anywhere or
/// a status request has failed, and stops receiving exactly in the latter case.
pub proof fn law_status_history(responses: Seq<Seq<u8>>, status: DeviceStatus)
    requires
        !status.recv_closed && !status.dead,
    ensures
        ({
            let end = update_all(status, responses);
            &&& end.ends_sending() <==> exists|i: int, j: int|
                0 <= i < responses.len() && 0 <= j < responses[i].len()
                    && #[trigger] responses[i][j] == 1
            &&& !end.ends_receiving()
            &&& end.failed().ends_sending() && end.failed().ends_receiving()
        }),
{
    lemma_update_all(responses, status);
}

/// The status after several responses.
pub open spec fn update_all(status: DeviceStatus, responses: Seq<Seq<u8>>) -> DeviceStatus
    decreases responses.len(),
{
    if responses.len() == 0 {
        status
    } else {
        update_all(status, responses.drop_last()).updated(responses.last())
    }
}

proof fn lemma_update_all(responses: Seq<Seq<u8>>, status: DeviceStatus)
    requires
        !status.recv_closed && !status.dead,
    ensures
        ({
            let end = update_all(status, responses);
            &&& end.recv_closed <==> exists|i: int, j: int|
                0 <= i < responses.len() && 0 <= j < responses[i].len()
                    && #[trigger] responses[i][j] == 1
            &&& !end.dead
        }),
    decreases responses.len(),
{
    if responses.len() > 0 {
        let init = responses.drop_last();
        let last = responses.last();
        let end = update_all(status, responses);
        lemma_update_all(init, status);
        if update_all(status, init).recv_closed {
            let (i, j) = choose|i: int, j: int|
                0 <= i < init.len() && 0 <= j < init[i].len() && #[trigger] init[i][j] == 1;
            assert(responses[i][j] == 1);
        } else if last.contains(1u8) {
            let j = choose|j: int| 0 <= j < last.len() && last[j] == 1;
            assert(responses[responses.len() - 1][j] == 1);
        } else {
            assert forall|i: int, j: int|
                0 <= i < responses.len() && 0 <= j < responses[i].len() implies
                #[trigger] responses[i][j] != 1 by {
                if i < init.len() {
                    assert(init[i][j] == responses[i][j]);
                }
            }
        }
    }
}

/// Up to eight transfers are submitted at the same time.
pub proof fn law_submitted_transfers()
    ensures
        DMA_BUFFERS == 8,
{
}

} // verus!

//! Closing of the directions of a connection by the host.

use vstd::prelude::*;

use crate::ctrl;
use crate::ctrl::{ControlOut, ControlOutView};
use crate::tlv::{le_bytes, push_le};

verus! {

/// Which directions are closed.
#[derive(Debug, Clone, Copy, PartialEq, Eq, Structural)]
pub struct HalfCloseView {
    /// The send direction is closed.
    pub send_closed: bool,
    /// The receive direction is closed.
    pub recv_closed: bool,
}

/// The requests with their data.
pub open spec fn request_views(requests: Seq<ControlOut>) -> Seq<ControlOutView> {
    requests.map_values(|request: ControlOut| request@)
}

/// A request without data.
pub open spec fn empty_request(request: u8) -> ControlOutView {
    ControlOutView { request, data: Seq::empty() }
}

/// Closing of one direction.
pub enum Closing {
    /// The send direction is closed after this number of bytes.
    Send { notify_device: bool, total_bytes_sent: u64 },
    /// The receive direction is closed.
    Recv { notify_device: bool },
}

impl HalfCloseView {
    /// Both directions are open.
    pub open spec fn open_view() -> Self {
        HalfCloseView { send_closed: false, recv_closed: false }
    }

    /// Whether both directions are closed.
    pub open spec fn both(self) -> bool {
        self.send_closed && self.recv_closed
    }

    /// Whether the direction was closed before.
    pub open spec fn already(self, closing: Closing) -> bool {
        match closing {
            Closing::Send { .. } => self.send_closed,
            Closing::Recv { .. } => self.recv_closed,
        }
    }

    /// The state after a direction was closed.
    pub open spec fn after(self, closing: Closing) -> Self {
        match closing {
            Closing::Send { .. } => HalfCloseView { send_closed: true, ..self },
            Closing::Recv { .. } => HalfCloseView { recv_closed: true, ..self },
        }
    }

    /// The request that tells the device about the closing, if it does not know.
    pub open spec fn notification(closing: Closing) -> Seq<ControlOutView> {
        match closing {
            Closing::Send { notify_device: true, total_bytes_sent } => seq![
                ControlOutView {
                    request: ctrl::CLOSE_SEND,
                    data: le_bytes(total_bytes_sent as nat, 8),
                },
            ],
            Closing::Recv { notify_device: true } => seq![empty_request(ctrl::CLOSE_RECV)],
            _ => Seq::empty(),
        }
    }

    /// The requests to send when a direction is closed.
    pub open spec fn requests(self, closing: Closing) -> Seq<ControlOutView> {
        if self.already(closing) {
            Seq::empty()
        } else {
            Self::notification(closing) + (if self.after(closing).both() {
                seq![empty_request(ctrl::CLOSE)]
            } else {
                Seq::empty()
            })
        }
    }
}

/// Tracks which directions are closed and tells which requests to send.
#[derive(Debug)]
pub struct HalfCloseHandle {
    send_closed: bool,
    recv_closed: bool,
}

impl View for HalfCloseHandle {
    type V = HalfCloseView;

    closed spec fn view(&self) -> HalfCloseView {
        HalfCloseView { send_closed: self.send_closed, recv_closed: self.recv_closed }
    }
}

impl HalfCloseHandle {
    /// Both directions are open.
    pub fn new() -> (handle: Self)
        ensures
            handle@ == HalfCloseView::open_view(),
    {
        HalfCloseHandle { send_closed: false, recv_closed: false }
    }

    /// Whether both directions are closed.
    pub fn is_closed(&self) -> (closed: bool)
        ensures
            closed == self@.both(),
    {
        self.send_closed && self.recv_closed
    }

    /// Mark send direction as closed and returns the requests to send.
    ///
    /// If `notify_device` is true (host-initiated close), the device is told the total
    /// number of bytes sent so that it can drain the endpoint. If false (device-initiated
    /// close), it is not told.
    pub fn close_send(&mut self, notify_device: bool, total_bytes_sent: u64) -> (requests: Vec<
        ControlOut,
    >)
        ensures
            final(self)@ == old(self)@.after(Closing::Send { notify_device, total_bytes_sent }),
            request_views(requests@) == old(self)@.requests(
                Closing::Send { notify_device, total_bytes_sent },
            ),
    {
        let mut requests: Vec<ControlOut> = Vec::new();
        if !self.send_closed {
            self.send_closed = true;
            if notify_device {
                let mut data: Vec<u8> = Vec::new();
                push_le(&mut data, total_bytes_sent, 8);
                assert(data@ =~= le_bytes(total_bytes_sent as nat, 8));
                requests.push(ControlOut { request: ctrl::CLOSE_SEND, data });
            }
            self.close_if_both(&mut requests);
        }
        assert(request_views(requests@) =~= old(self)@.requests(
            Closing::Send { notify_device, total_bytes_sent },
        ));
        requests
    }

    /// Mark receive direction as closed and returns the requests to send.
    ///
    /// If `notify_device` is true (host-initiated close), the device is told. If false
    /// (device-initiated close), it is not told.
    pub fn close_recv(&mut self, notify_device: bool) -> (requests: Vec<ControlOut>)
        ensures
            final(self)@ == old(self)@.after(Closing::Recv { notify_device }),
            request_views(requests@) == old(self)@.requests(Closing::Recv { notify_device }),
    {
        let mut requests: Vec<ControlOut> = Vec::new();
        if !self.recv_closed {
            self.recv_closed = true;
            if notify_device {
                let data: Vec<u8> = Vec::new();
                assert(data@ =~= Seq::<u8>::empty());
                requests.push(ControlOut { request: ctrl::CLOSE_RECV, data });
            }
            self.close_if_both(&mut requests);
        }
        assert(request_views(requests@) =~= old(self)@.requests(Closing::Recv { notify_device }));
        requests
    }

    /// Adds the request that closes the connection if both directions are closed.
    fn close_if_both(&self, requests: &mut Vec<ControlOut>)
        ensures
            request_views(final(requests)@) == request_views(old(requests)@) + (if self@.both() {
                seq![empty_request(ctrl::CLOSE)]
            } else {
                Seq::empty()
            }),
    {
        let ghost before = request_views(requests@);
        if self.send_closed && self.recv_closed {
            let data: Vec<u8> = Vec::new();
            assert(data@ =~= Seq::<u8>::empty());
            requests.push(ControlOut { request: ctrl::CLOSE, data });
            assert(request_views(requests@) =~= before + seq![empty_request(ctrl::CLOSE)]);
        } else {
            assert(before + Seq::<ControlOutView>::empty() =~= before);
        }
    }
}

/// The state and all requests after a sequence of closings.
pub open spec fn close_all(state: HalfCloseView, closings: Seq<Closing>) -> (
    HalfCloseView,
    Seq<ControlOutView>,
)
    decreases closings.len(),
{
    if closings.len() == 0 {
        (state, Seq::empty())
    } else {
        let (end, rest) = close_all(state.after(closings[0]), closings.drop_first());
        (end, state.requests(closings[0]) + rest)
    }
}

/// The requests with a code, in order.
pub open spec fn with_code(requests: Seq<ControlOutView>, code: u8) -> Seq<ControlOutView> {
    requests.filter(|request: ControlOutView| request.request == code)
}

/// The first closing of the send or of the receive direction.
pub open spec fn first_closing(closings: Seq<Closing>, send: bool) -> Option<Closing>
    decreases closings.len(),
{
    if closings.len() == 0 {
        None
    } else if (closings[0] is Send) == send {
        Some(closings[0])
    } else {
        first_closing(closings.drop_first(), send)
    }
}

proof fn lemma_with_code_single(request: ControlOutView, code: u8)
    ensures
        with_code(seq![request], code) == (if request.request == code {
            seq![request]
        } else {
            Seq::empty()
        }),
        with_code(Seq::empty(), code) == Seq::<ControlOutView>::empty(),
{
    reveal(Seq::filter);
    let single = seq![request];
    let matching = |request: ControlOutView| request.request == code;
    assert(single.drop_last() =~= Seq::<ControlOutView>::empty());
    assert(single.drop_last().filter(matching) =~= Seq::<ControlOutView>::empty());
    assert(with_code(single, code) =~= (if request.request == code {
        single
    } else {
        Seq::empty()
    }));
}

proof fn lemma_with_code_concat(first: Seq<ControlOutView>, second: Seq<ControlOutView>, code: u8)
    ensures
        with_code(first + second, code) == with_code(first, code) + with_code(second, code),
{
    Seq::filter_distributes_over_add(
        first,
        second,
        |request: ControlOutView| request.request == code,
    );
}

/// The requests of one closing by their code.
proof fn lemma_requests_by_code(state: HalfCloseView, closing: Closing, code: u8)
    ensures
        with_code(state.requests(closing), code) == (if state.already(closing) {
            Seq::empty()
        } else if code == ctrl::CLOSE {
            if state.after(closing).both() {
                seq![empty_request(ctrl::CLOSE)]
            } else {
                Seq::empty()
            }
        } else if closing is Send && code == ctrl::CLOSE_SEND || closing is Recv && code
            == ctrl::CLOSE_RECV {
            HalfCloseView::notification(closing)
        } else {
            Seq::empty()
        }),
{
    let notification = HalfCloseView::notification(closing);
    let close = if state.after(closing).both() {
        seq![empty_request(ctrl::CLOSE)]
    } else {
        Seq::empty()
    };
    lemma_with_code_concat(notification, close, code);
    lemma_with_code_single(empty_request(ctrl::CLOSE), code);
    if notification.len() > 0 {
        lemma_with_code_single(notification[0], code);
        assert(notification =~= seq![notification[0]]);
    }
    assert(with_code(notification, code) + Seq::<ControlOutView>::empty() =~= with_code(
        notification,
        code,
    ));
    assert(Seq::<ControlOutView>::empty() + with_code(close, code) =~= with_code(close, code));
}

/// Nothing is sent after both directions were closed.
proof fn lemma_silent_when_closed(state: HalfCloseView, closings: Seq<Closing>)
    requires
        state.both(),
    ensures
        close_all(state, closings).1 == Seq::<ControlOutView>::empty(),
    decreases closings.len(),
{
    if closings.len() > 0 {
        lemma_silent_when_closed(state.after(closings[0]), closings.drop_first());
        assert(close_all(state, closings).1 =~= Seq::<ControlOutView>::empty());
    }
}

/// The requests with a code are those of the first closing and those of the others.
proof fn lemma_first_and_rest(state: HalfCloseView, closings: Seq<Closing>, code: u8)
    requires
        closings.len() > 0,
    ensures
        ({
            let first = with_code(state.requests(closings[0]), code);
            let rest = with_code(
                close_all(state.after(closings[0]), closings.drop_first()).1,
                code,
            );
            let all = with_code(close_all(state, closings).1, code);
            &&& all == first + rest
            &&& first.len() == 0 ==> all == rest
            &&& rest.len() == 0 ==> all == first
        }),
{
    let first = state.requests(closings[0]);
    let rest = close_all(state.after(closings[0]), closings.drop_first()).1;
    lemma_with_code_concat(first, rest, code);
    if with_code(first, code).len() == 0 {
        assert(with_code(first, code) + with_code(rest, code) =~= with_code(rest, code));
    }
    if with_code(rest, code).len() == 0 {
        assert(with_code(first, code) + with_code(rest, code) =~= with_code(first, code));
    }
}

/// Which directions are closed in the end.
proof fn lemma_closed_directions(state: HalfCloseView, closings: Seq<Closing>)
    ensures
        ({
            let end = close_all(state, closings).0;
            &&& end.send_closed == (state.send_closed || first_closing(closings, true) is Some)
            &&& end.recv_closed == (state.recv_closed || first_closing(closings, false) is Some)
        }),
    decreases closings.len(),
{
    if closings.len() > 0 {
        lemma_closed_directions(state.after(closings[0]), closings.drop_first());
    }
}

/// The requests that close the connection.
proof fn lemma_connection_closed(state: HalfCloseView, closings: Seq<Closing>)
    ensures
        with_code(close_all(state, closings).1, ctrl::CLOSE) == (if close_all(
            state,
            closings,
        ).0.both() && !state.both() {
            seq![empty_request(ctrl::CLOSE)]
        } else {
            Seq::empty()
        }),
    decreases closings.len(),
{
    lemma_with_code_single(empty_request(ctrl::CLOSE), ctrl::CLOSE);
    lemma_closed_directions(state, closings);
    if closings.len() > 0 {
        let next = state.after(closings[0]);
        lemma_connection_closed(next, closings.drop_first());
        lemma_closed_directions(next, closings.drop_first());
        lemma_requests_by_code(state, closings[0], ctrl::CLOSE);
        lemma_first_and_rest(state, closings, ctrl::CLOSE);
    }
}

/// The requests that tell the device of the end of a direction.
proof fn lemma_direction_closed(state: HalfCloseView, closings: Seq<Closing>, send: bool)
    ensures
        ({
            let code = if send {
                ctrl::CLOSE_SEND
            } else {
                ctrl::CLOSE_RECV
            };
            with_code(close_all(state, closings).1, code) == (match first_closing(closings, send) {
                Some(closing) if !state.already(closing) => HalfCloseView::notification(closing),
                _ => Seq::empty(),
            })
        }),
    decreases closings.len(),
{
    let code = if send {
        ctrl::CLOSE_SEND
    } else {
        ctrl::CLOSE_RECV
    };
    lemma_with_code_single(empty_request(ctrl::CLOSE), code);
    if closings.len() > 0 {
        let next = state.after(closings[0]);
        lemma_direction_closed(next, closings.drop_first(), send);
        lemma_first_closing(closings.drop_first(), send);
        lemma_requests_by_code(state, closings[0], code);
        lemma_first_and_rest(state, closings, code);
    }
}

/// Which requests are sent, and that nothing follows the closing of the connection.
proof fn lemma_request_order(state: HalfCloseView, closings: Seq<Closing>)
    ensures
        ({
            let requests = close_all(state, closings).1;
            forall|i: int|
                #![trigger requests[i]]
                0 <= i < requests.len() ==> {
                    let code = requests[i].request;
                    &&& code == ctrl::CLOSE || code == ctrl::CLOSE_SEND || code == ctrl::CLOSE_RECV
                    &&& code == ctrl::CLOSE ==> i == requests.len() - 1
                }
        }),
    decreases closings.len(),
{
    if closings.len() > 0 {
        let first = state.requests(closings[0]);
        let next = state.after(closings[0]);
        let rest = close_all(next, closings.drop_first()).1;
        let requests = close_all(state, closings).1;
        lemma_request_order(next, closings.drop_first());
        if next.both() {
            lemma_silent_when_closed(next, closings.drop_first());
        }
        assert forall|i: int| #![trigger requests[i]] 0 <= i < requests.len() implies {
            let code = requests[i].request;
            &&& code == ctrl::CLOSE || code == ctrl::CLOSE_SEND || code == ctrl::CLOSE_RECV
            &&& code == ctrl::CLOSE ==> i == requests.len() - 1
        } by {
            if i < first.len() {
                assert(requests[i] == first[i]);
            } else {
                assert(requests[i] == rest[i - first.len()]);
            }
        }
    }
}

/// The closing that is found first closes the direction.
proof fn lemma_first_closing(closings: Seq<Closing>, send: bool)
    ensures
        first_closing(closings, send) matches Some(closing) ==> (closing is Send) == send,
    decreases closings.len(),
{
    if closings.len() > 0 {
        lemma_first_closing(closings.drop_first(), send);
    }
}

/// Whatever closes the directions and how often:
///
/// * The connection is closed exactly once if both directions get closed, and not at all
///   otherwise. Nothing is sent after that.
/// * The device is told of the end of sending exactly once if the first closing of the
///   direction is to notify it, with the number of bytes of that closing, and not at all
///   otherwise.
/// * The same holds of the end of receiving, of which it is told without data.
/// * Nothing else is sent.
pub proof fn law_closed_once(state: HalfCloseView, closings: Seq<Closing>)
    ensures
        ({
            let (end, requests) = close_all(state, closings);
            &&& with_code(requests, ctrl::CLOSE) == (if end.send_closed && end.recv_closed && !(
            state.send_closed && state.recv_closed) {
                seq![ControlOutView { request: ctrl::CLOSE, data: Seq::empty() }]
            } else {
                Seq::empty()
            })
            &&& with_code(requests, ctrl::CLOSE_SEND) == (match first_closing(closings, true) {
                Some(
                    Closing::Send { notify_device: true, total_bytes_sent },
                ) if !state.send_closed => seq![
                    ControlOutView {
                        request: ctrl::CLOSE_SEND,
                        data: le_bytes(total_bytes_sent as nat, 8),
                    },
                ],
                _ => Seq::empty(),
            })
            &&& with_code(requests, ctrl::CLOSE_RECV) == (match first_closing(closings, false) {
                Some(Closing::Recv { notify_device: true }) if !state.recv_closed => seq![
                    ControlOutView { request: ctrl::CLOSE_RECV, data: Seq::empty() },
                ],
                _ => Seq::empty(),
            })
            &&& forall|i: int|
                #![trigger requests[i]]
                0 <= i < requests.len() ==> {
                    let code = requests[i].request;
                    &&& code == ctrl::CLOSE || code == ctrl::CLOSE_SEND || code == ctrl::CLOSE_RECV
                    &&& code == ctrl::CLOSE ==> i == requests.len() - 1
                }
            &&& end.send_closed == (state.send_closed || first_closing(closings, true) is Some)
            &&& end.recv_closed == (state.recv_closed || first_closing(closings, false) is Some)
        }),
{
    lemma_closed_directions(state, closings);
    lemma_connection_closed(state, closings);
    lemma_direction_closed(state, closings, true);
    lemma_direction_closed(state, closings, false);
    lemma_first_closing(closings, true);
    lemma_first_closing(closings, false);
    lemma_request_order(state, closings);
}

/// Requests are known by their codes and all of their data.
pub proof fn law_request_views(requests: Seq<ControlOut>, i: int)
    requires
        0 <= i < requests.len(),
    ensures
        request_views(requests).len() == requests.len(),
        request_views(requests)[i].request == requests[i].request,
        request_views(requests)[i].data == requests[i].data@,
{
}

/// A new connection is open in both directions, and it is closed exactly if both are.
pub proof fn law_open_directions(state: HalfCloseView)
    ensures
        !HalfCloseView::open_view().send_closed && !HalfCloseView::open_view().recv_closed,
        state.both() <==> state.send_closed && state.recv_closed,
{
}

} // verus!

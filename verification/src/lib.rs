//! A typed message router for persistent duplex connections, together with
//! the client side of the connection lifecycle: frames are classified by
//! kind, routed to handlers registered per kind, and the connection is kept
//! alive across failures with exponential backoff.

pub mod client;
pub mod codec;
pub mod error;
pub mod extract;
pub mod handler;
pub mod request;
pub mod response;

use std::sync::Arc;

use vstd::prelude::*;
use vstd::utf8::{decode_utf8, encode_utf8, valid_utf8};

use crate::codec::{encode_close_spec, parse_close_spec};
use crate::handler::{CloseEchoHandler, HandlerService};
use crate::request::{Frames, ReqView, Request};
use crate::response::{RespView, Response, Status};

verus! {

/// One registered handler in a route table.
pub struct EntryRoute<H> {
    pub handler: H,
}

/// The route table and the shared context: an ordered list of handlers per
/// frame kind, tried in registration order, and one context value handed to
/// every dispatch.
pub struct NextDoor<S, H> {
    pub text_routes: Vec<EntryRoute<H>>,
    pub binary_routes: Vec<EntryRoute<H>>,
    pub close_routes: Vec<EntryRoute<H>>,
    pub ping_routes: Vec<EntryRoute<H>>,
    pub pong_routes: Vec<EntryRoute<H>>,
    pub state: S,
}

impl<S, H> NextDoor<S, H> {
    /// The handlers registered for one frame kind, in registration order.
    pub open spec fn routes(&self, kind: Frames) -> Seq<EntryRoute<H>> {
        match kind {
            Frames::Text => self.text_routes@,
            Frames::Binary => self.binary_routes@,
            Frames::Close => self.close_routes@,
            Frames::Ping => self.ping_routes@,
            Frames::Pong => self.pong_routes@,
        }
    }
}

/// A decisive status ends the fallback chain at the handler that produced
/// it: the one success is returned as the dispatch result, and the one
/// reconnect request is surfaced to the connection runtime. Error-class
/// statuses are not decisive; the chain falls through to the next handler.
pub open spec fn decisive(status: Status) -> bool {
    status == Status::OK || status == Status::Reconnect
}

/// The response a fallback chain starts from before any handler ran.
pub open spec fn initial_last() -> RespView {
    RespView { status: Status::NotFound, body: Seq::empty() }
}

/// Result of trying a chain of handlers in order: the first decisive
/// response wins; when none is decisive, the last tried handler's body is
/// surfaced under a `NotFound` status. `last` carries the most recent
/// non-decisive response.
pub open spec fn chain_spec<S, H: HandlerService<S>>(
    hs: Seq<EntryRoute<H>>,
    req: ReqView,
    state: S,
    last: RespView,
) -> RespView
    decreases hs.len(),
{
    if hs.len() == 0 {
        RespView { status: Status::NotFound, body: last.body }
    } else {
        let first = hs[0].handler.on_call(req, state);
        if decisive(first.status) {
            first
        } else {
            chain_spec(hs.drop_first(), req, state, first)
        }
    }
}

/// Body of the answer when no route is registered: the payload as text when
/// it is valid UTF-8, empty otherwise.
pub open spec fn no_route_body(body: Seq<u8>) -> Seq<char> {
    if valid_utf8(body) {
        decode_utf8(body)
    } else {
        Seq::empty()
    }
}

/// The response a router gives for a request: `NotFountPath` echoing the
/// payload when no handler is registered for the kind, otherwise the result
/// of the fallback chain over the registered handlers.
pub open spec fn dispatch_spec<S, H: HandlerService<S>>(
    router: NextDoor<S, H>,
    req: ReqView,
) -> RespView {
    if router.routes(req.path).len() == 0 {
        RespView { status: Status::NotFountPath, body: no_route_body(req.body) }
    } else {
        chain_spec(router.routes(req.path), req, router.state, initial_last())
    }
}

impl<S, H: HandlerService<S>> NextDoor<S, H> {
    /// A router with no routes and the given shared context value.
    pub fn with_state(state: S) -> (r: NextDoor<S, H>)
        ensures
            forall|k: Frames| r.routes(k).len() == 0,
            r.state == state,
    {
        NextDoor {
            text_routes: Vec::new(),
            binary_routes: Vec::new(),
            close_routes: Vec::new(),
            ping_routes: Vec::new(),
            pong_routes: Vec::new(),
            state,
        }
    }

    /// Appends a handler to the list registered for `frame`.
    pub fn route(&mut self, frame: Frames, handler: H)
        ensures
            final(self).routes(frame) == old(self).routes(frame).push((EntryRoute { handler })),
            forall|k: Frames| k != frame ==> final(self).routes(k) == old(self).routes(k),
            final(self).state == old(self).state,
    {
        let entry = EntryRoute { handler };
        match frame {
            Frames::Text => self.text_routes.push(entry),
            Frames::Binary => self.binary_routes.push(entry),
            Frames::Close => self.close_routes.push(entry),
            Frames::Ping => self.ping_routes.push(entry),
            Frames::Pong => self.pong_routes.push(entry),
        }
    }

    /// Registers a handler for textual frames.
    pub fn text(&mut self, handler: H)
        ensures
            final(self).routes(Frames::Text) == old(self).routes(Frames::Text).push(
                (EntryRoute { handler }),
            ),
            forall|k: Frames| k != Frames::Text ==> final(self).routes(k) == old(self).routes(k),
            final(self).state == old(self).state,
    {
        self.route(Frames::Text, handler)
    }

    /// Registers a handler for binary frames.
    pub fn binary(&mut self, handler: H)
        ensures
            final(self).routes(Frames::Binary) == old(self).routes(Frames::Binary).push(
                (EntryRoute { handler }),
            ),
            forall|k: Frames| k != Frames::Binary ==> final(self).routes(k) == old(self).routes(k),
            final(self).state == old(self).state,
    {
        self.route(Frames::Binary, handler)
    }

    /// Registers a handler for close frames.
    pub fn close(&mut self, handler: H)
        ensures
            final(self).routes(Frames::Close) == old(self).routes(Frames::Close).push(
                (EntryRoute { handler }),
            ),
            forall|k: Frames| k != Frames::Close ==> final(self).routes(k) == old(self).routes(k),
            final(self).state == old(self).state,
    {
        self.route(Frames::Close, handler)
    }

    /// Registers a handler for ping frames.
    pub fn ping(&mut self, handler: H)
        ensures
            final(self).routes(Frames::Ping) == old(self).routes(Frames::Ping).push(
                (EntryRoute { handler }),
            ),
            forall|k: Frames| k != Frames::Ping ==> final(self).routes(k) == old(self).routes(k),
            final(self).state == old(self).state,
    {
        self.route(Frames::Ping, handler)
    }

    /// Registers a handler for pong frames.
    pub fn pong(&mut self, handler: H)
        ensures
            final(self).routes(Frames::Pong) == old(self).routes(Frames::Pong).push(
                (EntryRoute { handler }),
            ),
            forall|k: Frames| k != Frames::Pong ==> final(self).routes(k) == old(self).routes(k),
            final(self).state == old(self).state,
    {
        self.route(Frames::Pong, handler)
    }

    /// Dispatches a request: tries the handlers registered for its kind in
    /// registration order and answers exactly as [`dispatch_spec`] states.
    #[verifier::loop_isolation(false)]
    pub fn handler(&self, req: Request) -> (r: Response)
        ensures
            r@ == dispatch_spec(*self, req@),
    {
        let routes: &Vec<EntryRoute<H>> = match &req.path {
            Frames::Text => &self.text_routes,
            Frames::Binary => &self.binary_routes,
            Frames::Close => &self.close_routes,
            Frames::Ping => &self.ping_routes,
            Frames::Pong => &self.pong_routes,
        };
        proof {
            assert(routes@ == self.routes(req@.path));
        }
        if routes.len() == 0 {
            let body = match req.try_to_string() {
                Ok(s) => s,
                Err(_) => String::new(),
            };
            return Response { status: Status::NotFountPath, body };
        }
        let mut last = Response { status: Status::NotFound, body: String::new() };
        let mut i: usize = 0;
        proof {
            assert(routes@.skip(0) =~= routes@);
        }
        while i < routes.len()
            invariant
                i <= routes.len(),
                chain_spec(routes@, req@, self.state, initial_last()) == chain_spec(
                    routes@.skip(i as int),
                    req@,
                    self.state,
                    last@,
                ),
            decreases routes.len() - i,
        {
            let resp = routes[i].handler.call(&req, &self.state);
            proof {
                assert(routes@.skip(i as int)[0] == routes@[i as int]);
            }
            if resp.status.is_success() || resp.status.is_reconnect() {
                return resp;
            }
            proof {
                assert(routes@.skip(i as int).drop_first() =~= routes@.skip(i as int + 1));
            }
            last = resp;
            i += 1;
        }
        proof {
            assert(routes@.skip(routes@.len() as int) =~= Seq::<EntryRoute<H>>::empty());
        }
        Response { status: Status::NotFound, body: last.body }
    }
}

impl<H: HandlerService<Arc<()>>> NextDoor<Arc<()>, H> {
    /// A router with no routes and a trivial shared context.
    pub fn new() -> (r: Self)
        ensures
            forall|k: Frames| r.routes(k).len() == 0,
    {
        Self::with_state(Arc::new(()))
    }
}

impl<H: HandlerService<Arc<()>>> Default for NextDoor<Arc<()>, H> {
    fn default() -> (r: Self)
        ensures
            forall|k: Frames| r.routes(k).len() == 0,
    {
        Self::new()
    }
}

/// A request whose kind has no registered handler is answered with
/// `NotFountPath`, echoing the payload as text when it is valid UTF-8.
pub proof fn lemma_dispatch_unrouted<S, H: HandlerService<S>>(router: NextDoor<S, H>, req: ReqView)
    requires
        router.routes(req.path).len() == 0,
    ensures
        dispatch_spec(router, req) == (RespView {
            status: Status::NotFountPath,
            body: no_route_body(req.body),
        }),
{
}

/// In a fallback chain, the first handler whose response is decisive — a
/// success, or a reconnect request — determines the result, whatever
/// responses the earlier handlers gave.
pub proof fn lemma_chain_first_decisive<S, H: HandlerService<S>>(
    hs: Seq<EntryRoute<H>>,
    req: ReqView,
    state: S,
    last: RespView,
    i: int,
)
    requires
        0 <= i < hs.len(),
        decisive(hs[i].handler.on_call(req, state).status),
        forall|j: int| 0 <= j < i ==> !decisive(hs[j].handler.on_call(req, state).status),
    ensures
        chain_spec(hs, req, state, last) == hs[i].handler.on_call(req, state),
    decreases i,
{
    if i > 0 {
        let rest = hs.drop_first();
        assert(rest[i - 1] == hs[i]);
        assert forall|j: int| 0 <= j < i - 1 implies !decisive(
            rest[j].handler.on_call(req, state).status,
        ) by {
            assert(rest[j] == hs[j + 1]);
        }
        lemma_chain_first_decisive(rest, req, state, hs[0].handler.on_call(req, state), i - 1);
    }
}

/// In a fallback chain where no handler's response is decisive, the result
/// carries the last tried handler's body under a `NotFound` status.
pub proof fn lemma_chain_none_decisive<S, H: HandlerService<S>>(
    hs: Seq<EntryRoute<H>>,
    req: ReqView,
    state: S,
    last: RespView,
)
    requires
        hs.len() > 0,
        forall|j: int| 0 <= j < hs.len() ==> !decisive(hs[j].handler.on_call(req, state).status),
    ensures
        chain_spec(hs, req, state, last) == (RespView {
            status: Status::NotFound,
            body: hs.last().handler.on_call(req, state).body,
        }),
    decreases hs.len(),
{
    let first = hs[0].handler.on_call(req, state);
    if hs.len() == 1 {
        assert(hs.drop_first().len() == 0);
        assert(hs.last() == hs[0]);
    } else {
        let rest = hs.drop_first();
        assert forall|j: int| 0 <= j < rest.len() implies !decisive(
            rest[j].handler.on_call(req, state).status,
        ) by {
            assert(rest[j] == hs[j + 1]);
        }
        lemma_chain_none_decisive(rest, req, state, first);
        assert(rest.last() == hs.last());
    }
}

/// Dispatch returns the response of the first registered handler whose
/// response is decisive; in a chain without reconnect requests, that is the
/// first handler whose status is the success status.
pub proof fn lemma_dispatch_first_decisive<S, H: HandlerService<S>>(
    router: NextDoor<S, H>,
    req: ReqView,
    i: int,
)
    requires
        0 <= i < router.routes(req.path).len(),
        decisive(router.routes(req.path)[i].handler.on_call(req, router.state).status),
        forall|j: int| 0 <= j < i ==> !decisive(
            router.routes(req.path)[j].handler.on_call(req, router.state).status,
        ),
    ensures
        dispatch_spec(router, req) == router.routes(req.path)[i].handler.on_call(
            req,
            router.state,
        ),
{
    lemma_chain_first_decisive(router.routes(req.path), req, router.state, initial_last(), i);
}

/// When no registered handler's response is decisive, dispatch surfaces the
/// last tried handler's body under a `NotFound` status.
pub proof fn lemma_dispatch_none_decisive<S, H: HandlerService<S>>(
    router: NextDoor<S, H>,
    req: ReqView,
)
    requires
        router.routes(req.path).len() > 0,
        forall|j: int| 0 <= j < router.routes(req.path).len() ==> !decisive(
            router.routes(req.path)[j].handler.on_call(req, router.state).status,
        ),
    ensures
        dispatch_spec(router, req) == (RespView {
            status: Status::NotFound,
            body: router.routes(req.path).last().handler.on_call(req, router.state).body,
        }),
{
    lemma_chain_none_decisive(router.routes(req.path), req, router.state, initial_last());
}

/// Round trip through the dispatch engine: a close request whose body is the
/// encoding of a payload, dispatched to a close-echo handler, succeeds with
/// a body that parses back to exactly that payload.
pub proof fn lemma_close_dispatch_round_trip<S>(
    router: NextDoor<S, CloseEchoHandler>,
    req: ReqView,
    reason: Seq<char>,
    code: u16,
)
    requires
        req.path == Frames::Close,
        req.body == encode_utf8(encode_close_spec(reason, code)),
        router.routes(Frames::Close).len() >= 1,
    ensures
        dispatch_spec(router, req).status == Status::OK,
        parse_close_spec(dispatch_spec(router, req).body) == Some((reason, code)),
{
    let enc = encode_close_spec(reason, code);
    vstd::utf8::encode_utf8_valid_utf8(enc);
    vstd::utf8::encode_utf8_decode_utf8(enc);
    assert(decode_utf8(Seq::<u8>::empty()) =~= Seq::<char>::empty());
    assert(enc.len() > 0);
    assert(req.body.len() > 0) by {
        if req.body.len() == 0 {
            assert(decode_utf8(req.body) =~= enc);
        }
    }
    crate::codec::lemma_close_round_trip(reason, code);
    let first = router.routes(Frames::Close)[0].handler.on_call(req, router.state);
    assert(first.status == Status::OK);
    lemma_dispatch_first_decisive(router, req, 0);
}

} // verus!

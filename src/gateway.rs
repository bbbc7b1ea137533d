//! Enable/disable lifecycle of the embedded LAN server.
//!
//! At most one server instance is live. Every toggle first retires the live
//! instance (its cancellation signal is sent and its task awaited by the
//! caller), and only then, when enabling, binds a new listener and installs
//! the new instance in the now empty slot.
use vstd::prelude::*;
use crate::text::{decimal, push_decimal, push_str};

verus! {

/// Why a toggle request failed.
#[derive(Debug)]
pub enum GatewayError {
    /// Port 0 was requested.
    InvalidPort,
    /// The data store has not been initialized yet.
    StoreNotReady,
    /// Binding the listener failed; `reason` is the system's description.
    Bind { port: u16, reason: String },
}

pub open spec fn msg_invalid_port() -> Seq<char> {
    "端口必须大于 0"@
}

pub open spec fn msg_store_not_ready() -> Seq<char> {
    "数据库尚未就绪，请稍后重试。"@
}

pub open spec fn msg_stopped() -> Seq<char> {
    "局域网共享服务已关闭"@
}

pub open spec fn msg_started(port: u16) -> Seq<char> {
    "局域网共享服务已启动，端口 "@ + decimal(port as nat)
}

pub open spec fn msg_bind_failed(port: u16, reason: Seq<char>) -> Seq<char> {
    "启动局域网服务失败（端口 "@ + decimal(port as nat) + "）: "@ + reason
}

impl GatewayError {
    /// The human-readable text shown to the user.
    pub open spec fn spec_message(&self) -> Seq<char> {
        match self {
            GatewayError::InvalidPort => msg_invalid_port(),
            GatewayError::StoreNotReady => msg_store_not_ready(),
            GatewayError::Bind { port, reason } => msg_bind_failed(*port, reason@),
        }
    }

    pub fn message(&self) -> (r: String)
        ensures
            r@ == self.spec_message(),
    {
        match self {
            GatewayError::InvalidPort => String::from_str("端口必须大于 0"),
            GatewayError::StoreNotReady => String::from_str("数据库尚未就绪，请稍后重试。"),
            GatewayError::Bind { port, reason } => {
                let mut out = String::from_str("启动局域网服务失败（端口 ");
                push_decimal(&mut out, *port as u64);
                push_str(&mut out, "）: ");
                push_str(&mut out, reason.as_str());
                out
            },
        }
    }
}

/// One live server instance: the port it listens on and the caller's handle
/// (background task plus cancellation sender).
pub struct LiveServer<H> {
    pub port: u16,
    pub handle: H,
}

/// The mutex-guarded slot that holds the live instance, if any.
pub struct ServerSlot<H> {
    live: Option<LiveServer<H>>,
}

impl<H> ServerSlot<H> {
    /// The port of the live instance, if one is installed.
    pub closed spec fn live_port(&self) -> Option<u16> {
        match self.live {
            Some(l) => Some(l.port),
            None => None,
        }
    }

    pub fn new() -> (r: Self)
        ensures
            r.live_port() is None,
    {
        ServerSlot { live: None }
    }

    pub fn is_idle(&self) -> (r: bool)
        ensures
            r == (self.live_port() is None),
    {
        self.live.is_none()
    }

    pub fn current_port(&self) -> (r: Option<u16>)
        ensures
            r == self.live_port(),
    {
        match &self.live {
            Some(l) => Some(l.port),
            None => None,
        }
    }

    /// Takes the live instance out of the slot, leaving it empty. The caller
    /// signals its cancellation and awaits its task before going on.
    pub fn retire(&mut self) -> (r: Option<LiveServer<H>>)
        ensures
            final(self).live_port() is None,
            r is Some <==> old(self).live_port() is Some,
            r is Some ==> old(self).live_port() == Some(r->0.port),
    {
        self.live.take()
    }

    /// Begins a toggle request. A rejected port leaves the slot untouched;
    /// otherwise the slot is emptied and the live instance, if any, is
    /// handed out: the caller signals it, awaits it, then asks
    /// `after_retire` what to do next.
    pub fn begin_toggle(&mut self, port: u16) -> (r: Result<Option<LiveServer<H>>, GatewayError>)
        ensures
            !port_accepted(port) ==> r is Err && r->Err_0 is InvalidPort
                && final(self).live_port() == old(self).live_port(),
            port_accepted(port) ==> r is Ok && final(self).live_port() is None
                && (r->Ok_0 is Some <==> old(self).live_port() is Some)
                && (r->Ok_0 is Some ==> old(self).live_port() == Some(r->Ok_0->0.port)),
    {
        match check_toggle_port(port) {
            Err(e) => Err(e),
            Ok(()) => Ok(self.retire()),
        }
    }

    /// Completes an enable request after binding: a started instance is
    /// installed and reported; a bind failure leaves the slot empty.
    pub fn finish_start(&mut self, port: u16, started: Result<H, String>) -> (r: Result<String, GatewayError>)
        requires
            old(self).live_port() is None,
        ensures
            started is Ok ==> final(self).live_port() == Some(port) && r is Ok && r->Ok_0@ == msg_started(port),
            started is Err ==> final(self).live_port() is None && r is Err
                && r->Err_0 == (GatewayError::Bind { port, reason: started->Err_0 }),
    {
        match started {
            Ok(handle) => {
                self.install(port, handle);
                finish_bind(port, Ok(()))
            },
            Err(reason) => finish_bind(port, Err(reason)),
        }
    }

    /// Installs a freshly started instance into the empty slot.
    pub fn install(&mut self, port: u16, handle: H)
        requires
            old(self).live_port() is None,
        ensures
            final(self).live_port() == Some(port),
    {
        self.live = Some(LiveServer { port, handle });
    }
}

/// What the caller does next after the previous instance was retired.
#[derive(Debug)]
pub enum ToggleAction {
    /// Answer the request now.
    Reply(Result<String, GatewayError>),
    /// Bind a listener on all interfaces at this port, then report back
    /// through `ServerSlot::finish_start`.
    Bind { port: u16 },
}

/// Whether a toggle request may proceed to retiring the live instance:
/// port 0 is refused first.
pub open spec fn port_accepted(port: u16) -> bool {
    port != 0
}

/// Checks the requested port before anything is torn down.
pub fn check_toggle_port(port: u16) -> (r: Result<(), GatewayError>)
    ensures
        r is Ok <==> port_accepted(port),
        r is Err ==> r->Err_0 is InvalidPort,
{
    if port == 0 {
        Err(GatewayError::InvalidPort)
    } else {
        Ok(())
    }
}

/// The decision taken once the previous instance is retired: a disable
/// request is answered with the stopped status; an enable request needs the
/// data store and then proceeds to binding.
pub open spec fn after_retire_spec(enable: bool, port: u16, store_ready: bool) -> AfterRetire {
    if !enable {
        AfterRetire::Stopped
    } else if !store_ready {
        AfterRetire::StoreMissing
    } else {
        AfterRetire::Bind(port)
    }
}

/// The abstract shape of `ToggleAction` after retirement.
pub ghost enum AfterRetire {
    Stopped,
    StoreMissing,
    Bind(u16),
}

pub open spec fn action_matches(a: ToggleAction, s: AfterRetire) -> bool {
    match s {
        AfterRetire::Stopped => a is Reply && a->Reply_0 is Ok && a->Reply_0->Ok_0@ == msg_stopped(),
        AfterRetire::StoreMissing => a is Reply && a->Reply_0 is Err && a->Reply_0->Err_0 is StoreNotReady,
        AfterRetire::Bind(p) => a is Bind && a->port == p,
    }
}

pub fn after_retire(enable: bool, port: u16, store_ready: bool) -> (r: ToggleAction)
    ensures
        action_matches(r, after_retire_spec(enable, port, store_ready)),
{
    if !enable {
        ToggleAction::Reply(Ok(String::from_str("局域网共享服务已关闭")))
    } else if !store_ready {
        ToggleAction::Reply(Err(GatewayError::StoreNotReady))
    } else {
        ToggleAction::Bind { port }
    }
}

/// The checks that precede starting a server on `port`: the port must be
/// non-zero and the data store ready; the result is the port to bind.
pub fn start_lan_server(port: u16, store_ready: bool) -> (r: Result<u16, GatewayError>)
    ensures
        port == 0 ==> r is Err && r->Err_0 is InvalidPort,
        port != 0 && !store_ready ==> r is Err && r->Err_0 is StoreNotReady,
        port != 0 && store_ready ==> r == Ok::<u16, GatewayError>(port),
{
    match check_toggle_port(port) {
        Err(e) => Err(e),
        Ok(()) => match after_retire(true, port, store_ready) {
            ToggleAction::Bind { port } => Ok(port),
            ToggleAction::Reply(Err(e)) => Err(e),
            ToggleAction::Reply(Ok(_)) => Err(GatewayError::StoreNotReady),
        },
    }
}

/// Turns the result of binding into the reply. On `Ok` the caller has
/// spawned the server and installed it in the slot.
pub fn finish_bind(port: u16, bound: Result<(), String>) -> (r: Result<String, GatewayError>)
    ensures
        bound is Ok ==> r is Ok && r->Ok_0@ == msg_started(port),
        bound is Err ==> r is Err && r->Err_0 == (GatewayError::Bind { port, reason: bound->Err_0 }),
{
    match bound {
        Ok(()) => {
            let mut out = String::from_str("局域网共享服务已启动，端口 ");
            push_decimal(&mut out, port as u64);
            Ok(out)
        },
        Err(reason) => Err(GatewayError::Bind { port, reason }),
    }
}

/// What one complete toggle call does to the slot, given the port and mode
/// requested and what the outside world reported (whether the data store was
/// ready, whether binding succeeded).
pub ghost struct ToggleEffect {
    /// Port of the instance that was retired by this call, if any.
    pub retired: Option<u16>,
    /// Port of the live instance after the call.
    pub live: Option<u16>,
    /// Whether the call answered with `Ok`.
    pub succeeded: bool,
}

/// One toggle call composed from `ServerSlot::begin_toggle`, `after_retire`
/// and `ServerSlot::finish_start`, over the slot's `live_port`.
pub open spec fn toggle_effect(
    live: Option<u16>,
    enable: bool,
    port: u16,
    store_ready: bool,
    bind_ok: bool,
) -> ToggleEffect {
    if !port_accepted(port) {
        ToggleEffect { retired: None, live, succeeded: false }
    } else {
        match after_retire_spec(enable, port, store_ready) {
            AfterRetire::Stopped => ToggleEffect { retired: live, live: None, succeeded: true },
            AfterRetire::StoreMissing => ToggleEffect { retired: live, live: None, succeeded: false },
            AfterRetire::Bind(p) => if bind_ok {
                ToggleEffect { retired: live, live: Some(p), succeeded: true }
            } else {
                ToggleEffect { retired: live, live: None, succeeded: false }
            },
        }
    }
}

/// Disabling twice in a row never fails, and the second call finds nothing
/// to tear down: the slot is already empty.
pub proof fn disable_twice_is_idempotent(
    live: Option<u16>,
    port: u16,
    ready1: bool,
    bound1: bool,
    ready2: bool,
    bound2: bool,
)
    requires
        port != 0,
    ensures
        ({
            let first = toggle_effect(live, false, port, ready1, bound1);
            let second = toggle_effect(first.live, false, port, ready2, bound2);
            &&& first.succeeded
            &&& first.live is None
            &&& second.succeeded
            &&& second.retired is None
            &&& second.live is None
        }),
{
}

/// Enabling on port `a` and then on port `b` leaves exactly one live
/// instance, on `b`; the second call retired the instance on `a` before
/// binding.
pub proof fn enable_twice_retires_first(live: Option<u16>, a: u16, b: u16)
    requires
        a != 0,
        b != 0,
    ensures
        ({
            let first = toggle_effect(live, true, a, true, true);
            let second = toggle_effect(first.live, true, b, true, true);
            &&& first.live == Some(a)
            &&& second.retired == Some(a)
            &&& second.live == Some(b)
            &&& second.succeeded
        }),
{
}

/// A call that fails leaves no live instance behind, except a rejected port,
/// which touches nothing.
pub proof fn failed_toggle_installs_nothing(
    live: Option<u16>,
    enable: bool,
    port: u16,
    store_ready: bool,
    bind_ok: bool,
)
    ensures
        ({
            let e = toggle_effect(live, enable, port, store_ready, bind_ok);
            !e.succeeded ==> (if port == 0 { e.live == live } else { e.live is None })
        }),
{
}

} // verus!

//! Commissionable Matter backend: what it knows of the Matter stack, and what it decides.
//!
//! The stack runs on a thread of its own. Its start, its end and the pairing window are
//! told here as they happen.
use super::backend;
use super::backend::clamp_pairing_timeout;
use super::commissioning::CommissioningMaterial;
use super::lan_netif::LanNetifs;
use super::pairing;
use super::pairing::pairing_material_for;
use super::pairing_window::{PairingWindow, WindowRequest};
use crate::catalog::model;
use crate::catalog::model::{clone_text, PairingView};
use crate::catalog::PairingMaterial;
use vstd::prelude::*;
use vstd::string::*;

verus! {

/// How the start of the Matter stack came out.
#[derive(Debug)]
pub enum StackReady {
    /// The stack is ready.
    Ready,
    /// The stack gave up, and why.
    Failed(String),
    /// The stack did not tell in time.
    TimedOut,
}

impl StackReady {
    /// What went wrong, as the status reports it.
    pub open spec fn fault(self) -> Option<Seq<char>> {
        match self {
            StackReady::Ready => None,
            StackReady::Failed(m) => Some(m@),
            StackReady::TimedOut => Some("Matter stack start timed out"@),
        }
    }

    /// What went wrong, as the caller is told.
    pub open spec fn refusal(self) -> Option<Seq<char>> {
        match self {
            StackReady::Ready => None,
            StackReady::Failed(m) => Some("Matter stack failed to start: "@ + m@),
            StackReady::TimedOut => Some("Matter stack start timed out"@),
        }
    }
}

/// What the backend knows of the Matter stack.
#[derive(Debug)]
pub struct RsMatterBackend {
    pub running: bool,
    /// Whether the stack has ended since it was last being started.
    pub ended: bool,
    /// What went wrong last.
    pub error: Option<String>,
    /// Interface selection.
    pub netifs: LanNetifs,
    pub window: PairingWindow,
    /// What the stack is started with.
    pub commissioning: CommissioningMaterial,
    /// The codes that are shown for it.
    pub pairing: PairingMaterial,
}

/// What an [`RsMatterBackend`] holds.
#[verifier::ext_equal]
pub struct RsMatterView {
    pub running: bool,
    pub ended: bool,
    pub error: Option<Seq<char>>,
    pub pin: Option<Seq<char>>,
    pub window: PairingWindow,
    pub commissioning: CommissioningMaterial,
    pub pairing: PairingView,
}

impl View for RsMatterBackend {
    type V = RsMatterView;

    open spec fn view(&self) -> RsMatterView {
        RsMatterView {
            running: self.running,
            ended: self.ended,
            error: model::opt_text(self.error),
            pin: self.netifs.pinned(),
            window: self.window,
            commissioning: self.commissioning,
            pairing: self.pairing@,
        }
    }
}

/// A backend whose stack is being started.
pub open spec fn begun(v: RsMatterView) -> RsMatterView {
    RsMatterView { ended: false, ..v }
}

/// A backend whose stack has told that it is ready; it runs unless it has ended since.
pub open spec fn found_ready(v: RsMatterView) -> RsMatterView {
    RsMatterView { running: !v.ended, ..v }
}

/// A backend whose stack has ended, with an error or without.
pub open spec fn found_ended(v: RsMatterView, error: Option<Seq<char>>) -> RsMatterView {
    RsMatterView {
        running: false,
        ended: true,
        error: if error is Some {
            error
        } else {
            v.error
        },
        ..v
    }
}

impl RsMatterBackend {
    /// A backend whose stack has not been started. An interface name that is empty or white
    /// space alone pins nothing.
    pub fn new(mdns_interface: Option<String>, commissioning: CommissioningMaterial) -> (r: Self)
        requires
            pairing::has_code(commissioning.passcode, commissioning.discriminator),
        ensures
            r@ == (RsMatterView {
                running: false,
                ended: false,
                error: None,
                pin: match mdns_interface {
                    Some(p) => if crate::text::trimmed(p@).len() == 0 {
                        None
                    } else {
                        Some(crate::text::trimmed(p@))
                    },
                    None => None,
                },
                window: PairingWindow { deadline: 0, fabrics: 0, request: None },
                commissioning,
                pairing: pairing::shown(commissioning),
            }),
    {
        RsMatterBackend {
            running: false,
            ended: false,
            error: None,
            netifs: LanNetifs::new(mdns_interface),
            window: PairingWindow { deadline: 0, fabrics: 0, request: None },
            commissioning,
            pairing: pairing_material_for(&commissioning),
        }
    }

    /// Whether the stack is still to be started.
    pub fn start_needed(&self) -> (r: bool)
        ensures
            r == !self@.running,
    {
        !self.running
    }

    /// Takes note that the stack is being started.
    pub fn starting(&mut self)
        ensures
            final(self)@ == begun(old(self)@),
    {
        self.ended = false;
    }

    /// Takes note of how the start came out. A stack that was ready and has already ended
    /// does not run.
    pub fn started(&mut self, ready: StackReady) -> (r: Result<(), String>)
        ensures
            match r {
                Ok(_) => ready.refusal() is None && final(self)@ == found_ready(old(self)@),
                Err(m) => ready.refusal() == Some(m@) && final(self)@ == (RsMatterView {
                    error: ready.fault(),
                    ..old(self)@
                }),
            },
    {
        match ready {
            StackReady::Ready => {
                self.running = !self.ended;
                Ok(())
            },
            StackReady::Failed(m) => {
                let told: String = "Matter stack failed to start: ".to_owned().concat(m.as_str());
                self.error = Some(m);
                Err(told)
            },
            StackReady::TimedOut => {
                self.error = Some("Matter stack start timed out".to_owned());
                Err("Matter stack start timed out".to_owned())
            },
        }
    }

    /// Takes note that the stack has ended, so that the bridge no longer counts as well.
    pub fn stack_ended(&mut self, error: Option<String>)
        ensures
            final(self)@ == found_ended(old(self)@, model::opt_text(error)),
    {
        self.running = false;
        self.ended = true;
        if error.is_some() {
            self.error = error;
        }
    }

    /// Whether the stack runs.
    pub fn is_running(&self) -> (r: bool)
        ensures
            r == self@.running,
    {
        self.running
    }

    /// Setup code and QR payload of this install.
    pub fn pairing_info(&self) -> (r: PairingMaterial)
        ensures
            r@ == self@.pairing,
    {
        self.pairing.clone()
    }

    /// What went wrong last.
    pub fn status_error(&self) -> (r: Option<String>)
        ensures
            model::opt_text(r) == self@.error,
    {
        clone_text(&self.error)
    }

    /// Asks the stack to open its pairing window for the clamped timeout, which needs a
    /// running stack. Says whether there is something for the stack to do.
    pub fn open_pairing_window(&mut self, now: u64, timeout_secs: u16) -> (r: Result<bool, String>)
        ensures
            match r {
                Err(m) => !old(self)@.running && m@ == "Matter stack is not running"@
                    && final(self)@ == old(self)@,
                Ok(asked) => {
                    &&& old(self)@.running
                    &&& asked == !backend::open_at(old(self)@.window.deadline, now)
                    &&& final(self)@ == (RsMatterView {
                        window: if asked {
                            PairingWindow {
                                request: Some(
                                    WindowRequest::Open(backend::clamped_timeout(timeout_secs)),
                                ),
                                ..old(self)@.window
                            }
                        } else {
                            old(self)@.window
                        },
                        ..old(self)@
                    })
                },
            },
    {
        if !self.running {
            return Err("Matter stack is not running".to_owned());
        }
        Ok(self.window.request_open_window(now, clamp_pairing_timeout(timeout_secs)))
    }

    /// Asks the stack to close its pairing window, which needs a running stack.
    pub fn close_pairing_window(&mut self) -> (r: Result<(), String>)
        ensures
            match r {
                Err(m) => !old(self)@.running && m@ == "Matter stack is not running"@
                    && final(self)@ == old(self)@,
                Ok(_) => old(self)@.running && final(self)@ == (RsMatterView {
                    window: PairingWindow {
                        request: Some(WindowRequest::Close),
                        ..old(self)@.window
                    },
                    ..old(self)@
                }),
            },
    {
        if !self.running {
            return Err("Matter stack is not running".to_owned());
        }
        self.window.request_close_window();
        Ok(())
    }
}

/// A stack that is ready runs, and one that has ended does not, in whatever order its being
/// ready and its end are told.
pub proof fn law_ended_stack_does_not_run(v: RsMatterView, error: Option<Seq<char>>)
    ensures
        found_ready(begun(v)).running,
        !found_ended(found_ready(begun(v)), error).running,
        !found_ready(found_ended(begun(v), error)).running,
        found_ended(found_ready(begun(v)), error) == found_ready(found_ended(begun(v), error)),
{
}

/// A start that failed tells its reason in the status as it is, and to the caller behind words
/// of the bridge; one that timed out tells both the same; a ready stack tells nothing.
pub proof fn law_start_messages(m: String)
    ensures
        StackReady::Ready.fault() is None,
        StackReady::Ready.refusal() is None,
        StackReady::Failed(m).fault() == Some(m@),
        StackReady::Failed(m).refusal() == Some("Matter stack failed to start: "@ + m@),
        StackReady::TimedOut.fault() == Some("Matter stack start timed out"@),
        StackReady::TimedOut.refusal() == StackReady::TimedOut.fault(),
{
}

/// Starting and ending touch nothing but whether the stack runs, whether it has ended and what
/// went wrong last; an end without an error keeps the last error.
pub proof fn law_stack_events(v: RsMatterView, e: Seq<char>)
    ensures
        begun(v).running == v.running && begun(v).error == v.error && begun(v).pin == v.pin
            && begun(v).window == v.window && begun(v).commissioning == v.commissioning && begun(
            v,
        ).pairing == v.pairing && !begun(v).ended,
        found_ready(v).ended == v.ended && found_ready(v).error == v.error && found_ready(v).pin
            == v.pin && found_ready(v).window == v.window && found_ready(v).commissioning
            == v.commissioning && found_ready(v).pairing == v.pairing,
        found_ended(v, None).error == v.error,
        found_ended(v, Some(e)).error == Some(e),
        found_ended(v, Some(e)).ended && found_ended(v, None).ended,
        found_ended(v, Some(e)).pin == v.pin && found_ended(v, Some(e)).window == v.window
            && found_ended(v, Some(e)).commissioning == v.commissioning && found_ended(
            v,
            Some(e),
        ).pairing == v.pairing,
{
}

/// What a backend knows is what its fields hold.
pub proof fn law_backend_contents(b: RsMatterBackend)
    ensures
        b@.running == b.running,
        b@.ended == b.ended,
        b.error is Some ==> b@.error == Some(b.error->0@),
        b.error is None ==> b@.error is None,
        b.netifs.pin is Some ==> b@.pin == Some(b.netifs.pin->0@),
        b.netifs.pin is None ==> b@.pin is None,
        b@.window == b.window,
        b@.commissioning == b.commissioning,
        b@.pairing.setup_code == b.pairing.setup_code@,
        b@.pairing.qr_payload == b.pairing.qr_payload@,
        b@.pairing.discriminator == b.pairing.discriminator,
        b@.pairing.passcode == b.pairing.passcode,
{
}

} // verus!

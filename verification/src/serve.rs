//! The life of the gateway's two listeners, from validation to shutdown.

use crate::config::{GatewayConfig, ListenAddr, ValidatedConfig, ValidatedModel};
use crate::error::ServingError;
use vstd::prelude::*;

verus! {

/// How far a run has come.
#[derive(Clone, Copy, Debug, PartialEq, Eq, Structural)]
pub enum ServePhase {
    /// The public listener is to be bound.
    BindingPublic,
    /// The public listener is bound, the admin listener is to be.
    BindingAdmin,
    /// Both listeners are bound, and both servers serve.
    Serving,
    /// Both servers have stopped.
    Stopped,
}

/// What is to be done next in a run.
#[derive(Clone, Copy, Debug)]
pub enum ServeAction {
    /// Bind the public listener to this address.
    BindPublic(ListenAddr),
    /// Bind the admin listener to this address.
    BindAdmin(ListenAddr),
    /// Serve on both listeners until shutdown.
    Serve,
    /// Nothing: the run is over.
    Finish,
}

/// What happens in a run.
#[derive(Debug)]
pub enum ServeEvent {
    /// The listener that was to be bound is bound.
    Bound,
    /// The listener that was to be bound could not be.
    BindFailed(std::io::Error),
    /// Both servers have stopped without an error.
    ServersStopped,
    /// The public proxy server failed.
    ProxyFailed(std::io::Error),
    /// The admin server failed.
    AdminFailed(std::io::Error),
}

/// The event can happen in the phase.
pub open spec fn can_happen(phase: ServePhase, event: ServeEvent) -> bool {
    match event {
        ServeEvent::Bound | ServeEvent::BindFailed(_) => phase == ServePhase::BindingPublic || phase
            == ServePhase::BindingAdmin,
        ServeEvent::ServersStopped | ServeEvent::ProxyFailed(_) | ServeEvent::AdminFailed(_) => phase
            == ServePhase::Serving,
    }
}

/// What an event leads to: the next phase, or the error that ends the run.
pub open spec fn serve_step(phase: ServePhase, event: ServeEvent) -> Result<ServePhase, ServingError> {
    match event {
        ServeEvent::Bound => if phase == ServePhase::BindingPublic {
            Ok(ServePhase::BindingAdmin)
        } else {
            Ok(ServePhase::Serving)
        },
        ServeEvent::BindFailed(error) => Err(ServingError::BindFailed(error)),
        ServeEvent::ServersStopped => Ok(ServePhase::Stopped),
        ServeEvent::ProxyFailed(error) => Err(ServingError::ProxyServerFailed(error)),
        ServeEvent::AdminFailed(error) => Err(ServingError::AdminServerFailed(error)),
    }
}

/// What is to be done in a phase.
pub open spec fn phase_action(config: ValidatedModel, phase: ServePhase) -> ServeAction {
    match phase {
        ServePhase::BindingPublic => ServeAction::BindPublic(config.listen_addr),
        ServePhase::BindingAdmin => ServeAction::BindAdmin(config.admin_addr),
        ServePhase::Serving => ServeAction::Serve,
        ServePhase::Stopped => ServeAction::Finish,
    }
}

/// A run of the public proxy listener and the separate admin listener.
#[derive(Debug)]
pub struct ServeRun {
    config: ValidatedConfig,
    phase: ServePhase,
}

impl ServeRun {
    /// The configuration of the run.
    pub closed spec fn settings(&self) -> ValidatedModel {
        self.config@
    }

    /// How far the run has come.
    pub closed spec fn reached(&self) -> ServePhase {
        self.phase
    }

    /// The configuration of the run.
    pub fn config(&self) -> (config: &ValidatedConfig)
        ensures
            config@ == self.settings(),
    {
        &self.config
    }

    /// What is to be done next.
    pub fn action(&self) -> (action: ServeAction)
        ensures
            action == phase_action(self.settings(), self.reached()),
    {
        match self.phase {
            ServePhase::BindingPublic => ServeAction::BindPublic(self.config.listen_addr()),
            ServePhase::BindingAdmin => ServeAction::BindAdmin(self.config.admin_addr()),
            ServePhase::Serving => ServeAction::Serve,
            ServePhase::Stopped => ServeAction::Finish,
        }
    }

    /// Takes the run one step on, or ends it with an error.
    pub fn advance(self, event: ServeEvent) -> (next: Result<ServeRun, ServingError>)
        requires
            can_happen(self.reached(), event),
        ensures
            match next {
                Ok(run) => run.settings() == self.settings() && serve_step(self.reached(), event) == Ok::<
                    ServePhase,
                    ServingError,
                >(run.reached()),
                Err(error) => serve_step(self.reached(), event) == Err::<ServePhase, ServingError>(error),
            },
    {
        match event {
            ServeEvent::Bound => {
                let phase = match self.phase {
                    ServePhase::BindingPublic => ServePhase::BindingAdmin,
                    _ => ServePhase::Serving,
                };
                Ok(ServeRun { config: self.config, phase })
            },
            ServeEvent::BindFailed(error) => Err(ServingError::BindFailed(error)),
            ServeEvent::ServersStopped => Ok(ServeRun { config: self.config, phase: ServePhase::Stopped }),
            ServeEvent::ProxyFailed(error) => Err(ServingError::ProxyServerFailed(error)),
            ServeEvent::AdminFailed(error) => Err(ServingError::AdminServerFailed(error)),
        }
    }
}

/// Begins a run of the public proxy listener and the separate admin listener
/// that lasts until shutdown. The configuration is validated first. The caller
/// does what `ServeRun::action` says and hands what happened to
/// `ServeRun::advance`, until the run finishes or ends with an error.
pub fn serve_until_shutdown(config: &GatewayConfig) -> (run: Result<ServeRun, ServingError>)
    ensures
        ({
            let validated = crate::config::validation(*config, crate::uri::uri_components(config.origin_url@));
            match run {
                Ok(run) => validated == Ok::<ValidatedModel, ServingError>(run.settings()) && run.reached()
                    == ServePhase::BindingPublic && crate::uri::is_authority_text(run.settings().origin_authority),
                Err(error) => validated == Err::<ValidatedModel, ServingError>(error),
            }
        }),
{
    match config.validate() {
        Ok(config) => Ok(ServeRun { config, phase: ServePhase::BindingPublic }),
        Err(error) => Err(error),
    }
}

/// What the events lead to from the start of a run: a phase or the error that
/// ends the run, `None` where one of them cannot happen.
pub open spec fn outcome(events: Seq<ServeEvent>) -> Option<Result<ServePhase, ServingError>>
    decreases events.len(),
{
    if events.len() == 0 {
        Some(Ok(ServePhase::BindingPublic))
    } else {
        match outcome(events.drop_last()) {
            Some(Ok(phase)) => if can_happen(phase, events.last()) {
                Some(serve_step(phase, events.last()))
            } else {
                None
            },
            _ => None,
        }
    }
}

/// Startup is all-or-nothing: nothing is served, in any state that a run can
/// reach, unless the public listener was bound and then the admin listener was.
pub proof fn startup_is_all_or_nothing(events: Seq<ServeEvent>)
    requires
        outcome(events) matches Some(Ok(phase)) && (phase == ServePhase::Serving || phase == ServePhase::Stopped),
    ensures
        events.len() >= 2,
        events[0] == ServeEvent::Bound,
        events[1] == ServeEvent::Bound,
    decreases events.len(),
{
    let earlier = events.drop_last();
    reveal_with_fuel(outcome, 4);
    if events.last() is ServersStopped {
        startup_is_all_or_nothing(earlier);
        assert(earlier[0] == events[0] && earlier[1] == events[1]);
    } else {
        assert(events.last() == ServeEvent::Bound);
        lemma_binding_admin(earlier);
        assert(earlier[0] == events[0]);
    }
}

/// The admin listener is the second to be bound.
proof fn lemma_binding_admin(events: Seq<ServeEvent>)
    requires
        outcome(events) == Some(Ok::<ServePhase, ServingError>(ServePhase::BindingAdmin)),
    ensures
        events.len() == 1,
        events[0] == ServeEvent::Bound,
{
    let earlier = events.drop_last();
    assert(outcome(earlier) == Some(Ok::<ServePhase, ServingError>(ServePhase::BindingPublic)));
    if earlier.len() > 0 {
        assert(outcome(earlier.drop_last()) is Some);
    }
}

/// A listener that cannot be bound ends the run with that error, and until
/// then nothing was served.
pub proof fn failed_bind_ends_the_run(events: Seq<ServeEvent>, error: std::io::Error, served: int)
    requires
        outcome(events) is Some,
        events.len() > 0,
        events.last() == ServeEvent::BindFailed(error),
        0 <= served < events.len(),
    ensures
        outcome(events) == Some(Err::<ServePhase, ServingError>(ServingError::BindFailed(error))),
        outcome(events.take(served)) != Some(Ok::<ServePhase, ServingError>(ServePhase::Serving)),
{
    let earlier = events.drop_last();
    if outcome(earlier) == Some(Ok::<ServePhase, ServingError>(ServePhase::BindingAdmin)) {
        lemma_binding_admin(earlier);
    } else if earlier.len() > 0 {
        assert(outcome(earlier.drop_last()) is Some);
    }
    if outcome(events.take(served)) == Some(Ok::<ServePhase, ServingError>(ServePhase::Serving)) {
        startup_is_all_or_nothing(events.take(served));
    }
}

/// What a waiting server learns of the shutdown flag.
#[derive(Clone, Copy, Debug)]
pub enum ShutdownEvent {
    /// The flag has this value.
    Flag(bool),
    /// The flag was written.
    Changed,
    /// The side that writes the flag is gone.
    SenderGone,
}

/// What a waiting server does next.
#[derive(Clone, Copy, Debug)]
pub enum ShutdownAction {
    /// Read the flag.
    ReadFlag,
    /// Wait until the flag is written.
    AwaitChange,
    /// Shut down.
    Stop,
}

/// What a waiting server does next: it shuts down once the flag is set or
/// nobody can set it any more.
pub fn shutdown_signal(event: ShutdownEvent) -> (action: ShutdownAction)
    ensures
        action == (match event {
            ShutdownEvent::Flag(true) => ShutdownAction::Stop,
            ShutdownEvent::Flag(false) => ShutdownAction::AwaitChange,
            ShutdownEvent::Changed => ShutdownAction::ReadFlag,
            ShutdownEvent::SenderGone => ShutdownAction::Stop,
        }),
{
    match event {
        ShutdownEvent::Flag(set) => {
            if set {
                ShutdownAction::Stop
            } else {
                ShutdownAction::AwaitChange
            }
        },
        ShutdownEvent::Changed => ShutdownAction::ReadFlag,
        ShutdownEvent::SenderGone => ShutdownAction::Stop,
    }
}

/// The addresses that a run asks for are those of the configuration it was given:
/// first its `listen_addr`, for the public listener, then, once that is bound,
/// its `admin_addr`, for the admin listener. Once that is bound too it serves,
/// and once the servers have stopped it is over.
pub proof fn configured_addresses_are_bound_in_order(
    config: GatewayConfig,
    origin: Option<(Option<Seq<char>>, Option<Seq<char>>, Option<Seq<char>>)>,
    model: ValidatedModel,
)
    requires
        crate::config::validation(config, origin) == Ok::<ValidatedModel, ServingError>(model),
    ensures
        phase_action(model, ServePhase::BindingPublic) == ServeAction::BindPublic(config.listen_addr),
        serve_step(ServePhase::BindingPublic, ServeEvent::Bound) matches Ok(second) && phase_action(model, second)
            == ServeAction::BindAdmin(config.admin_addr) && (serve_step(second, ServeEvent::Bound) matches Ok(
            third,
        ) && phase_action(model, third) == ServeAction::Serve && (serve_step(third, ServeEvent::ServersStopped) matches Ok(
            fourth,
        ) && phase_action(model, fourth) == ServeAction::Finish)),
{
}

/// What is to be done in each phase, whatever the configuration.
pub proof fn each_phase_has_its_action(model: ValidatedModel, phase: ServePhase, action: ServeAction)
    requires
        action == phase_action(model, phase),
    ensures
        match action {
            ServeAction::BindPublic(addr) => phase == ServePhase::BindingPublic && addr == model.listen_addr,
            ServeAction::BindAdmin(addr) => phase == ServePhase::BindingAdmin && addr == model.admin_addr,
            ServeAction::Serve => phase == ServePhase::Serving,
            ServeAction::Finish => phase == ServePhase::Stopped,
        },
{
}

/// A run goes on one phase at a time, and ends with the error that happened, for
/// the part of it in which it happened, and for no other reason.
pub proof fn run_goes_on_or_ends_with_its_error(phase: ServePhase, event: ServeEvent)
    requires
        can_happen(phase, event),
    ensures
        match serve_step(phase, event) {
            Ok(ServePhase::BindingPublic) => false,
            Ok(ServePhase::BindingAdmin) => phase == ServePhase::BindingPublic && event == ServeEvent::Bound,
            Ok(ServePhase::Serving) => phase == ServePhase::BindingAdmin && event == ServeEvent::Bound,
            Ok(ServePhase::Stopped) => phase == ServePhase::Serving && event == ServeEvent::ServersStopped,
            Err(ServingError::BindFailed(error)) => event == ServeEvent::BindFailed(error),
            Err(ServingError::ProxyServerFailed(error)) => event == ServeEvent::ProxyFailed(error),
            Err(ServingError::AdminServerFailed(error)) => event == ServeEvent::AdminFailed(error),
            Err(_) => false,
        },
{
}

/// A bind succeeds or fails while a listener is to be bound, and servers stop or
/// fail while they serve, and at no other time.
pub proof fn events_have_their_time(phase: ServePhase, event: ServeEvent)
    ensures
        can_happen(phase, event) <==> match event {
            ServeEvent::Bound => phase == ServePhase::BindingPublic || phase == ServePhase::BindingAdmin,
            ServeEvent::BindFailed(_) => phase == ServePhase::BindingPublic || phase == ServePhase::BindingAdmin,
            ServeEvent::ServersStopped => phase == ServePhase::Serving,
            ServeEvent::ProxyFailed(_) => phase == ServePhase::Serving,
            ServeEvent::AdminFailed(_) => phase == ServePhase::Serving,
        },
{
}

} // verus!

use vstd::prelude::*;
use crate::apply::{
    Applicator, BaselineState, DeviceAction, DeviceReply, Stage, baseline_command_spec, steps_to,
    effect_command_spec,
};
use crate::color::native_color;
use crate::config::{
    EventConfig, ConfigError, LightEffect, check_config, config_error, lemma_resolve_deterministic,
    resolve, resolves,
};
use crate::error::DeviceError;
use crate::event::{EventKind, RawEvent, decodes_to};
use crate::queue::{EventQueue, Ingested, QueueError, QUEUE_CAPACITY, ingest, ingested_as};

verus! {

/// The lifecycle of the pipeline.
#[derive(Debug, Clone, Copy, PartialEq, Eq, Structural)]
pub enum Phase {
    /// Device and transport are being connected; no event is taken yet.
    Starting,
    /// Events are queued and applied one at a time.
    Running,
    /// Shutdown was asked for: the queue is closed and emptied, and the
    /// application in flight runs to its end.
    Draining,
    /// Nothing is left to do.
    Stopped,
}

/// What the worker is to do next.
#[derive(Debug, Clone, Copy)]
pub enum Work {
    /// Nothing is queued: wait for an event or for shutdown.
    Idle,
    /// Perform this device action and report the reply.
    Device(DeviceAction),
    /// An event of this kind was taken and calls for no effect.
    NoEffect(EventKind),
    /// An event's effect could not be started; it is skipped.
    Failed(DeviceError),
    /// An application ended with this outcome.
    Applied(Result<(), DeviceError>),
    /// The pipeline has stopped.
    Stop,
}

/// The pipeline's decisions: which event to take, what to apply, when to
/// stop. It performs no I/O; its owner performs each device action and
/// reports back, and hands it each pushed payload.
pub struct Coordinator {
    pub phase: Phase,
    pub queue: EventQueue,
    pub current: Option<Applicator>,
    pub config: EventConfig,
    pub baseline: BaselineState,
}

impl Coordinator {
    pub open spec fn wf(&self) -> bool {
        &&& self.queue.wf()
        &&& (self.current matches Some(a) ==> a.wf())
        &&& (self.phase is Starting ==> self.current is None)
        &&& (!(self.phase is Running) ==> self.queue@.len() == 0)
        &&& (self.phase is Starting || self.phase is Running ==> !self.queue.is_closed_spec())
    }

    /// A coordinator in its starting phase, for a configuration that passes
    /// its startup check; the configuration's fault otherwise.
    pub fn new(config: EventConfig, baseline: BaselineState) -> (r: Result<Coordinator, ConfigError>)
        ensures
            config_error(config) matches Some(e) ==> r == Err::<Coordinator, ConfigError>(e),
            config_error(config) is None ==> (r matches Ok(c) && {
                &&& c.wf()
                &&& c.phase == Phase::Starting
                &&& c.queue@.len() == 0
                &&& c.current is None
                &&& c.config == config
                &&& c.baseline == baseline
            }),
    {
        match check_config(&config) {
            Err(e) => Err(e),
            Ok(()) => Ok(
                Coordinator {
                    phase: Phase::Starting,
                    queue: EventQueue::new(),
                    current: None,
                    config,
                    baseline,
                },
            ),
        }
    }

    /// Device and transport are up: events are taken from now on.
    pub fn started(&mut self)
        requires
            old(self).wf(),
        ensures
            final(self).wf(),
            old(self).phase is Starting ==> final(self).phase == Phase::Running,
            !(old(self).phase is Starting) ==> final(self).phase == old(self).phase,
            final(self).queue@ == old(self).queue@,
            final(self).current == old(self).current,
    {
        if matches!(self.phase, Phase::Starting) {
            self.phase = Phase::Running;
        }
    }

    /// Hands over a pushed payload. Only a running pipeline takes events.
    pub fn offer(&mut self, raw: &RawEvent) -> (r: Ingested)
        requires
            old(self).wf(),
        ensures
            final(self).wf(),
            final(self).phase == old(self).phase,
            final(self).current == old(self).current,
            !(old(self).phase is Running) ==> r == Ingested::Dropped(QueueError::Closed)
                && final(self).queue@ == old(self).queue@,
            !(r is Queued) ==> final(self).queue@ == old(self).queue@,
            r is Queued ==> final(self).queue@ == old(self).queue@.push(final(self).queue@.last())
                && decodes_to(*raw, final(self).queue@.last()),
            old(self).phase is Running ==> ingested_as(
                *raw,
                old(self).queue@.len() as int,
                false,
                r,
            ),
            final(self).queue@.len() <= QUEUE_CAPACITY,
    {
        if !matches!(self.phase, Phase::Running) {
            return Ingested::Dropped(QueueError::Closed);
        }
        ingest(&mut self.queue, raw)
    }

    /// Shutdown was asked for: the queue is closed and what waits in it is
    /// discarded; an application in flight still runs to its end.
    pub fn shutdown(&mut self)
        requires
            old(self).wf(),
        ensures
            final(self).wf(),
            old(self).phase is Stopped ==> final(self).phase == Phase::Stopped,
            !(old(self).phase is Stopped) ==> final(self).phase == Phase::Draining,
            final(self).queue@.len() == 0,
            final(self).queue.is_closed_spec(),
            final(self).current == old(self).current,
    {
        self.queue.close();
        self.queue.clear();
        if !matches!(self.phase, Phase::Stopped) {
            self.phase = Phase::Draining;
        }
    }

    /// Reports the device's reply to the action last handed out.
    pub fn on_reply(&mut self, reply: DeviceReply)
        requires
            old(self).wf(),
        ensures
            final(self).wf(),
            final(self).phase == old(self).phase,
            final(self).queue@ == old(self).queue@,
            old(self).current is None ==> final(self).current is None,
            old(self).current matches Some(a) ==> (final(self).current matches Some(b)
                && steps_to(a, reply, b, b.pending)),
            final(self).config == old(self).config,
            final(self).baseline == old(self).baseline,
    {
        let mut cur = None;
        std::mem::swap(&mut cur, &mut self.current);
        match cur {
            None => {},
            Some(mut a) => {
                a.step(reply);
                self.current = Some(a);
            },
        }
    }

    /// Decides the next piece of work. An application in flight is driven
    /// to its end before any other event is taken; a draining pipeline
    /// stops once none is in flight.
    pub fn poll(&mut self) -> (w: Work)
        requires
            old(self).wf(),
        ensures
            final(self).wf(),
            old(self).current matches Some(a) ==> {
                &&& final(self).queue@ == old(self).queue@
                &&& final(self).phase == old(self).phase
                &&& !(a.stage is Done) ==> final(self).current == old(self).current
                    && w == Work::Device(a.pending)
                &&& a.stage is Done ==> final(self).current is None && (a.pending matches DeviceAction::Finish {
                    result,
                } ==> w == Work::Applied(result))
            },
            old(self).current is None && (old(self).phase is Draining || old(self).phase is Stopped)
                ==> {
                &&& w == Work::Stop
                &&& final(self).phase == Phase::Stopped
                &&& final(self).current is None
            },
            old(self).current is None && old(self).phase is Starting ==> w == Work::Idle
                && final(self).queue@ == old(self).queue@ && final(self).current is None,
            old(self).current is None && old(self).phase is Running ==> {
                &&& final(self).phase == Phase::Running
                &&& old(self).queue@.len() == 0 ==> w == Work::Idle && final(self).queue@
                    == old(self).queue@ && final(self).current is None
                &&& old(self).queue@.len() > 0 ==> final(self).queue@ == old(self).queue@.skip(1)
                &&& old(self).queue@.len() > 0 ==> forall|r: Option<&LightEffect>|
                    #[trigger] resolves(old(self).queue@[0], old(self).config, r) ==> match r {
                        None => w == Work::NoEffect(old(self).queue@[0].kind)
                            && final(self).current is None,
                        Some(effect) => match native_color(effect.color@) {
                            None => w == Work::Failed(DeviceError::InvalidColor)
                                && final(self).current is None,
                            Some(hs) => w == Work::Device(DeviceAction::ListLights) && (
                            final(self).current matches Some(b) && {
                                &&& b.effect == effect_command_spec(*effect, hs)
                                &&& b.baseline == baseline_command_spec(old(self).baseline)
                                &&& b.duration == effect.duration
                                &&& b.stage == (Stage::Listing { reset: false })
                                &&& b.pending == DeviceAction::ListLights
                            }),
                        },
                    }
            },
            final(self).config == old(self).config,
            final(self).baseline == old(self).baseline,
    {
        let mut cur = None;
        std::mem::swap(&mut cur, &mut self.current);
        match cur {
            Some(a) => {
                if !a.is_done() {
                    let act = a.action();
                    self.current = Some(a);
                    return Work::Device(act);
                }
                return match a.action() {
                    DeviceAction::Finish { result } => Work::Applied(result),
                    _ => Work::Applied(Ok(())),
                };
            },
            None => {},
        }
        match self.phase {
            Phase::Starting => Work::Idle,
            Phase::Draining | Phase::Stopped => {
                self.phase = Phase::Stopped;
                Work::Stop
            },
            Phase::Running => {
                match self.queue.dequeue() {
                    None => Work::Idle,
                    Some(event) => {
                        let found = resolve(&event, &self.config);
                        proof {
                            assert forall|r: Option<&LightEffect>|
                                #[trigger] resolves(event, self.config, r) implies r == found by {
                                lemma_resolve_deterministic(event, self.config, r, found);
                            }
                        }
                        match found {
                            None => Work::NoEffect(event.kind),
                            Some(effect) => match Applicator::start(effect, &self.baseline) {
                                Err(e) => Work::Failed(e),
                                Ok(a) => {
                                    self.current = Some(a);
                                    Work::Device(DeviceAction::ListLights)
                                },
                            },
                        }
                    },
                }
            },
        }
    }
}

} // verus!

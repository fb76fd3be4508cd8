use vstd::prelude::*;
use crate::color::{hex_to_hue, native_color};
use crate::config::{AlertMode, LightEffect};
use crate::error::DeviceError;

verus! {

/// The state every endpoint returns to after an effect.
#[derive(Debug, Clone, Copy, PartialEq, Eq, Structural)]
pub struct BaselineState {
    pub on: bool,
    pub brightness: u8,
    pub hue: u16,
    pub saturation: u8,
    pub alert: AlertMode,
}

/// A device-facing command for one endpoint.
#[derive(Debug, Clone, Copy, PartialEq, Eq, Structural)]
pub struct EffectCommand {
    pub on: bool,
    pub brightness: u8,
    pub hue: u16,
    pub saturation: u8,
    pub alert: AlertMode,
}

/// The command that shows an effect whose color converts to `(hue, sat)`.
pub open spec fn effect_command_spec(effect: LightEffect, hs: (u16, u8)) -> EffectCommand {
    EffectCommand {
        on: true,
        brightness: effect.brightness,
        hue: hs.0,
        saturation: hs.1,
        alert: effect.alert,
    }
}

pub open spec fn baseline_command_spec(b: BaselineState) -> EffectCommand {
    EffectCommand {
        on: b.on,
        brightness: b.brightness,
        hue: b.hue,
        saturation: b.saturation,
        alert: b.alert,
    }
}

/// The command that shows an effect; fails on a color that is no hex RGB.
pub fn effect_command(effect: &LightEffect) -> (r: Result<EffectCommand, DeviceError>)
    ensures
        match native_color(effect.color@) {
            Some(hs) => r == Ok::<EffectCommand, DeviceError>(effect_command_spec(*effect, hs)),
            None => r == Err::<EffectCommand, DeviceError>(DeviceError::InvalidColor),
        },
{
    let (hue, saturation) = hex_to_hue(effect.color.as_str())?;
    Ok(EffectCommand { on: true, brightness: effect.brightness, hue, saturation, alert: effect.alert })
}

impl BaselineState {
    /// The command that returns an endpoint to this state.
    pub fn command(&self) -> (c: EffectCommand)
        ensures
            c == baseline_command_spec(*self),
    {
        EffectCommand {
            on: self.on,
            brightness: self.brightness,
            hue: self.hue,
            saturation: self.saturation,
            alert: self.alert,
        }
    }
}

/// What the applicator asks of the device next.
#[derive(Debug, Clone, Copy)]
pub enum DeviceAction {
    /// Enumerate the controller's endpoints.
    ListLights,
    /// Send a command to one endpoint.
    SetState { light: usize, command: EffectCommand },
    /// Hold the effect for this many milliseconds.
    Wait { millis: u64 },
    /// The application is over, with this outcome.
    Finish { result: Result<(), DeviceError> },
}

/// What the device did about the last action.
#[derive(Debug, Clone)]
pub enum DeviceReply {
    /// The endpoints, by id.
    Lights(Vec<usize>),
    /// Enumeration failed.
    ListFailed,
    /// A command was sent; a failure of one endpoint is only logged.
    StateSet,
    /// The wait has elapsed.
    Waited,
}

/// Where an application stands.
#[derive(Debug, Clone, Copy, PartialEq, Eq, Structural)]
pub enum Stage {
    /// Enumerating endpoints, for the effect or for the reset.
    Listing { reset: bool },
    /// Sending the effect's or the baseline's command to each endpoint.
    Setting { reset: bool },
    /// Holding the effect.
    Waiting,
    /// Over.
    Done,
}

/// One run of an effect on every endpoint: show it, hold it, reset to the
/// baseline. It is driven one device action at a time.
#[derive(Debug, Clone)]
pub struct Applicator {
    pub effect: EffectCommand,
    pub baseline: EffectCommand,
    pub duration: u64,
    pub stage: Stage,
    pub lights: Vec<usize>,
    pub next: usize,
    pub pending: DeviceAction,
}

/// Whether a stage belongs to the reset half of an application.
pub open spec fn in_reset(s: Stage) -> bool {
    match s {
        Stage::Listing { reset } => reset,
        Stage::Setting { reset } => reset,
        Stage::Waiting => false,
        Stage::Done => true,
    }
}

/// The order in which stages come: effect listing and commands, wait, reset
/// listing and commands, done.
pub open spec fn phase(s: Stage) -> int {
    match s {
        Stage::Listing { reset } => if reset { 3 } else { 0 },
        Stage::Setting { reset } => if reset { 4 } else { 1 },
        Stage::Waiting => 2,
        Stage::Done => 5,
    }
}

/// One step of an application: on `reply` to its pending action, `a`
/// becomes `b`, whose pending action is `act`.
pub open spec fn steps_to(a: Applicator, reply: DeviceReply, b: Applicator, act: DeviceAction) -> bool {
    &&& b.wf()
    &&& act == b.pending
    &&& b.effect == a.effect
    &&& b.baseline == a.baseline
    &&& b.duration == a.duration
    &&& phase(a.stage) <= phase(b.stage)
    &&& match (a.stage, reply) {
        (Stage::Listing { reset }, DeviceReply::Lights(v)) => {
            &&& b.lights@ == v@
            &&& if v@.len() > 0 {
                &&& b.stage == Stage::Setting { reset }
                &&& b.next == 1
                &&& act == DeviceAction::SetState {
                    light: v@[0],
                    command: a.command_for(reset),
                }
            } else if reset {
                &&& b.stage == Stage::Done
                &&& act == DeviceAction::Finish { result: Ok(()) }
            } else {
                &&& b.stage == Stage::Waiting
                &&& act == DeviceAction::Wait { millis: a.duration }
            }
        },
        (Stage::Listing { reset }, DeviceReply::ListFailed) => {
            &&& b.stage == Stage::Done
            &&& act == DeviceAction::Finish { result: Err(DeviceError::Unreachable) }
        },
        (Stage::Setting { reset }, DeviceReply::StateSet) => {
            &&& b.lights == a.lights
            &&& if a.next < a.lights@.len() {
                &&& b.stage == a.stage
                &&& b.next == a.next + 1
                &&& act == DeviceAction::SetState {
                    light: a.lights@[a.next as int],
                    command: a.command_for(reset),
                }
            } else if reset {
                &&& b.stage == Stage::Done
                &&& act == DeviceAction::Finish { result: Ok(()) }
            } else {
                &&& b.stage == Stage::Waiting
                &&& act == DeviceAction::Wait { millis: a.duration }
            }
        },
        (Stage::Waiting, DeviceReply::Waited) => {
            &&& b.stage == Stage::Listing { reset: true }
            &&& act == DeviceAction::ListLights
        },
        _ => b == a,
    }
}

impl Applicator {
    pub open spec fn wf(&self) -> bool {
        &&& self.next <= self.lights@.len()
        &&& (self.stage is Setting ==> self.next >= 1)
        &&& (self.stage is Waiting ==> self.pending == DeviceAction::Wait { millis: self.duration })
        &&& (self.pending is SetState ==> self.stage is Setting)
        &&& (self.stage is Done <==> self.pending is Finish)
    }

    /// The command sent in the current half of the application.
    pub open spec fn command_for(&self, reset: bool) -> EffectCommand {
        if reset {
            self.baseline
        } else {
            self.effect
        }
    }

    /// Starts applying an effect. A color that is no hex RGB fails here,
    /// before any device action; otherwise the first action is to list the
    /// endpoints.
    pub fn start(effect: &LightEffect, baseline: &BaselineState) -> (r: Result<Applicator, DeviceError>)
        ensures
            native_color(effect.color@) is None ==> r == Err::<Applicator, DeviceError>(
                DeviceError::InvalidColor,
            ),
            native_color(effect.color@) matches Some(hs) ==> (r matches Ok(a) && {
                &&& a.wf()
                &&& a.effect == effect_command_spec(*effect, hs)
                &&& a.baseline == baseline_command_spec(*baseline)
                &&& a.duration == effect.duration
                &&& a.stage == Stage::Listing { reset: false }
                &&& a.pending == DeviceAction::ListLights
            }),
    {
        let effect_cmd = effect_command(effect)?;
        Ok(
            Applicator {
                effect: effect_cmd,
                baseline: baseline.command(),
                duration: effect.duration,
                stage: Stage::Listing { reset: false },
                lights: Vec::new(),
                next: 0,
                pending: DeviceAction::ListLights,
            },
        )
    }

    /// The action the application waits on.
    pub fn action(&self) -> (a: DeviceAction)
        ensures
            a == self.pending,
    {
        self.pending
    }

    /// Whether the application is over.
    pub fn is_done(&self) -> (d: bool)
        ensures
            d == (self.stage is Done),
    {
        matches!(self.stage, Stage::Done)
    }

    /// Moves on by the device's reply to the pending action, and returns
    /// the next action. A reply that does not answer the pending action
    /// changes nothing.
    pub fn step(&mut self, reply: DeviceReply) -> (act: DeviceAction)
        requires
            old(self).wf(),
        ensures
            steps_to(*old(self), reply, *final(self), act),
    {
        match (self.stage, reply) {
            (Stage::Listing { reset }, DeviceReply::Lights(v)) => {
                self.lights = v;
                self.next = 0;
                self.advance(reset);
            },
            (Stage::Listing { reset: _ }, DeviceReply::ListFailed) => {
                self.stage = Stage::Done;
                self.pending = DeviceAction::Finish { result: Err(DeviceError::Unreachable) };
            },
            (Stage::Setting { reset }, DeviceReply::StateSet) => {
                self.advance(reset);
            },
            (Stage::Waiting, DeviceReply::Waited) => {
                self.stage = Stage::Listing { reset: true };
                self.pending = DeviceAction::ListLights;
            },
            _ => {},
        }
        self.pending
    }

    /// Sends the current half's command to the next endpoint, or ends that
    /// half once every endpoint has had it.
    fn advance(&mut self, reset: bool)
        requires
            old(self).next <= old(self).lights@.len(),
        ensures
            final(self).wf(),
            final(self).lights == old(self).lights,
            final(self).effect == old(self).effect,
            final(self).baseline == old(self).baseline,
            final(self).duration == old(self).duration,
            old(self).next < old(self).lights@.len() ==> {
                &&& final(self).stage == Stage::Setting { reset }
                &&& final(self).next == old(self).next + 1
                &&& final(self).pending == DeviceAction::SetState {
                    light: old(self).lights@[old(self).next as int],
                    command: old(self).command_for(reset),
                }
            },
            old(self).next >= old(self).lights@.len() && reset ==> {
                &&& final(self).stage == Stage::Done
                &&& final(self).pending == DeviceAction::Finish { result: Ok(()) }
            },
            old(self).next >= old(self).lights@.len() && !reset ==> {
                &&& final(self).stage == Stage::Waiting
                &&& final(self).pending == DeviceAction::Wait { millis: old(self).duration }
            },
    {
        if self.next < self.lights.len() {
            let command = if reset {
                self.baseline
            } else {
                self.effect
            };
            self.pending = DeviceAction::SetState { light: self.lights[self.next], command };
            self.stage = Stage::Setting { reset };
            self.next = self.next + 1;
        } else if reset {
            self.stage = Stage::Done;
            self.pending = DeviceAction::Finish { result: Ok(()) };
        } else {
            self.stage = Stage::Waiting;
            self.pending = DeviceAction::Wait { millis: self.duration };
        }
    }
}

/// A run of an application: `states[k + 1]` is what the device's reply
/// `replies[k]` makes of `states[k]`, from a fresh start.
pub open spec fn is_run(states: Seq<Applicator>, replies: Seq<DeviceReply>) -> bool {
    &&& states.len() == replies.len() + 1
    &&& states[0].wf()
    &&& states[0].stage == Stage::Listing { reset: false }
    &&& forall|k: int|
        0 <= k < replies.len() ==> steps_to(
            states[k],
            #[trigger] replies[k],
            states[k + 1],
            states[k + 1].pending,
        )
}

proof fn lemma_run_monotone(states: Seq<Applicator>, replies: Seq<DeviceReply>, x: int, y: int)
    requires
        is_run(states, replies),
        0 <= x <= y < states.len(),
    ensures
        phase(states[x].stage) <= phase(states[y].stage),
        states[y].duration == states[x].duration,
    decreases y - x,
{
    if x < y {
        lemma_run_monotone(states, replies, x, y - 1);
        assert(steps_to(states[y - 1], replies[y - 1], states[y], states[y].pending));
    }
}

proof fn lemma_find_crossing(states: Seq<Applicator>, replies: Seq<DeviceReply>, lo: int, hi: int) -> (m: int)
    requires
        is_run(states, replies),
        0 <= lo < hi < states.len(),
        phase(states[lo].stage) <= 2,
        3 <= phase(states[hi].stage) <= 4,
    ensures
        lo <= m < hi,
        phase(states[m].stage) <= 2,
        3 <= phase(states[m + 1].stage) <= 4,
    decreases hi - lo,
{
    lemma_run_monotone(states, replies, lo + 1, hi);
    if phase(states[lo + 1].stage) >= 3 {
        lo
    } else {
        lemma_find_crossing(states, replies, lo + 1, hi)
    }
}

/// In every run, every effect command comes before every baseline command,
/// and between the two stands a wait for the effect's full duration that the
/// device reported as elapsed.
pub proof fn lemma_reset_follows_wait(states: Seq<Applicator>, replies: Seq<DeviceReply>, i: int, j: int)
    requires
        is_run(states, replies),
        0 <= i < replies.len(),
        0 <= j < replies.len(),
        states[i + 1].pending is SetState,
        !in_reset(states[i + 1].stage),
        states[j + 1].pending is SetState,
        in_reset(states[j + 1].stage),
    ensures
        i < j,
        exists|k: int|
            i < k < j && states[k + 1].pending == (DeviceAction::Wait { millis: states[0].duration })
                && #[trigger] replies[k + 1] is Waited,
{
    let lo = i + 1;
    let hi = j + 1;
    assert(steps_to(states[i], replies[i], states[i + 1], states[i + 1].pending));
    assert(steps_to(states[j], replies[j], states[j + 1], states[j + 1].pending));
    if j <= i {
        lemma_run_monotone(states, replies, hi, lo);
    }
    let m = lemma_find_crossing(states, replies, lo, hi);
    assert(steps_to(states[m], replies[m], states[m + 1], states[m + 1].pending));
    lemma_run_monotone(states, replies, 0, m);
    assert(states[m].stage is Waiting);
    assert(replies[m] is Waited);
    assert(m > lo);
    let k = m - 1;
    assert(i < k < j);
    assert(steps_to(states[k], replies[k], states[k + 1], states[k + 1].pending));
    assert(states[k + 1].pending == (DeviceAction::Wait { millis: states[0].duration }));
    assert(replies[k + 1] is Waited);
}

proof fn lemma_done_keeps_outcome(states: Seq<Applicator>, replies: Seq<DeviceReply>, x: int, y: int)
    requires
        is_run(states, replies),
        0 <= x <= y < states.len(),
        states[x].stage is Done,
    ensures
        states[y] == states[x],
    decreases y - x,
{
    if x < y {
        lemma_done_keeps_outcome(states, replies, x, y - 1);
        assert(steps_to(states[y - 1], replies[y - 1], states[y], states[y].pending));
    }
}

proof fn lemma_first_done(states: Seq<Applicator>, replies: Seq<DeviceReply>, n: int) -> (f: int)
    requires
        is_run(states, replies),
        0 <= n < states.len(),
        states[n].stage is Done,
    ensures
        0 < f <= n,
        states[f].stage is Done,
        !(states[f - 1].stage is Done),
    decreases n,
{
    if n > 0 && states[n - 1].stage is Done {
        lemma_first_done(states, replies, n - 1)
    } else {
        n
    }
}

/// In every run, an application that ends in success has first held the
/// effect through a wait for its full duration that the device reported as
/// elapsed: success is only reported at the end of the reset pass.
pub proof fn lemma_success_follows_wait(states: Seq<Applicator>, replies: Seq<DeviceReply>, n: int)
    requires
        is_run(states, replies),
        0 <= n < states.len(),
        states[n].pending == (DeviceAction::Finish { result: Ok(()) }),
    ensures
        exists|k: int|
            0 <= k < n - 1 && states[k + 1].pending == (DeviceAction::Wait {
                millis: states[0].duration,
            }) && #[trigger] replies[k + 1] is Waited,
{
    assert(steps_to(states[n - 1], replies[n - 1], states[n], states[n].pending));
    let f = lemma_first_done(states, replies, n);
    lemma_done_keeps_outcome(states, replies, f, n);
    assert(steps_to(states[f - 1], replies[f - 1], states[f], states[f].pending));
    let before = states[f - 1].stage;
    assert(3 <= phase(before) <= 4);
    let m = lemma_find_crossing(states, replies, 0, f - 1);
    assert(steps_to(states[m], replies[m], states[m + 1], states[m + 1].pending));
    lemma_run_monotone(states, replies, 0, m);
    assert(states[m].stage is Waiting);
    assert(m > 0);
    let k = m - 1;
    assert(steps_to(states[k], replies[k], states[k + 1], states[k + 1].pending));
    assert(states[k + 1].pending == (DeviceAction::Wait { millis: states[0].duration }));
    assert(replies[k + 1] is Waited);
}

} // verus!

use vstd::prelude::*;
use crate::amount::Amount;
use crate::event::{Event, EventKind};

verus! {

/// How the controller makes an effect's endpoints flash.
#[derive(Debug, Clone, Copy, PartialEq, Eq, Structural)]
pub enum AlertMode {
    Quiet,
    Single,
    Repeating,
}

/// A target visual state: hex RGB color, brightness, alert mode, and how
/// long it is shown, in milliseconds.
#[derive(Debug, Clone)]
pub struct LightEffect {
    pub color: String,
    pub brightness: u8,
    pub alert: AlertMode,
    pub duration: u64,
}

/// An effect that a donation or bits amount of at least `threshold` earns.
#[derive(Debug, Clone)]
pub struct EffectTier {
    pub threshold: Amount,
    pub effect: LightEffect,
}

/// The setting of a tiered event kind: its flag and its tiers, examined in
/// the order given.
#[derive(Debug, Clone)]
pub struct TieredEffect {
    pub enabled: bool,
    pub tiers: Vec<EffectTier>,
}

/// The setting of a single-effect event kind.
#[derive(Debug, Clone)]
pub struct SimpleEffect {
    pub enabled: bool,
    pub effect: LightEffect,
}

/// The per-kind settings that map events to effects.
#[derive(Debug, Clone)]
pub struct EventConfig {
    pub donation: TieredEffect,
    pub twitch_follow: SimpleEffect,
    pub twitch_subscription: SimpleEffect,
    pub twitch_bits: TieredEffect,
}

/// Why a configuration was refused at startup.
#[derive(Debug, Clone, Copy, PartialEq, Eq, Structural)]
pub enum ConfigError {
    /// An enabled tiered kind has no tiers.
    NoTiers,
    /// Thresholds do not strictly decrease from one tier to the next.
    TiersOutOfOrder,
    /// An effect asks for a brightness above 254.
    BrightnessOutOfRange,
}

/// The threshold falls from tier `i` to tier `i + 1`.
pub open spec fn drops_at(tiers: Seq<EffectTier>, i: int) -> bool {
    tiers[i].threshold.milli > tiers[i + 1].threshold.milli
}

pub open spec fn strictly_decreasing(tiers: Seq<EffectTier>) -> bool {
    forall|i: int| 0 <= i < tiers.len() - 1 ==> #[trigger] drops_at(tiers, i)
}

pub open spec fn brightness_ok(tiers: Seq<EffectTier>) -> bool {
    forall|i: int| 0 <= i < tiers.len() ==> #[trigger] tiers[i].effect.brightness <= 254
}

/// The first fault of a tiered setting, if any.
pub open spec fn tiered_error(t: TieredEffect) -> Option<ConfigError> {
    if t.enabled && t.tiers@.len() == 0 {
        Some(ConfigError::NoTiers)
    } else if !strictly_decreasing(t.tiers@) {
        Some(ConfigError::TiersOutOfOrder)
    } else if !brightness_ok(t.tiers@) {
        Some(ConfigError::BrightnessOutOfRange)
    } else {
        None
    }
}

pub open spec fn simple_error(s: SimpleEffect) -> Option<ConfigError> {
    if s.effect.brightness > 254 {
        Some(ConfigError::BrightnessOutOfRange)
    } else {
        None
    }
}

/// The first fault of a configuration, donations first, then follows,
/// subscriptions and bits.
pub open spec fn config_error(c: EventConfig) -> Option<ConfigError> {
    if tiered_error(c.donation) is Some {
        tiered_error(c.donation)
    } else if simple_error(c.twitch_follow) is Some {
        simple_error(c.twitch_follow)
    } else if simple_error(c.twitch_subscription) is Some {
        simple_error(c.twitch_subscription)
    } else {
        tiered_error(c.twitch_bits)
    }
}

pub open spec fn as_check(e: Option<ConfigError>) -> Result<(), ConfigError> {
    match e {
        Some(e) => Err(e),
        None => Ok(()),
    }
}

/// Checks one tiered setting: tiers present where enabled, thresholds
/// strictly decreasing, brightness within range.
pub fn check_tiers(t: &TieredEffect) -> (r: Result<(), ConfigError>)
    ensures
        r == as_check(tiered_error(*t)),
{
    let n = t.tiers.len();
    if t.enabled && n == 0 {
        return Err(ConfigError::NoTiers);
    }
    let mut i: usize = 1;
    while i < n
        invariant
            1 <= i,
            n == t.tiers@.len(),
            i <= n || n == 0,
            forall|j: int| 0 <= j < i - 1 ==> #[trigger] drops_at(t.tiers@, j),
        decreases n - i,
    {
        if t.tiers[i - 1].threshold.milli <= t.tiers[i].threshold.milli {
            assert(!strictly_decreasing(t.tiers@)) by {
                assert(!drops_at(t.tiers@, i - 1));
            }
            return Err(ConfigError::TiersOutOfOrder);
        }
        assert(drops_at(t.tiers@, i - 1));
        i += 1;
    }
    assert(strictly_decreasing(t.tiers@));
    let mut k: usize = 0;
    while k < n
        invariant
            k <= n,
            n == t.tiers@.len(),
            strictly_decreasing(t.tiers@),
            !(t.enabled && n == 0),
            forall|j: int| 0 <= j < k ==> #[trigger] t.tiers@[j].effect.brightness <= 254,
        decreases n - k,
    {
        if t.tiers[k].effect.brightness > 254 {
            assert(!brightness_ok(t.tiers@)) by {
                assert(t.tiers@[k as int].effect.brightness > 254);
            }
            return Err(ConfigError::BrightnessOutOfRange);
        }
        k += 1;
    }
    Ok(())
}

/// Checks a configuration once at startup; a refused one must not be served.
pub fn check_config(c: &EventConfig) -> (r: Result<(), ConfigError>)
    ensures
        r == as_check(config_error(*c)),
{
    match check_tiers(&c.donation) {
        Err(e) => {
            return Err(e);
        },
        Ok(()) => {},
    }
    if c.twitch_follow.effect.brightness > 254 || c.twitch_subscription.effect.brightness > 254 {
        return Err(ConfigError::BrightnessOutOfRange);
    }
    check_tiers(&c.twitch_bits)
}

/// `e` is the effect of the first tier whose threshold is at most `a`, or,
/// where no threshold is, the effect of the last tier.
pub open spec fn is_tier_pick(tiers: Seq<EffectTier>, a: int, e: LightEffect) -> bool {
    ||| exists|i: int|
        {
            &&& 0 <= i < tiers.len()
            &&& #[trigger] tiers[i].threshold.milli <= a
            &&& forall|j: int| 0 <= j < i ==> tiers[j].threshold.milli > a
            &&& tiers[i].effect == e
        }
    ||| {
        &&& tiers.len() > 0
        &&& forall|i: int| 0 <= i < tiers.len() ==> tiers[i].threshold.milli > a
        &&& e == tiers.last().effect
    }
}

/// What a tiered kind resolves to for an event amount.
pub open spec fn tiered_result(t: TieredEffect, amount: Option<Amount>, r: Option<&LightEffect>) -> bool {
    if t.enabled && amount is Some && t.tiers@.len() > 0 {
        r matches Some(e) && is_tier_pick(t.tiers@, amount->0.milli as int, *e)
    } else {
        r is None
    }
}

/// What a single-effect kind resolves to.
pub open spec fn simple_result(s: SimpleEffect, r: Option<&LightEffect>) -> bool {
    if s.enabled {
        r == Some(&s.effect)
    } else {
        r is None
    }
}

/// `r` is the effect that the configuration assigns to the event.
pub open spec fn resolves(event: Event, config: EventConfig, r: Option<&LightEffect>) -> bool {
    match event.kind {
        EventKind::Donation => tiered_result(config.donation, event.amount, r),
        EventKind::Bits => tiered_result(config.twitch_bits, event.amount, r),
        EventKind::Follow => simple_result(config.twitch_follow, r),
        EventKind::Subscription => simple_result(config.twitch_subscription, r),
        EventKind::Unknown => r is None,
    }
}

proof fn lemma_tier_pick_unique(tiers: Seq<EffectTier>, a: int, e1: LightEffect, e2: LightEffect)
    requires
        is_tier_pick(tiers, a, e1),
        is_tier_pick(tiers, a, e2),
    ensures
        e1 == e2,
{
    if exists|i: int| 0 <= i < tiers.len() && #[trigger] tiers[i].threshold.milli <= a {
        let i1 = choose|i: int|
            {
                &&& 0 <= i < tiers.len()
                &&& #[trigger] tiers[i].threshold.milli <= a
                &&& forall|j: int| 0 <= j < i ==> tiers[j].threshold.milli > a
                &&& tiers[i].effect == e1
            };
        let i2 = choose|i: int|
            {
                &&& 0 <= i < tiers.len()
                &&& #[trigger] tiers[i].threshold.milli <= a
                &&& forall|j: int| 0 <= j < i ==> tiers[j].threshold.milli > a
                &&& tiers[i].effect == e2
            };
        assert(i1 == i2);
    }
}

/// Resolution is deterministic: one event under one configuration has one
/// effect, or none.
pub proof fn lemma_resolve_deterministic(
    event: Event,
    config: EventConfig,
    r1: Option<&LightEffect>,
    r2: Option<&LightEffect>,
)
    requires
        resolves(event, config, r1),
        resolves(event, config, r2),
    ensures
        r1 == r2,
{
    match event.kind {
        EventKind::Donation => {
            if r1 is Some && r2 is Some {
                lemma_tier_pick_unique(
                    config.donation.tiers@,
                    event.amount->0.milli as int,
                    *r1->0,
                    *r2->0,
                );
            }
        },
        EventKind::Bits => {
            if r1 is Some && r2 is Some {
                lemma_tier_pick_unique(
                    config.twitch_bits.tiers@,
                    event.amount->0.milli as int,
                    *r1->0,
                    *r2->0,
                );
            }
        },
        _ => {},
    }
}

/// The tier effect for an amount: the first tier whose threshold the amount
/// meets, else the last tier; `None` only for an empty tier list.
pub fn pick_tier(tiers: &Vec<EffectTier>, amount: Amount) -> (r: Option<&LightEffect>)
    ensures
        tiers@.len() == 0 ==> r is None,
        tiers@.len() > 0 ==> (r matches Some(e) && is_tier_pick(tiers@, amount.milli as int, *e)),
{
    let n = tiers.len();
    let mut i: usize = 0;
    while i < n
        invariant
            i <= n,
            n == tiers@.len(),
            forall|j: int| 0 <= j < i ==> tiers@[j].threshold.milli > amount.milli,
        decreases n - i,
    {
        if tiers[i].threshold.milli <= amount.milli {
            assert(tiers@[i as int].threshold.milli <= amount.milli);
            return Some(&tiers[i].effect);
        }
        i += 1;
    }
    if n == 0 {
        None
    } else {
        Some(&tiers[n - 1].effect)
    }
}

/// The effect an event calls for under the configuration, if any. Unknown
/// events and disabled kinds call for none.
pub fn resolve<'a>(event: &Event, config: &'a EventConfig) -> (r: Option<&'a LightEffect>)
    ensures
        resolves(*event, *config, r),
{
    match event.kind {
        EventKind::Donation | EventKind::Bits => {
            let t = if matches!(event.kind, EventKind::Donation) {
                &config.donation
            } else {
                &config.twitch_bits
            };
            if !t.enabled {
                return None;
            }
            match event.amount {
                Some(a) => pick_tier(&t.tiers, a),
                None => None,
            }
        },
        EventKind::Follow => {
            if config.twitch_follow.enabled {
                Some(&config.twitch_follow.effect)
            } else {
                None
            }
        },
        EventKind::Subscription => {
            if config.twitch_subscription.enabled {
                Some(&config.twitch_subscription.effect)
            } else {
                None
            }
        },
        EventKind::Unknown => None,
    }
}

} // verus!

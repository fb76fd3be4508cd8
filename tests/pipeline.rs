use lumialive::amount::Amount;
use lumialive::apply::{Applicator, BaselineState, DeviceAction, DeviceReply, EffectCommand, Stage};
use lumialive::config::{
    check_config, check_tiers, pick_tier, resolve, AlertMode, ConfigError, EffectTier, EventConfig,
    LightEffect, SimpleEffect, TieredEffect,
};
use lumialive::error::DeviceError;
use lumialive::event::{DecodeError, Event, EventKind, RawEvent, RawMessage};
use lumialive::pipeline::{Coordinator, Phase, Work};
use lumialive::queue::{ingest, EventQueue, Ingested, QueueError, QUEUE_CAPACITY};

fn effect(color: &str, duration: u64) -> LightEffect {
    LightEffect { color: color.to_string(), brightness: 200, alert: AlertMode::Single, duration }
}

fn tier(whole: u64, color: &str) -> EffectTier {
    EffectTier { threshold: Amount { milli: whole * 1000 }, effect: effect(color, 1000) }
}

fn config(follow_enabled: bool) -> EventConfig {
    EventConfig {
        donation: TieredEffect {
            enabled: true,
            tiers: vec![tier(100, "#FF0000"), tier(50, "#00FF00"), tier(0, "#0000FF")],
        },
        twitch_follow: SimpleEffect { enabled: follow_enabled, effect: effect("#FFFF00", 500) },
        twitch_subscription: SimpleEffect { enabled: true, effect: effect("#00FFFF", 500) },
        twitch_bits: TieredEffect { enabled: true, tiers: vec![tier(1000, "#FFFFFF"), tier(100, "#FF00FF")] },
    }
}

fn baseline() -> BaselineState {
    BaselineState { on: true, brightness: 100, hue: 8000, saturation: 140, alert: AlertMode::Quiet }
}

fn event(kind: EventKind, whole: Option<u64>) -> Event {
    Event {
        kind,
        source: "viewer".to_string(),
        amount: whole.map(|w| Amount { milli: w * 1000 }),
        raw_id: "id".to_string(),
    }
}

fn raw(event_type: &str, event_for: Option<&str>, amount: Option<&str>) -> RawEvent {
    RawEvent {
        event_id: "evt".to_string(),
        event_type: event_type.to_string(),
        event_for: event_for.map(|s| s.to_string()),
        messages: vec![RawMessage { name: "viewer".to_string(), amount: amount.map(|s| s.to_string()) }],
    }
}

fn color_of(r: Option<&LightEffect>) -> Option<String> {
    r.map(|e| e.color.clone())
}

#[test]
fn donation_tiers_resolve_in_order() {
    let c = config(true);
    assert_eq!(color_of(resolve(&event(EventKind::Donation, Some(150)), &c)), Some("#FF0000".to_string()));
    assert_eq!(color_of(resolve(&event(EventKind::Donation, Some(75)), &c)), Some("#00FF00".to_string()));
    assert_eq!(color_of(resolve(&event(EventKind::Donation, Some(10)), &c)), Some("#0000FF".to_string()));
    assert_eq!(color_of(resolve(&event(EventKind::Donation, Some(100)), &c)), Some("#FF0000".to_string()));
}

#[test]
fn amount_below_every_tier_takes_the_last() {
    let c = config(true);
    assert_eq!(color_of(resolve(&event(EventKind::Bits, Some(5)), &c)), Some("#FF00FF".to_string()));
    assert_eq!(color_of(resolve(&event(EventKind::Bits, Some(5000)), &c)), Some("#FFFFFF".to_string()));
    assert!(pick_tier(&Vec::new(), Amount { milli: 1 }).is_none());
}

#[test]
fn disabled_follow_resolves_to_nothing() {
    let c = config(false);
    assert!(resolve(&event(EventKind::Follow, None), &c).is_none());
    let c = config(true);
    assert_eq!(color_of(resolve(&event(EventKind::Follow, None), &c)), Some("#FFFF00".to_string()));
    assert_eq!(color_of(resolve(&event(EventKind::Subscription, None), &c)), Some("#00FFFF".to_string()));
}

#[test]
fn unknown_and_disabled_kinds_resolve_to_nothing() {
    let mut c = config(true);
    assert!(resolve(&event(EventKind::Unknown, None), &c).is_none());
    c.donation.enabled = false;
    assert!(resolve(&event(EventKind::Donation, Some(150)), &c).is_none());
    assert!(resolve(&event(EventKind::Donation, None), &config(true)).is_none());
}

#[test]
fn config_checks() {
    assert_eq!(check_config(&config(true)), Ok(()));
    let mut c = config(true);
    c.donation.tiers.swap(0, 1);
    assert_eq!(check_config(&c), Err(ConfigError::TiersOutOfOrder));
    let mut c = config(true);
    c.twitch_bits.tiers.clear();
    assert_eq!(check_config(&c), Err(ConfigError::NoTiers));
    c.twitch_bits.enabled = false;
    assert_eq!(check_config(&c), Ok(()));
    let mut c = config(true);
    c.twitch_follow.effect.brightness = 255;
    assert_eq!(check_config(&c), Err(ConfigError::BrightnessOutOfRange));
    let t = TieredEffect { enabled: true, tiers: vec![tier(5, "#000000"), tier(5, "#000000")] };
    assert_eq!(check_tiers(&t), Err(ConfigError::TiersOutOfOrder));
}

#[test]
fn queue_refuses_the_thirty_third() {
    let mut q = EventQueue::new();
    for i in 0..QUEUE_CAPACITY {
        assert_eq!(q.enqueue(event(EventKind::Donation, Some(i as u64))), Ok(()));
    }
    assert_eq!(q.len(), 32);
    assert_eq!(q.enqueue(event(EventKind::Follow, None)), Err(QueueError::Full));
    assert_eq!(q.len(), 32);
    let first = q.dequeue().unwrap();
    assert_eq!(first.amount, Some(Amount { milli: 0 }));
    assert_eq!(q.enqueue(event(EventKind::Follow, None)), Ok(()));
}

#[test]
fn queue_keeps_order_and_closes() {
    let mut q = EventQueue::new();
    assert!(q.dequeue().is_none());
    q.enqueue(event(EventKind::Follow, None)).unwrap();
    q.enqueue(event(EventKind::Bits, Some(3))).unwrap();
    q.close();
    assert!(q.is_closed());
    assert_eq!(q.enqueue(event(EventKind::Follow, None)), Err(QueueError::Closed));
    assert_eq!(q.dequeue().unwrap().kind, EventKind::Follow);
    assert_eq!(q.dequeue().unwrap().kind, EventKind::Bits);
    assert!(q.dequeue().is_none());
}

#[test]
fn unrecognized_payload_is_not_queued() {
    let mut q = EventQueue::new();
    assert!(matches!(ingest(&mut q, &raw("cheer", None, None)), Ingested::Ignored));
    assert_eq!(q.len(), 0);
    assert!(matches!(ingest(&mut q, &raw("", None, None)), Ingested::Rejected(_)));
    assert_eq!(q.len(), 0);
    assert!(matches!(ingest(&mut q, &raw("donation", None, Some("7.5"))), Ingested::Queued));
    assert_eq!(q.len(), 1);
}

fn run_to_end(a: &mut Applicator, lights: Vec<usize>) -> Vec<DeviceAction> {
    let mut seen = vec![a.action()];
    loop {
        let reply = match a.action() {
            DeviceAction::ListLights => DeviceReply::Lights(lights.clone()),
            DeviceAction::SetState { .. } => DeviceReply::StateSet,
            DeviceAction::Wait { .. } => DeviceReply::Waited,
            DeviceAction::Finish { .. } => break,
        };
        seen.push(a.step(reply));
    }
    seen
}

#[test]
fn invalid_color_fails_before_any_device_call() {
    let e = effect("#GG00FF", 100);
    assert!(matches!(Applicator::start(&e, &baseline()), Err(DeviceError::InvalidColor)));
}

#[test]
fn application_shows_waits_and_resets() {
    let mut a = Applicator::start(&effect("#FF0000", 750), &baseline()).unwrap();
    let show = EffectCommand { on: true, brightness: 200, hue: 0, saturation: 254, alert: AlertMode::Single };
    let base = baseline().command();
    let acts = run_to_end(&mut a, vec![3, 7]);
    assert_eq!(acts.len(), 8);
    assert!(matches!(acts[0], DeviceAction::ListLights));
    assert!(matches!(acts[1], DeviceAction::SetState { light: 3, command } if command == show));
    assert!(matches!(acts[2], DeviceAction::SetState { light: 7, command } if command == show));
    assert!(matches!(acts[3], DeviceAction::Wait { millis: 750 }));
    assert!(matches!(acts[4], DeviceAction::ListLights));
    assert!(matches!(acts[5], DeviceAction::SetState { light: 3, command } if command == base));
    assert!(matches!(acts[6], DeviceAction::SetState { light: 7, command } if command == base));
    assert!(matches!(acts[7], DeviceAction::Finish { result: Ok(()) }));
    assert!(a.is_done());
}

#[test]
fn unreachable_controller_ends_the_application() {
    let mut a = Applicator::start(&effect("#00FF00", 10), &baseline()).unwrap();
    assert!(matches!(a.step(DeviceReply::ListFailed), DeviceAction::Finish { result: Err(DeviceError::Unreachable) }));
    assert_eq!(a.stage, Stage::Done);
    assert!(matches!(a.step(DeviceReply::Waited), DeviceAction::Finish { .. }));
}

#[test]
fn unexpected_reply_changes_nothing() {
    let mut a = Applicator::start(&effect("#00FF00", 10), &baseline()).unwrap();
    assert!(matches!(a.step(DeviceReply::Waited), DeviceAction::ListLights));
    assert_eq!(a.stage, Stage::Listing { reset: false });
    assert!(matches!(a.step(DeviceReply::Lights(vec![])), DeviceAction::Wait { millis: 10 }));
    assert!(matches!(a.step(DeviceReply::Waited), DeviceAction::ListLights));
    assert!(matches!(a.step(DeviceReply::Lights(vec![])), DeviceAction::Finish { result: Ok(()) }));
}

#[test]
fn coordinator_applies_one_event_at_a_time() {
    let mut c = Coordinator::new(config(true), baseline()).unwrap();
    assert!(matches!(c.offer(&raw("donation", None, Some("150"))), Ingested::Dropped(QueueError::Closed)));
    assert!(matches!(c.poll(), Work::Idle));
    c.started();
    assert_eq!(c.phase, Phase::Running);
    assert!(matches!(c.offer(&raw("donation", None, Some("150"))), Ingested::Queued));
    assert!(matches!(c.offer(&raw("follow", Some("twitch_account"), None)), Ingested::Queued));
    assert!(matches!(c.poll(), Work::Device(DeviceAction::ListLights)));
    c.on_reply(DeviceReply::Lights(vec![1]));
    assert!(matches!(c.poll(), Work::Device(DeviceAction::SetState { light: 1, .. })));
    assert_eq!(c.queue.len(), 1);
    c.on_reply(DeviceReply::StateSet);
    assert!(matches!(c.poll(), Work::Device(DeviceAction::Wait { millis: 1000 })));
    c.on_reply(DeviceReply::Waited);
    assert!(matches!(c.poll(), Work::Device(DeviceAction::ListLights)));
    c.on_reply(DeviceReply::Lights(vec![1]));
    assert!(matches!(c.poll(), Work::Device(DeviceAction::SetState { light: 1, .. })));
    assert_eq!(c.queue.len(), 1);
    c.on_reply(DeviceReply::StateSet);
    assert!(matches!(c.poll(), Work::Applied(Ok(()))));
    assert!(matches!(c.poll(), Work::Device(DeviceAction::ListLights)));
    assert_eq!(c.queue.len(), 0);
}

#[test]
fn disabled_follow_makes_no_device_call() {
    let mut c = Coordinator::new(config(false), baseline()).unwrap();
    c.started();
    assert!(matches!(c.offer(&raw("follow", Some("twitch_account"), None)), Ingested::Queued));
    assert!(matches!(c.poll(), Work::NoEffect(EventKind::Follow)));
    assert!(matches!(c.poll(), Work::Idle));
}

#[test]
fn bad_effect_color_is_skipped() {
    let mut cfg = config(true);
    cfg.twitch_subscription.effect.color = "#GG00FF".to_string();
    let mut c = Coordinator::new(cfg, baseline()).unwrap();
    c.started();
    c.offer(&raw("subscription", Some("twitch_account"), None));
    assert!(matches!(c.poll(), Work::Failed(DeviceError::InvalidColor)));
    assert!(c.current.is_none());
}

#[test]
fn shutdown_finishes_in_flight_and_discards_the_rest() {
    let mut c = Coordinator::new(config(true), baseline()).unwrap();
    c.started();
    c.offer(&raw("donation", None, Some("10")));
    c.offer(&raw("donation", None, Some("20")));
    assert!(matches!(c.poll(), Work::Device(DeviceAction::ListLights)));
    c.shutdown();
    assert_eq!(c.phase, Phase::Draining);
    assert_eq!(c.queue.len(), 0);
    assert!(matches!(c.offer(&raw("donation", None, Some("30"))), Ingested::Dropped(QueueError::Closed)));
    c.on_reply(DeviceReply::Lights(vec![]));
    assert!(matches!(c.poll(), Work::Device(DeviceAction::Wait { .. })));
    c.on_reply(DeviceReply::Waited);
    c.poll();
    c.on_reply(DeviceReply::Lights(vec![]));
    assert!(matches!(c.poll(), Work::Applied(Ok(()))));
    assert!(matches!(c.poll(), Work::Stop));
    assert_eq!(c.phase, Phase::Stopped);
}

#[test]
fn refused_config_stops_startup() {
    let mut cfg = config(true);
    cfg.donation.tiers.reverse();
    assert!(matches!(Coordinator::new(cfg, baseline()), Err(ConfigError::TiersOutOfOrder)));
}

#[test]
fn queued_events_keep_their_fields_and_order() {
    let mut q = EventQueue::new();
    assert!(matches!(ingest(&mut q, &raw("donation", None, Some("12.5"))), Ingested::Queued));
    assert!(matches!(ingest(&mut q, &raw("bits", Some("twitch_account"), Some("300"))), Ingested::Queued));
    let first = q.dequeue().unwrap();
    assert_eq!(first.kind, EventKind::Donation);
    assert_eq!(first.source, "viewer");
    assert_eq!(first.raw_id, "evt");
    assert_eq!(first.amount, Some(Amount { milli: 12500 }));
    let second = q.dequeue().unwrap();
    assert_eq!(second.kind, EventKind::Bits);
    assert_eq!(second.amount, Some(Amount { milli: 300000 }));
}

#[test]
fn thirty_three_payloads_keep_the_first_thirty_two() {
    let mut c = Coordinator::new(config(true), baseline()).unwrap();
    c.started();
    for i in 1..=33u32 {
        let amount = i.to_string();
        let r = c.offer(&raw("donation", None, Some(&amount)));
        if i <= 32 {
            assert!(matches!(r, Ingested::Queued));
        } else {
            assert!(matches!(r, Ingested::Dropped(QueueError::Full)));
        }
    }
    assert_eq!(c.queue.len(), 32);
    for i in 1..=32u64 {
        assert_eq!(c.queue.dequeue().unwrap().amount, Some(Amount { milli: i * 1000 }));
    }
}

#[test]
fn short_decimal_amounts_are_queued() {
    let mut q = EventQueue::new();
    for t in [".5", "5.", "+5", "1e3"] {
        assert!(matches!(ingest(&mut q, &raw("donation", None, Some(t))), Ingested::Queued), "{}", t);
    }
    assert_eq!(q.len(), 4);
    assert_eq!(q.dequeue().unwrap().amount, Some(Amount { milli: 500 }));
    assert_eq!(q.dequeue().unwrap().amount, Some(Amount { milli: 5000 }));
    assert_eq!(q.dequeue().unwrap().amount, Some(Amount { milli: 5000 }));
    assert_eq!(q.dequeue().unwrap().amount, Some(Amount { milli: 1000000 }));
}

#[test]
fn refusals_carry_their_reason() {
    let mut q = EventQueue::new();
    match ingest(&mut q, &raw("bits", Some("twitch_account"), Some("-3"))) {
        Ingested::Rejected(DecodeError::InvalidAmount(t)) => assert_eq!(t, "-3"),
        other => panic!("unexpected {:?}", other),
    }
    assert!(matches!(ingest(&mut q, &raw("donation", None, None)), Ingested::Rejected(DecodeError::Malformed)));
    q.close();
    assert!(matches!(ingest(&mut q, &raw("donation", None, Some("1"))), Ingested::Dropped(QueueError::Closed)));
    assert_eq!(q.len(), 0);
}

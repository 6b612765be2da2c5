//! The strongly-typed command model (`CommandKind` + `Handles<C>`) and the
//! given/when/then `Scenario` harness.

use streamlet::testing::Scenario;
use streamlet::{Aggregate, Command, CommandKind, DomainEvent, Handles};

#[derive(Debug, Clone, PartialEq)]
enum ToggleEvent {
    TurnedOn,
    TurnedOff,
}

impl DomainEvent for ToggleEvent {
    fn event_type(&self) -> &'static str {
        match self {
            ToggleEvent::TurnedOn => "toggle.turned_on",
            ToggleEvent::TurnedOff => "toggle.turned_off",
        }
    }

    fn event_types() -> &'static [&'static str] {
        &["toggle.turned_on", "toggle.turned_off"]
    }
}

/// A command type with no values: the toggle is driven only by typed commands.
enum NoCommand {}

impl Command for NoCommand {
    fn command_type(&self) -> &'static str {
        match *self {}
    }

    fn command_types() -> &'static [&'static str] {
        &[]
    }
}

#[derive(Debug, Clone)]
struct TurnOn;

impl CommandKind for TurnOn {
    const NAME: &'static str = "TurnOn";
}

#[derive(Debug, Clone)]
struct TurnOff;

impl CommandKind for TurnOff {
    const NAME: &'static str = "TurnOff";
}

#[derive(Debug, PartialEq)]
enum ToggleError {
    AlreadyOn,
    AlreadyOff,
}

#[derive(Debug, Default)]
struct Toggle {
    on: bool,
}

impl Aggregate for Toggle {
    type Command = NoCommand;
    type Event = ToggleEvent;
    type Rejection = ToggleError;
    const TYPE: &'static str = "toggle";

    fn initial() -> Self {
        Toggle::default()
    }

    fn handle(&self, command: NoCommand) -> Result<Vec<ToggleEvent>, ToggleError> {
        match command {}
    }

    fn apply(&mut self, event: &ToggleEvent) {
        self.on = matches!(event, ToggleEvent::TurnedOn);
    }
}

impl Handles<TurnOn> for Toggle {
    fn decide(&self, _: TurnOn) -> Result<Vec<ToggleEvent>, ToggleError> {
        if self.on {
            Err(ToggleError::AlreadyOn)
        } else {
            Ok(vec![ToggleEvent::TurnedOn])
        }
    }
}

impl Handles<TurnOff> for Toggle {
    fn decide(&self, _: TurnOff) -> Result<Vec<ToggleEvent>, ToggleError> {
        if self.on {
            Ok(vec![ToggleEvent::TurnedOff])
        } else {
            Err(ToggleError::AlreadyOff)
        }
    }
}

#[test]
fn scenario_asserts_emitted_events() {
    Scenario::<Toggle>::empty()
        .when_typed(TurnOn)
        .then_events(vec![ToggleEvent::TurnedOn]);
}

#[test]
fn scenario_asserts_rejection() {
    Scenario::<Toggle>::given(vec![ToggleEvent::TurnedOn])
        .when_typed(TurnOn)
        .then_rejected_with(ToggleError::AlreadyOn);
}

#[test]
fn scenario_with_more_history_turns_off() {
    let outcome = Scenario::<Toggle>::given(vec![ToggleEvent::TurnedOn])
        .and(ToggleEvent::TurnedOff)
        .and(ToggleEvent::TurnedOn)
        .when_typed(TurnOff);
    assert_eq!(outcome.into_result(), Ok(vec![ToggleEvent::TurnedOff]));
}

#[test]
fn scenario_rejection_is_returned() {
    let rejection = Scenario::<Toggle>::empty().when_typed(TurnOff).then_rejected();
    assert_eq!(rejection, ToggleError::AlreadyOff);
}

#[test]
fn scenario_turning_off_after_on_emits_turned_off() {
    Scenario::<Toggle>::given(vec![ToggleEvent::TurnedOn])
        .when_typed(TurnOff)
        .then_events(vec![ToggleEvent::TurnedOff]);
}

#[test]
fn typed_command_name_mirrors_the_constant() {
    assert_eq!(TurnOn.command_name(), "TurnOn");
    assert_eq!(TurnOff::NAME, "TurnOff");
}

/// Keeps the toggle on: a no-op when it already is.
#[derive(Debug, Clone)]
struct KeepOn;

impl CommandKind for KeepOn {
    const NAME: &'static str = "KeepOn";
}

impl Handles<KeepOn> for Toggle {
    fn decide(&self, _: KeepOn) -> Result<Vec<ToggleEvent>, ToggleError> {
        if self.on {
            Ok(vec![])
        } else {
            Ok(vec![ToggleEvent::TurnedOn])
        }
    }
}

#[test]
fn scenario_accepts_a_no_op() {
    Scenario::<Toggle>::given(vec![ToggleEvent::TurnedOn])
        .when_typed(KeepOn)
        .then_nothing();
    Scenario::<Toggle>::empty()
        .when_typed(KeepOn)
        .then_events(vec![ToggleEvent::TurnedOn]);
}

fn recorded(version: u64, payload: ToggleEvent) -> streamlet::Recorded<ToggleEvent> {
    streamlet::Recorded {
        id: format!("id-{version}"),
        aggregate_type: "toggle".to_string(),
        stream_id: "t1".to_string(),
        version,
        global_position: version,
        event_type: payload.event_type().to_string(),
        payload,
        recorded_at: 0,
        metadata: streamlet::Metadata::new(),
    }
}

#[test]
fn typed_decision_renders_then_decides() {
    type Svc = streamlet::Service<Toggle, streamlet::MemoryStore>;
    let fresh = Svc::decide_typed(&[], TurnOn).unwrap();
    assert_eq!(fresh.events, vec![ToggleEvent::TurnedOn]);
    assert_eq!(fresh.expected, streamlet::ExpectedRevision::NoStream);

    let history = vec![recorded(1, ToggleEvent::TurnedOn)];
    match Svc::decide_typed(&history, TurnOn) {
        Err(e) => assert_eq!(e, ToggleError::AlreadyOn),
        Ok(_) => panic!("expected a rejection"),
    }
    let off = Svc::decide_typed(&history, TurnOff).unwrap();
    assert_eq!(off.events, vec![ToggleEvent::TurnedOff]);
    assert_eq!(off.expected, streamlet::ExpectedRevision::Exact(1));
}

//! Stable names of events and commands: a container prefix plus each
//! variant's own name, unless the variant is renamed.

use streamlet::naming::{stable_name, stable_names, to_snake_case, RenameRule};
use streamlet::{Command, CommandKind, DomainEvent};

#[allow(dead_code)]
enum AccountEvent {
    Opened,
    Deposited { cents: u64 },
    Withdrew(u64),
    Terminated,
}

impl DomainEvent for AccountEvent {
    fn event_type(&self) -> &'static str {
        match self {
            AccountEvent::Opened => "acct.Opened",
            AccountEvent::Deposited { .. } => "acct.Deposited",
            AccountEvent::Withdrew(..) => "acct.Withdrew",
            AccountEvent::Terminated => "acct.Closed",
        }
    }

    fn event_types() -> &'static [&'static str] {
        &["acct.Opened", "acct.Deposited", "acct.Withdrew", "acct.Closed"]
    }
}

#[allow(dead_code)]
enum AccountCommand {
    Open,
    Deposit(u64),
    Terminate,
}

impl Command for AccountCommand {
    fn command_type(&self) -> &'static str {
        match self {
            AccountCommand::Open => "Open",
            AccountCommand::Deposit(..) => "Deposit",
            AccountCommand::Terminate => "Close",
        }
    }

    fn command_types() -> &'static [&'static str] {
        &["Open", "Deposit", "Close"]
    }
}

#[test]
fn event_names_use_prefix_and_rename_across_variant_shapes() {
    assert_eq!(AccountEvent::Opened.event_type(), "acct.Opened");
    assert_eq!(
        AccountEvent::Deposited { cents: 1 }.event_type(),
        "acct.Deposited"
    );
    assert_eq!(AccountEvent::Withdrew(1).event_type(), "acct.Withdrew");
    assert_eq!(AccountEvent::Terminated.event_type(), "acct.Closed");

    assert_eq!(
        AccountEvent::event_types(),
        &[
            "acct.Opened",
            "acct.Deposited",
            "acct.Withdrew",
            "acct.Closed"
        ]
    );

    // The same names follow from the naming rule.
    let names = stable_names(
        "acct.",
        RenameRule::Verbatim,
        &[
            ("Opened".to_string(), None),
            ("Deposited".to_string(), None),
            ("Withdrew".to_string(), None),
            ("Terminated".to_string(), Some("Closed".to_string())),
        ],
    );
    assert_eq!(names, AccountEvent::event_types());
}

#[test]
fn command_names_default_to_variant_and_honour_rename() {
    assert_eq!(AccountCommand::Open.command_type(), "Open");
    assert_eq!(AccountCommand::Deposit(5).command_type(), "Deposit");
    assert_eq!(AccountCommand::Terminate.command_type(), "Close");

    assert_eq!(
        AccountCommand::command_types(),
        &["Open", "Deposit", "Close"]
    );

    // The same names follow from the naming rule, with no prefix.
    let names = stable_names(
        "",
        RenameRule::Verbatim,
        &[
            ("Open".to_string(), None),
            ("Deposit".to_string(), None),
            ("Terminate".to_string(), Some("Close".to_string())),
        ],
    );
    assert_eq!(names, AccountCommand::command_types());
    assert_eq!(
        stable_name("", "Deposit", RenameRule::Verbatim, None),
        AccountCommand::Deposit(5).command_type()
    );
}

struct Reboot;

impl CommandKind for Reboot {
    const NAME: &'static str = "Reboot";
}

struct PowerOff;

impl CommandKind for PowerOff {
    const NAME: &'static str = "sys.Shutdown";
}

#[test]
fn command_kind_derives_a_stable_name() {
    assert_eq!(Reboot::NAME, "Reboot");
    assert_eq!(PowerOff::NAME, "sys.Shutdown");
    assert_eq!(Reboot.command_name(), "Reboot");
    assert_eq!(PowerOff.command_name(), "sys.Shutdown");

    // The same names follow from the naming rule: the type's own name, or
    // its explicit rename.
    assert_eq!(stable_name("", "Reboot", RenameRule::Verbatim, None), Reboot::NAME);
    assert_eq!(
        stable_name("", "PowerOff", RenameRule::Verbatim, Some("sys.Shutdown")),
        PowerOff::NAME
    );
}

#[allow(dead_code)]
enum OrderEvent {
    OrderPlaced,
    LineItemAdded { sku: String },
    OrderShipped,
}

impl DomainEvent for OrderEvent {
    fn event_type(&self) -> &'static str {
        match self {
            OrderEvent::OrderPlaced => "order.order_placed",
            OrderEvent::LineItemAdded { .. } => "order.line_item_added",
            OrderEvent::OrderShipped => "order.shipped",
        }
    }

    fn event_types() -> &'static [&'static str] {
        &["order.order_placed", "order.line_item_added", "order.shipped"]
    }
}

#[test]
fn rename_all_snake_cases_each_variant_and_honours_explicit_rename() {
    assert_eq!(OrderEvent::OrderPlaced.event_type(), "order.order_placed");
    assert_eq!(
        OrderEvent::LineItemAdded { sku: "x".into() }.event_type(),
        "order.line_item_added"
    );
    // explicit rename wins over rename_all
    assert_eq!(OrderEvent::OrderShipped.event_type(), "order.shipped");

    // The same names follow from the naming rule.
    assert_eq!(
        stable_name("order.", "OrderPlaced", RenameRule::SnakeCase, None),
        "order.order_placed"
    );
    assert_eq!(
        stable_name("order.", "LineItemAdded", RenameRule::SnakeCase, None),
        "order.line_item_added"
    );
    assert_eq!(
        stable_name("order.", "OrderShipped", RenameRule::SnakeCase, Some("shipped")),
        "order.shipped"
    );
    let names = stable_names(
        "order.",
        RenameRule::SnakeCase,
        &[
            ("OrderPlaced".to_string(), None),
            ("LineItemAdded".to_string(), None),
            ("OrderShipped".to_string(), Some("shipped".to_string())),
        ],
    );
    assert_eq!(names, OrderEvent::event_types());
}

#[test]
fn naming_rule_prefixes_and_renames() {
    assert_eq!(stable_name("", "Open", RenameRule::Verbatim, None), "Open");
    assert_eq!(
        stable_name("", "Terminate", RenameRule::Verbatim, Some("Close")),
        "Close"
    );
    assert_eq!(
        stable_name("sys.", "PowerOff", RenameRule::Verbatim, Some("Shutdown")),
        "sys.Shutdown"
    );
    assert_eq!(
        stable_name("acct.", "Opened", RenameRule::Verbatim, None),
        "acct.Opened"
    );
    assert!(stable_names("p.", RenameRule::SnakeCase, &[]).is_empty());
}

#[test]
fn snake_case_lowers_and_separates_capitals() {
    assert_eq!(to_snake_case("TurnedOn"), "turned_on");
    assert_eq!(to_snake_case("already_snake"), "already_snake");
    assert_eq!(to_snake_case("A"), "a");
    assert_eq!(to_snake_case("HTTPServer"), "h_t_t_p_server");
    assert_eq!(to_snake_case(""), "");
    assert_eq!(to_snake_case("Größe"), "größe");
}

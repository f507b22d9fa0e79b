use planit::category::Color;
use planit::goal::{Priority, Status as GoalStatus};
use planit::notification::TimeUnit;
use planit::task::Status;

#[test]
fn time_unit_names() {
    assert_eq!(TimeUnit::Minute.as_str(), "MINUTE");
    assert_eq!(TimeUnit::Hour.as_str(), "HOUR");
}

#[test]
fn time_unit_lengths() {
    assert_eq!(TimeUnit::Minute.millis(), 60_000);
    assert_eq!(TimeUnit::Hour.millis(), 3_600_000);
}

#[test]
fn task_status_names() {
    assert_eq!(Status::Executada.as_str(), "EXECUTADA");
    assert_eq!(Status::ParcialmenteExecutada.as_str(), "PARCIALMENTE_EXECUTADA");
    assert_eq!(Status::Adiada.as_str(), "ADIADA");
}

#[test]
fn color_names() {
    assert_eq!(Color::Orange.as_str(), "ORANGE");
    assert_eq!(Color::Yellow.as_str(), "YELLOW");
    assert_eq!(Color::Green.as_str(), "GREEN");
    assert_eq!(Color::Red.as_str(), "RED");
    assert_eq!(Color::Purple.as_str(), "PURPLE");
}

#[test]
fn priority_names() {
    assert_eq!(Priority::High.as_str(), "HIGH");
    assert_eq!(Priority::Medium.as_str(), "MEDIUM");
    assert_eq!(Priority::Low.as_str(), "LOW");
}

#[test]
fn goal_status_names() {
    assert_eq!(GoalStatus::NotReached.as_str(), "NOT_REACHED");
    assert_eq!(GoalStatus::PartiallyReached.as_str(), "PARTIALLY_REACHED");
    assert_eq!(GoalStatus::Reached.as_str(), "REACHED");
}

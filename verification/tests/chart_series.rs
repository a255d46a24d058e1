use tds_monitor::{
    project, second_of_day, time_label, ChartRegistry, HistoryWindow, Reading, RenderAction,
};

#[test]
fn second_of_day_at_epoch() {
    assert_eq!(second_of_day(0, 0), 0);
    assert_eq!(second_of_day(86_399, 0), 86_399);
    assert_eq!(second_of_day(86_400, 0), 0);
}

#[test]
fn second_of_day_with_offset() {
    assert_eq!(second_of_day(0, 3_600), 3_600);
    assert_eq!(second_of_day(0, -3_600), 82_800);
    assert_eq!(second_of_day(7_200, -3_600), 3_600);
}

#[test]
fn second_of_day_before_epoch() {
    assert_eq!(second_of_day(-1, 0), 86_399);
    assert_eq!(second_of_day(-86_400, 0), 0);
}

#[test]
fn time_label_formats_two_digits() {
    assert_eq!(time_label(0, 0), "00:00:00");
    assert_eq!(time_label(3_661, 0), "01:01:01");
    assert_eq!(time_label(86_399, 0), "23:59:59");
    assert_eq!(time_label(45_296, 0), "12:34:56");
}

#[test]
fn time_label_applies_offset() {
    assert_eq!(time_label(0, 3_600), "01:00:00");
    assert_eq!(time_label(0, -1), "23:59:59");
}

#[test]
fn projection_carries_values_in_order() {
    let mut w = HistoryWindow::new();
    w = w.append(Reading::new(100_000, 0));
    w = w.append(Reading::new(500_000, 3_661));
    let (series, _) = project(&w);
    assert_eq!(series.points.len(), 2);
    assert_eq!(series.points[0].value_mppm, 100_000);
    assert_eq!(series.points[1].value_mppm, 500_000);
    assert_eq!(series.points[0].label.len(), 8);
    assert_eq!(series.points[1].label.len(), 8);
    assert_eq!(series.dataset_label, "TDS (ppm)");
    assert_eq!(series.border_color, "rgba(75, 192, 192, 1)");
    assert!(!series.fill);
    assert!(series.begin_at_zero);
}

#[test]
fn projection_of_empty_window() {
    let w = HistoryWindow::new();
    let (series, _) = project(&w);
    assert_eq!(series.points.len(), 0);
}

#[test]
fn registry_decides_create_then_update() {
    let mut reg = ChartRegistry::new();
    let surface = String::from("tdsGraph");
    assert!(reg.is_empty());
    assert!(!reg.has(&surface));
    assert_eq!(reg.decide_render(&surface), RenderAction::Create);

    reg.register(surface.clone());
    assert!(!reg.is_empty());
    assert!(reg.has(&surface));
    assert_eq!(reg.decide_render(&surface), RenderAction::Update);

    let other = String::from("other");
    assert!(!reg.has(&other));
    assert_eq!(reg.decide_render(&other), RenderAction::Create);

    reg.register(surface.clone());
    assert!(reg.has(&surface));
}

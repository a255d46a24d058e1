use tds_monitor::{
    alarm_step, AlarmState, AudioCommand, FetchOutcome, HistoryWindow, QualityBand, Reading,
    Session,
};

#[test]
fn window_starts_empty() {
    let w = HistoryWindow::new();
    assert_eq!(w.len(), 0);
    assert_eq!(w.tail(), None);
}

#[test]
fn append_grows_until_capacity() {
    let mut w = HistoryWindow::new();
    for t in 0..60i64 {
        w = w.append(Reading::new(t * 10, t));
    }
    assert_eq!(w.len(), 60);
    assert_eq!(w.get(0), Reading::new(0, 0));
    assert_eq!(w.tail(), Some(Reading::new(590, 59)));
}

#[test]
fn refresh_beat_changes_nothing() {
    let mut w = HistoryWindow::new();
    w = w.append(Reading::new(100_000, 7));
    let again = w.append(Reading::new(999_000, 7));
    assert_eq!(again.len(), 1);
    assert_eq!(again.tail(), Some(Reading::new(100_000, 7)));
}

#[test]
fn sixty_first_append_evicts_oldest() {
    let mut w = HistoryWindow::new();
    for t in 1..=61i64 {
        w = w.append(Reading::new(t * 1_000, t));
    }
    assert_eq!(w.len(), 60);
    for i in 0..60usize {
        let t = i as i64 + 2;
        assert_eq!(w.get(i), Reading::new(t * 1_000, t));
    }
    assert_eq!(w.tail(), Some(Reading::new(61_000, 61)));
}

#[test]
fn hydrate_sorts_dedups_and_caps() {
    let bulk = vec![
        Reading::new(30_000, 3),
        Reading::new(10_000, 1),
        Reading::new(31_000, 3),
        Reading::new(20_000, 2),
    ];
    let w = HistoryWindow::hydrate(&bulk);
    assert_eq!(w.len(), 3);
    assert_eq!(w.get(0), Reading::new(10_000, 1));
    assert_eq!(w.get(1), Reading::new(20_000, 2));
    assert_eq!(w.get(2), Reading::new(30_000, 3));
}

#[test]
fn hydrate_keeps_most_recent_sixty() {
    let mut bulk = Vec::new();
    for t in 1..=70i64 {
        bulk.push(Reading::new(t, t));
    }
    let w = HistoryWindow::hydrate(&bulk);
    assert_eq!(w.len(), 60);
    assert_eq!(w.get(0), Reading::new(11, 11));
    assert_eq!(w.tail(), Some(Reading::new(70, 70)));
}

#[test]
fn alarm_transitions() {
    let (next, cmd) = alarm_step(AlarmState::Safe, QualityBand::Unacceptable);
    assert_eq!(next, AlarmState::Unsafe);
    assert_eq!(cmd, AudioCommand::Play);

    let (next, cmd) = alarm_step(AlarmState::Unsafe, QualityBand::Unacceptable);
    assert_eq!(next, AlarmState::Unsafe);
    assert_eq!(cmd, AudioCommand::Leave);

    let (next, cmd) = alarm_step(AlarmState::Unsafe, QualityBand::Good);
    assert_eq!(next, AlarmState::Safe);
    assert_eq!(cmd, AudioCommand::PauseAndRewind);

    let (next, cmd) = alarm_step(AlarmState::Safe, QualityBand::Excellent);
    assert_eq!(next, AlarmState::Safe);
    assert_eq!(cmd, AudioCommand::PauseAndRewind);
}

#[test]
fn bulk_fetch_then_unacceptable_raises_alarm() {
    let bulk = vec![
        Reading::new(100_000, 1),
        Reading::new(500_000, 2),
        Reading::new(1_300_000, 3),
    ];
    let mut session = Session::start(Some(bulk));
    assert_eq!(session.alarm, AlarmState::Safe);
    assert_eq!(session.window.len(), 3);
    assert_eq!(session.window.get(0), Reading::new(100_000, 1));
    assert_eq!(session.window.get(1), Reading::new(500_000, 2));
    assert_eq!(session.window.get(2), Reading::new(1_300_000, 3));

    let out = session.tick(FetchOutcome::Arrived(Reading::new(1_300_000, 3)));
    assert_eq!(out.band, QualityBand::Unacceptable);
    assert_eq!(session.alarm, AlarmState::Unsafe);
    assert_eq!(out.audio, AudioCommand::Play);
    assert_eq!(session.window.len(), 3);
}

#[test]
fn failed_fetch_twice_leaves_window_untouched() {
    let mut session = Session::start(None);
    assert_eq!(session.window.len(), 0);

    let out = session.tick(FetchOutcome::Failed);
    assert_eq!(out.current, None);
    assert_eq!(out.band, QualityBand::Disconnected);
    assert_eq!(out.audio, AudioCommand::PauseAndRewind);
    assert_eq!(session.window.len(), 0);
    assert_eq!(session.alarm, AlarmState::Safe);

    let out = session.tick(FetchOutcome::Failed);
    assert_eq!(out.current, None);
    assert_eq!(out.band, QualityBand::Disconnected);
    assert_eq!(out.audio, AudioCommand::PauseAndRewind);
    assert_eq!(session.window.len(), 0);
    assert_eq!(session.alarm, AlarmState::Safe);
}

#[test]
fn ticks_append_and_dedup_against_tail() {
    let mut session = Session::start(None);

    let out = session.tick(FetchOutcome::Arrived(Reading::new(150_000, 10)));
    assert_eq!(out.current, Some(Reading::new(150_000, 10)));
    assert_eq!(out.band, QualityBand::Excellent);
    assert_eq!(session.window.len(), 1);

    let out = session.tick(FetchOutcome::Arrived(Reading::new(150_000, 10)));
    assert_eq!(out.band, QualityBand::Excellent);
    assert_eq!(session.window.len(), 1);

    let out = session.tick(FetchOutcome::Arrived(Reading::new(650_000, 11)));
    assert_eq!(out.band, QualityBand::Acceptable);
    assert_eq!(session.window.len(), 2);
}

#[test]
fn alarm_clears_after_recovery() {
    let mut session = Session::start(None);
    session.tick(FetchOutcome::Arrived(Reading::new(1_250_000, 1)));
    assert_eq!(session.alarm, AlarmState::Unsafe);
    let out = session.tick(FetchOutcome::Arrived(Reading::new(200_000, 2)));
    assert_eq!(session.alarm, AlarmState::Safe);
    assert_eq!(out.audio, AudioCommand::PauseAndRewind);
}

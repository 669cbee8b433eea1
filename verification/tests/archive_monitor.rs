use memory_server::runners::{should_archive, ArchiveMonitor, MonitorAction, MonitorEvent, ARCHIVE_TOKEN_LIMIT};

fn s(x: &str) -> String {
    x.to_string()
}

#[test]
fn limit_is_exclusive() {
    assert_eq!(ARCHIVE_TOKEN_LIMIT, 1000);
    assert!(!should_archive(1000));
    assert!(should_archive(1001));
    assert!(!should_archive(0));
}

#[test]
fn one_round_over_two_sessions() {
    let mut m = ArchiveMonitor::new();
    assert!(matches!(m.pending(), MonitorAction::WaitForTick));
    m.step(MonitorEvent::Ticked);
    assert!(matches!(m.pending(), MonitorAction::ListSessions));
    m.step(MonitorEvent::SessionsListed(vec![s("a"), s("b"), s("c")]));
    assert!(matches!(m.pending(), MonitorAction::LookUpUser { session } if session == "a"));
    m.step(MonitorEvent::UserNotFound);
    assert!(matches!(m.pending(), MonitorAction::LookUpUser { session } if session == "b"));
    m.step(MonitorEvent::UserFound(s("u")));
    assert!(matches!(m.pending(), MonitorAction::CountTokens { session } if session == "b"));
    m.step(MonitorEvent::TokensCounted(1001));
    assert!(matches!(m.pending(), MonitorAction::Archive { user, session } if user == "u" && session == "b"));
    m.step(MonitorEvent::ArchiveFailed);
    assert!(matches!(m.pending(), MonitorAction::LookUpUser { session } if session == "c"));
    m.step(MonitorEvent::UserFound(s("v")));
    m.step(MonitorEvent::TokensCounted(1000));
    assert!(matches!(m.pending(), MonitorAction::WaitForTick));
}

#[test]
fn failed_count_moves_on() {
    let mut m = ArchiveMonitor::new();
    m.step(MonitorEvent::Ticked);
    m.step(MonitorEvent::SessionsListed(vec![s("a")]));
    m.step(MonitorEvent::UserFound(s("u")));
    m.step(MonitorEvent::CountFailed);
    assert!(matches!(m.pending(), MonitorAction::WaitForTick));
}

#[test]
fn empty_listing_waits_again() {
    let mut m = ArchiveMonitor::new();
    m.step(MonitorEvent::Ticked);
    m.step(MonitorEvent::SessionsListed(vec![]));
    assert!(matches!(m.pending(), MonitorAction::WaitForTick));
}

#[test]
fn failed_listing_stops_for_good() {
    let mut m = ArchiveMonitor::new();
    m.step(MonitorEvent::Ticked);
    m.step(MonitorEvent::ListingFailed);
    assert!(matches!(m.pending(), MonitorAction::Stop));
    m.step(MonitorEvent::Ticked);
    m.step(MonitorEvent::SessionsListed(vec![s("a")]));
    assert!(matches!(m.pending(), MonitorAction::Stop));
}

#[test]
fn unexpected_event_changes_nothing() {
    let mut m = ArchiveMonitor::new();
    m.step(MonitorEvent::Archived);
    assert!(matches!(m.pending(), MonitorAction::WaitForTick));
    m.step(MonitorEvent::Ticked);
    m.step(MonitorEvent::TokensCounted(5000));
    assert!(matches!(m.pending(), MonitorAction::ListSessions));
}

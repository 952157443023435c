use lanch::cache::LanchCache;
use lanch::executable::ExecutableSuggestion;
use lanch::program::ProgramSuggestion;
use lanch::session::{QuerySession, Reaction, SUGGESTIONS_PER_PAGE};
use lanch::suggestion::{Action, Candidate, Direction, LanchMessage, Layout};

fn session_with(programs: Vec<ProgramSuggestion>, executables: Vec<ExecutableSuggestion>) -> QuerySession {
    QuerySession::new(LanchCache { programs, executables })
}

fn tools(n: usize) -> QuerySession {
    let es = (0..n)
        .map(|i| ExecutableSuggestion::new(&format!("tool{}", i), &format!("/bin/tool{}", i)))
        .collect();
    session_with(vec![], es)
}

fn is_command(c: &Candidate, text: &str) -> bool {
    matches!(c, Candidate::Command(s) if s.cmd == text)
}

#[test]
fn empty_query_has_no_candidates() {
    let mut s = tools(3);
    s.set_query("");
    assert!(s.suggestions().is_empty());
    s.set_query("   ");
    assert!(s.suggestions().is_empty());
    assert!(s.execute_selected().is_none());
}

#[test]
fn fallback_command_for_unmatched_query() {
    let mut s = tools(3);
    s.set_query("zzzznomatch");
    assert_eq!(s.suggestions().len(), 1);
    assert!(is_command(&s.suggestions()[0], "zzzznomatch"));
}

#[test]
fn escape_command_goes_in_front() {
    let mut s = session_with(
        vec![ProgramSuggestion::new("!ls -la", "x", None)],
        vec![ExecutableSuggestion::new("!ls -la", "/bin/x")],
    );
    s.set_query("!ls -la");
    assert!(is_command(&s.suggestions()[0], "ls -la"));
    assert_eq!(s.suggestions().len(), 3);
    match s.execute_selected() {
        Some(Action::Spawn(p, args)) => {
            assert_eq!(p, "ls");
            assert_eq!(args, vec!["-la".to_string()]);
        }
        other => panic!("unexpected {:?}", other),
    }
}

#[test]
fn exact_candidates_come_before_contained() {
    let mut s = session_with(
        vec![ProgramSuggestion::new("Firefox", "firefox %u", None)],
        vec![ExecutableSuggestion::new("firefox", "/usr/bin/firefox")],
    );
    s.set_query("  firefox ");
    assert_eq!(s.query(), "firefox ");
    let v = s.suggestions();
    assert_eq!(v.len(), 3);
    assert!(matches!(v[0], Candidate::Executable(0)));
    assert!(is_command(&v[1], "firefox"));
    assert!(matches!(v[2], Candidate::Program(0)));
}

#[test]
fn time_query_offers_time_first() {
    let mut s = tools(0);
    s.set_query("time Tokyo");
    let v = s.suggestions();
    assert!(matches!(&v[0], Candidate::Time(t) if t.time_zone.as_deref() == Some("Asia/Tokyo")));
    assert!(is_command(&v[1], "time Tokyo"));
    assert_eq!(v.len(), 2);
}

#[test]
fn builtin_query_ranks_named_command_first() {
    let mut s = tools(0);
    s.set_query("/help");
    let v = s.suggestions();
    assert!(is_command(&v[0], "/help"));
    assert!(matches!(v[1], Candidate::BuiltIn(1)));
    assert!(matches!(v[2], Candidate::BuiltIn(0)));
}

#[test]
fn navigation_moves_across_pages() {
    let mut s = tools(25);
    s.set_query("tool");
    assert_eq!(s.suggestions().len(), 26);
    for _ in 0..9 {
        s.navigate(Direction::Down);
    }
    assert_eq!((s.page(), s.selected()), (0, 9));
    s.navigate(Direction::Down);
    assert_eq!((s.page(), s.selected()), (1, 0));
    s.navigate(Direction::Up);
    assert_eq!((s.page(), s.selected()), (0, 9));
    for _ in 0..40 {
        s.navigate(Direction::Down);
    }
    assert_eq!((s.page(), s.selected()), (2, 5));
    assert_eq!(s.selected_index(), 25);
    for _ in 0..40 {
        s.navigate(Direction::Up);
    }
    assert_eq!((s.page(), s.selected()), (0, 0));
}

#[test]
fn navigation_on_full_last_page_stays() {
    let mut s = tools(19);
    s.set_query("tool");
    assert_eq!(s.suggestions().len(), 20);
    for _ in 0..30 {
        s.navigate(Direction::Down);
    }
    assert_eq!((s.page(), s.selected()), (1, SUGGESTIONS_PER_PAGE - 1));
}

#[test]
fn navigation_without_candidates_stays_at_zero() {
    let mut s = tools(0);
    s.navigate(Direction::Down);
    s.navigate(Direction::Up);
    assert_eq!((s.page(), s.selected()), (0, 0));
}

#[test]
fn query_change_resets_cursor() {
    let mut s = tools(5);
    s.set_query("tool");
    s.navigate(Direction::Down);
    s.navigate(Direction::Down);
    assert_eq!(s.selected(), 2);
    s.set_query("tool1");
    assert_eq!((s.page(), s.selected()), (0, 0));
}

#[test]
fn update_handles_layouts_and_escape() {
    let mut s = tools(0);
    assert!(matches!(s.update(LanchMessage::Escape), Reaction::Quit));
    assert!(matches!(
        s.update(LanchMessage::SwitchLayout(Layout::License)),
        Reaction::Switched(Layout::License)
    ));
    assert_eq!(s.layout(), Layout::License);
    assert!(matches!(s.update(LanchMessage::Escape), Reaction::Switched(Layout::Default)));
    assert_eq!(s.layout(), Layout::Default);
}

#[test]
fn update_runs_selected_candidate() {
    let mut s = tools(2);
    assert!(matches!(s.update(LanchMessage::ExecuteSelected), Reaction::Refresh));
    assert!(matches!(s.update(LanchMessage::QueryChanged("tool1".into())), Reaction::Suggested));
    match s.update(LanchMessage::ExecuteSelected) {
        Reaction::Perform(Action::Spawn(p, args)) => {
            assert_eq!(p, "/bin/tool1");
            assert!(args.is_empty());
        }
        other => panic!("unexpected {:?}", other),
    }
    assert!(matches!(s.update(LanchMessage::NavigateList(Direction::Down)), Reaction::Refresh));
    assert_eq!(s.selected(), 1);
}

#[test]
fn license_builtin_asks_for_layout_switch() {
    let mut s = tools(0);
    s.set_query("/license");
    s.navigate(Direction::Down);
    match s.execute_selected() {
        Some(Action::FollowUp(LanchMessage::SwitchLayout(l))) => assert_eq!(l, Layout::License),
        other => panic!("unexpected {:?}", other),
    }
}

#[test]
fn exactly_one_command_candidate() {
    let mut s = session_with(
        vec![ProgramSuggestion::new("ls", "ls", None)],
        vec![ExecutableSuggestion::new("ls", "/bin/ls")],
    );
    s.set_query("ls");
    let count = s.suggestions().iter().filter(|c| matches!(c, Candidate::Command(_))).count();
    assert_eq!(count, 1);
    assert!(matches!(s.suggestions()[0], Candidate::Executable(0)));
    assert!(matches!(s.suggestions()[1], Candidate::Program(0)));
    assert!(is_command(&s.suggestions()[2], "ls"));
}

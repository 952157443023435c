use lanch::builtin::BuiltInModule;
use lanch::command::{CommandModule, CommandSuggestion};
use lanch::executable::ExecutableSuggestion;
use lanch::help::HelpSuggestion;
use lanch::program::ProgramSuggestion;
use lanch::suggestion::{
    level_from_folded, name_matches, Action, Candidate, LanchMessage, Layout, MatchLevel,
    Suggestion, SuggestionModule,
};
use lanch::timedate::{
    first_known_zone, get_timezone, keyword_level_of, DateSuggestion, TimeSuggestion,
};
use std::collections::VecDeque;

fn spawn_parts(a: &Action) -> Option<(String, Vec<String>)> {
    match a {
        Action::Spawn(p, args) => Some((p.clone(), args.clone())),
        _ => None,
    }
}

#[test]
fn program_exact_match_is_case_sensitive() {
    let p = ProgramSuggestion::new("Firefox", "firefox %u", None);
    assert_eq!(p.matches("Firefox"), MatchLevel::Exact);
    assert_eq!(p.matches("firefox"), MatchLevel::Contained);
}

#[test]
fn program_contained_ignores_case() {
    let p = ProgramSuggestion::new("firefox", "firefox", None);
    assert_eq!(p.matches("FIRE"), MatchLevel::Contained);
    assert_eq!(p.matches("fox"), MatchLevel::Contained);
    assert_eq!(p.matches("chrome"), MatchLevel::NoMatch);
}

#[test]
fn executable_levels() {
    let e = ExecutableSuggestion::new("ls", "/usr/bin/ls");
    assert_eq!(e.matches("ls"), MatchLevel::Exact);
    assert_eq!(e.matches("L"), MatchLevel::Contained);
    assert_eq!(e.matches("cat"), MatchLevel::NoMatch);
}

#[test]
fn name_matches_folds_both_sides() {
    assert_eq!(name_matches("TERM", "Terminal"), MatchLevel::Contained);
    assert_eq!(name_matches("Terminal", "Terminal"), MatchLevel::Exact);
    assert_eq!(name_matches("xterm", "Terminal"), MatchLevel::NoMatch);
}

#[test]
fn level_from_folded_uses_the_given_folds() {
    assert_eq!(level_from_folded("X", "abc", "b", "abc"), MatchLevel::Contained);
    assert_eq!(level_from_folded("abc", "abc", "zz", "abc"), MatchLevel::Exact);
    assert_eq!(level_from_folded("B", "abc", "B", "abc"), MatchLevel::NoMatch);
}

#[test]
fn builtin_levels() {
    let m = BuiltInModule::new();
    assert_eq!(m.cmds.len(), 2);
    assert_eq!(m.cmds[0].name, "license");
    assert_eq!(m.cmds[1].name, "help");
    assert_eq!(m.cmds[0].matches("/license"), MatchLevel::Exact);
    assert_eq!(m.cmds[1].matches("/license"), MatchLevel::Contained);
    assert_eq!(m.cmds[0].matches("/"), MatchLevel::Contained);
    assert_eq!(m.cmds[0].matches("license"), MatchLevel::NoMatch);
}

#[test]
fn builtin_license_switches_layout() {
    let m = BuiltInModule::new();
    match m.cmds[0].action() {
        Action::FollowUp(LanchMessage::SwitchLayout(l)) => assert_eq!(l, Layout::License),
        other => panic!("unexpected action {:?}", other),
    }
}

#[test]
fn help_levels() {
    let h = HelpSuggestion;
    assert_eq!(h.matches("?"), MatchLevel::Exact);
    assert_eq!(h.matches("help"), MatchLevel::Exact);
    assert_eq!(h.matches("helpme"), MatchLevel::NoMatch);
}

#[test]
fn command_action_splits_whitespace() {
    let c = CommandSuggestion::with_cmd("ls   -la\t/tmp");
    let (p, args) = spawn_parts(&c.action()).unwrap();
    assert_eq!(p, "ls");
    assert_eq!(args, vec!["-la".to_string(), "/tmp".to_string()]);
    assert_eq!(c.matches("anything"), MatchLevel::Exact);
}

#[test]
fn empty_command_reports_no_program() {
    let c = CommandSuggestion::with_cmd("   ");
    assert!(matches!(c.action(), Action::EmptyCommand));
}

#[test]
fn program_action_drops_field_codes() {
    let p = ProgramSuggestion::new("Firefox", "firefox %u --new-window %F", None);
    let (prog, args) = spawn_parts(&p.action()).unwrap();
    assert_eq!(prog, "firefox");
    assert_eq!(args, vec!["--new-window".to_string()]);
}

#[test]
fn executable_action_starts_path() {
    let e = ExecutableSuggestion::new("ls", "/usr/bin/ls");
    let (prog, args) = spawn_parts(&e.action()).unwrap();
    assert_eq!(prog, "/usr/bin/ls");
    assert!(args.is_empty());
}

#[test]
fn time_tokyo_resolves_to_asia_tokyo() {
    let (level, t) = TimeSuggestion::resolve("time Tokyo");
    assert_eq!(level, MatchLevel::Exact);
    assert_eq!(t.time_zone.as_deref(), Some("Asia/Tokyo"));
}

#[test]
fn time_unknown_zone_is_contained() {
    let (level, t) = TimeSuggestion::resolve("time Nowhereland");
    assert_eq!(level, MatchLevel::Contained);
    assert_eq!(t.time_zone, None);
}

#[test]
fn bare_keyword_is_exact() {
    let (level, t) = TimeSuggestion::resolve("time");
    assert_eq!(level, MatchLevel::Exact);
    assert_eq!(t.time_zone, None);
    let (level, d) = DateSuggestion::resolve("date");
    assert_eq!(level, MatchLevel::Exact);
    assert_eq!(d.time_zone, None);
}

#[test]
fn zone_words_are_title_cased_and_joined() {
    let (level, d) = DateSuggestion::resolve("date new york");
    assert_eq!(level, MatchLevel::Exact);
    assert_eq!(d.time_zone.as_deref(), Some("America/New_York"));
    let (level, t) = TimeSuggestion::resolve("tokyo time");
    assert_eq!(level, MatchLevel::Exact);
    assert_eq!(t.time_zone.as_deref(), Some("Asia/Tokyo"));
}

#[test]
fn full_zone_name_resolves_directly() {
    assert_eq!(get_timezone("time Europe/Paris", "time").as_deref(), Some("Europe/Paris"));
    assert_eq!(get_timezone("time   ", "time"), None);
}

#[test]
fn no_keyword_is_no_match() {
    let (level, t) = TimeSuggestion::resolve("firefox");
    assert_eq!(level, MatchLevel::NoMatch);
    assert_eq!(t.time_zone, None);
    assert_eq!(TimeSuggestion { time_zone: None }.matches("tim"), MatchLevel::NoMatch);
}

#[test]
fn keyword_level_from_given_zone() {
    let z = Some("Somewhere/Else".to_string());
    assert_eq!(keyword_level_of("time x", "time", &z), MatchLevel::Exact);
    assert_eq!(keyword_level_of("time x", "time", &None), MatchLevel::Contained);
    assert_eq!(keyword_level_of("x", "time", &z), MatchLevel::NoMatch);
}

#[test]
fn first_known_zone_picks_first_flag() {
    let names = vec!["A".to_string(), "B".to_string(), "C".to_string()];
    assert_eq!(first_known_zone(&names, &vec![false, true, true]).as_deref(), Some("B"));
    assert_eq!(first_known_zone(&names, &vec![false, false, false]), None);
    assert_eq!(first_known_zone(&names, &vec![false]), None);
}

#[test]
fn command_source_puts_escaped_command_in_front() {
    let mut v: VecDeque<Candidate> = VecDeque::new();
    v.push_back(Candidate::Program(0));
    CommandModule.get_matches("!ls -la", &mut v);
    assert_eq!(v.len(), 2);
    assert!(matches!(&v[0], Candidate::Command(c) if c.cmd == "ls -la"));
    CommandModule.get_matches("ls", &mut v);
    assert!(matches!(&v[0], Candidate::Command(c) if c.cmd == "ls"));
    assert_eq!(v.len(), 3);
}

use lanch::cache::{CacheError, LanchCache, LanchCacheRc};
use lanch::desktop::{executables_from, parse_desktop_entry, search_dirs, DirChild};
use lanch::executable::ExecutableSuggestion;
use lanch::program::ProgramSuggestion;
use lanch::text::{chars_of, find, split_chars, split_words, string_of, trimmed};

fn chars(s: &str) -> Vec<char> {
    s.chars().collect()
}

#[test]
fn first_non_empty_name_wins() {
    let text = "[Desktop Entry]\nName=Foo\nExec=foo --flag\nName=Bar\n";
    let f = parse_desktop_entry(text).unwrap();
    assert_eq!(f.name, "Foo");
    assert_eq!(f.command_line, "foo --flag");
    assert_eq!(f.icon, None);
}

#[test]
fn empty_value_counts_as_unset() {
    let text = "Name=\nName=Real\r\nExec=run\r\nIcon=app-icon\r\n";
    let f = parse_desktop_entry(text).unwrap();
    assert_eq!(f.name, "Real");
    assert_eq!(f.command_line, "run");
    assert_eq!(f.icon.as_deref(), Some("app-icon"));
}

#[test]
fn entry_without_exec_is_skipped() {
    assert!(parse_desktop_entry("Name=Foo\nIcon=x\n").is_none());
    assert!(parse_desktop_entry("Exec=foo\nName\n").is_none());
    assert!(parse_desktop_entry("").is_none());
}

#[test]
fn localized_keys_are_not_names() {
    let f = parse_desktop_entry("Name[de]=Anzeige\nName=Viewer\nExec=view").unwrap();
    assert_eq!(f.name, "Viewer");
}

#[test]
fn search_path_is_split_on_colons() {
    assert_eq!(
        search_dirs(Some("/usr/bin::/bin")),
        vec!["/usr/bin".to_string(), "".to_string(), "/bin".to_string()]
    );
    assert_eq!(search_dirs(None), vec!["/bin".to_string()]);
}

#[test]
fn directories_are_not_executables() {
    let children = vec![
        DirChild { name: "ls".into(), path: "/bin/ls".into(), is_dir: false },
        DirChild { name: "sub".into(), path: "/bin/sub".into(), is_dir: true },
        DirChild { name: "ls".into(), path: "/usr/bin/ls".into(), is_dir: false },
    ];
    let es = executables_from(&children);
    assert_eq!(es.len(), 2);
    assert_eq!(es[0].path, "/bin/ls");
    assert_eq!(es[1].path, "/usr/bin/ls");
}

#[test]
fn text_helpers() {
    assert_eq!(chars_of("héllo"), chars("héllo"));
    assert_eq!(string_of(&chars("abc")), "abc");
    assert_eq!(trimmed(&chars("\t a b \u{3000}")), chars("a b"));
    assert_eq!(find(&chars("abcabc"), &chars("ca")), Some(2));
    assert_eq!(find(&chars("abc"), &chars("")), Some(0));
    assert_eq!(find(&chars("abc"), &chars("d")), None);
    assert_eq!(split_chars(&chars("a::b"), ':'), vec![chars("a"), chars(""), chars("b")]);
    assert_eq!(split_words(&chars("  a\tbc \n")), vec![chars("a"), chars("bc")]);
}

fn sample_cache() -> LanchCache {
    LanchCache {
        programs: vec![
            ProgramSuggestion::new("Files", "nautilus %U", Some("/icons/files.png".to_string())),
            ProgramSuggestion::new("Térm", "term", None),
        ],
        executables: vec![ExecutableSuggestion::new("ls", "/bin/ls")],
    }
}

#[test]
fn cache_round_trip() {
    let c = sample_cache();
    let bytes = c.encode();
    let d = LanchCache::decode(&bytes).unwrap();
    assert_eq!(d.programs.len(), 2);
    assert_eq!(d.programs[0].name, "Files");
    assert_eq!(d.programs[0].command_line, "nautilus %U");
    assert_eq!(d.programs[0].icon.as_deref(), Some("/icons/files.png"));
    assert_eq!(d.programs[1].name, "Térm");
    assert_eq!(d.programs[1].icon, None);
    assert_eq!(d.executables.len(), 1);
    assert_eq!(d.executables[0].name, "ls");
    assert_eq!(d.executables[0].path, "/bin/ls");
}

#[test]
fn cache_encoding_is_length_prefixed() {
    let empty = LanchCache::default();
    assert_eq!(empty.encode(), vec![0u8; 16]);
    let one = LanchCache {
        programs: vec![ProgramSuggestion::new("a", "b", None)],
        executables: vec![],
    };
    let mut expected: Vec<u8> = vec![1, 0, 0, 0, 0, 0, 0, 0];
    expected.extend_from_slice(&[1, 0, 0, 0, 0, 0, 0, 0, b'a']);
    expected.extend_from_slice(&[1, 0, 0, 0, 0, 0, 0, 0, b'b']);
    expected.push(0);
    expected.extend_from_slice(&[0, 0, 0, 0, 0, 0, 0, 0]);
    assert_eq!(one.encode(), expected);
}

#[test]
fn corrupt_cache_fails_to_decode() {
    assert_eq!(LanchCache::decode(&[1, 2, 3]).err(), Some(CacheError::Decode));
    assert_eq!(LanchCache::decode(&[]).err(), Some(CacheError::Decode));
}

#[test]
fn shared_cache_keeps_order() {
    let rc = LanchCacheRc::from(sample_cache());
    assert_eq!(rc.programs.len(), 2);
    assert_eq!(rc.programs[1].name, "Térm");
    assert_eq!(rc.executables[0].path, "/bin/ls");
}

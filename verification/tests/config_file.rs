use nixgen::config_file::{parse, parse_bool, strip_comment, ConfigFile, DEFAULT_PATH};
use nixgen::error::{Error, Halt};
use nixgen::host::{Facts, FileRead, Probe, Process};

fn facts() -> Facts {
    Facts::new(Process {
        arch: "x86_64".to_owned(),
        little_endian: true,
        is_root: false,
        elevated: false,
    })
}

#[test]
fn parses_all_keys() {
    let body = "[Defaults]\nDirectory = /custom/dir\nRootDirectory = /mnt\nKernel = latest\nFlake = true\n";
    let cfg = parse(body).unwrap();
    assert_eq!(cfg.directory.as_deref(), Some("/custom/dir"));
    assert_eq!(cfg.root_directory.as_deref(), Some("/mnt"));
    assert_eq!(cfg.kernel.as_deref(), Some("latest"));
    assert_eq!(cfg.flake, Some(true));
}

#[test]
fn strips_quotes_and_comments() {
    let body = "# top-level comment\n[Defaults]  ; inline\nDirectory = \"/etc/nixos\"   # trailing\n";
    let cfg = parse(body).unwrap();
    assert_eq!(cfg.directory.as_deref(), Some("/etc/nixos"));
}

#[test]
fn ignores_other_sections() {
    let body = "[Other]\nDirectory = /no\n[Defaults]\nKernel = lts\n";
    let cfg = parse(body).unwrap();
    assert_eq!(cfg.directory, None);
    assert_eq!(cfg.kernel.as_deref(), Some("lts"));
}

#[test]
fn flake_bool_variants() {
    for (s, expected) in [
        ("1", true),
        ("true", true),
        ("True", true),
        ("yes", true),
        ("on", true),
        ("0", false),
        ("false", false),
        ("", false),
    ] {
        let cfg = parse(&format!("[Defaults]\nFlake = {s}\n")).unwrap();
        assert_eq!(cfg.flake, Some(expected), "input: {s:?}");
    }
}

#[test]
fn empty_or_missing_is_default() {
    assert_eq!(parse("").unwrap(), ConfigFile::default());
    assert_eq!(parse("# just a comment\n").unwrap(), ConfigFile::default());
}

#[test]
fn malformed_line_errors() {
    assert!(parse("[Defaults]\nno equals\n").is_err());
}

#[test]
fn malformed_line_is_named() {
    let e = parse("# c\n[Defaults]\n\n  no equals ; c\n").unwrap_err();
    assert_eq!(e.line, 4);
    assert_eq!(e.text, "  no equals ; c");
}

#[test]
fn malformed_lines_elsewhere_do_not_matter() {
    let cfg = parse("no equals\n[Other]\nno equals\n").unwrap();
    assert_eq!(cfg, ConfigFile::default());
}

#[test]
fn section_names_ignore_case_and_space() {
    let cfg = parse("[ dEFAULTS ]\nKernel=latest").unwrap();
    assert_eq!(cfg.kernel.as_deref(), Some("latest"));
}

#[test]
fn section_can_be_left_again() {
    let cfg = parse("[Defaults]\nKernel=lts\n[Other]\nKernel=latest\n").unwrap();
    assert_eq!(cfg.kernel.as_deref(), Some("lts"));
}

#[test]
fn later_setting_counts() {
    let cfg = parse("[Defaults]\r\nKernel=lts\r\nKernel=latest\r\n").unwrap();
    assert_eq!(cfg.kernel.as_deref(), Some("latest"));
}

#[test]
fn keys_are_case_sensitive_and_unknown_ones_skipped() {
    let cfg = parse("[Defaults]\nkernel = latest\nColour = red\n").unwrap();
    assert_eq!(cfg, ConfigFile::default());
}

#[test]
fn value_keeps_further_equal_signs() {
    let cfg = parse("[Defaults]\nDirectory = /a=b\n").unwrap();
    assert_eq!(cfg.directory.as_deref(), Some("/a=b"));
}

#[test]
fn comment_characters_in_quotes_are_kept() {
    assert_eq!(strip_comment("a \"b;c#d\" ; e"), "a \"b;c#d\" ");
    assert_eq!(strip_comment("a \"b"), "a \"b");
    assert_eq!(strip_comment("\u{e9}#x"), "\u{e9}");
    assert_eq!(strip_comment("#"), "");
    let cfg = parse("[Defaults]\nDirectory = \"/a;b\" # c\n").unwrap();
    assert_eq!(cfg.directory.as_deref(), Some("/a;b"));
}

#[test]
fn line_means_the_same_without_its_comment() {
    let line = "Kernel = latest ; newest";
    assert_eq!(strip_comment(strip_comment(line)), strip_comment(line));
    assert_eq!(
        parse(&format!("[Defaults]\n{line}\n")).unwrap(),
        parse(&format!("[Defaults]\n{}\n", strip_comment(line))).unwrap()
    );
}

#[test]
fn other_words_are_no() {
    assert!(parse_bool(" ON\t"));
    assert!(!parse_bool("off"));
    assert!(!parse_bool("2"));
    assert!(!parse_bool("enable"));
}

#[test]
fn load_asks_for_the_file() {
    let f = facts();
    assert_eq!(
        ConfigFile::load_default(&f),
        Err(Halt::Need(Probe::ReadFile(DEFAULT_PATH.to_owned())))
    );
    assert_eq!(DEFAULT_PATH, "/etc/nixos-generate-config.conf");
}

#[test]
fn missing_file_sets_nothing() {
    let mut f = facts();
    f.files.insert(DEFAULT_PATH.to_owned(), FileRead::Missing);
    assert_eq!(ConfigFile::load_default(&f), Ok(ConfigFile::default()));
}

#[test]
fn unreadable_file_is_an_error() {
    let mut f = facts();
    f.files
        .insert("/c".to_owned(), FileRead::Failed("denied".to_owned()));
    assert_eq!(
        ConfigFile::load("/c", &f),
        Err(Halt::Fail(Error::UnreadableFile {
            path: "/c".to_owned(),
            reason: Some("denied".to_owned()),
        }))
    );
}

#[test]
fn file_is_parsed() {
    let mut f = facts();
    f.files.insert(
        "/c".to_owned(),
        FileRead::Text("[Defaults]\nFlake = on\n".to_owned()),
    );
    let cfg = ConfigFile::load("/c", &f).unwrap();
    assert_eq!(cfg.flake, Some(true));
    assert_eq!(cfg.clone(), cfg);
    f.files
        .insert("/d".to_owned(), FileRead::Text("[Defaults]\nx\n".to_owned()));
    assert_eq!(
        ConfigFile::load("/d", &f),
        Err(Halt::Fail(Error::Syntax {
            path: "/d".to_owned(),
            line: 2,
            text: "x".to_owned(),
        }))
    );
}

#[test]
fn settings_are_read_back() {
    for value in ["/a b", "/etc/nixos", "x"] {
        let cfg = parse(&format!("[Defaults]\nDirectory = {value}\n")).unwrap();
        assert_eq!(cfg.directory.as_deref(), Some(value));
    }
    for value in ["", " a ", ";#=", "\u{e9} [x]"] {
        let cfg = parse(&format!("[Defaults]\nDirectory = \"{value}\"\n")).unwrap();
        assert_eq!(cfg.directory.as_deref(), Some(value));
    }
}

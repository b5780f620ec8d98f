use lightignore::display::column_layout_for_width;
use lightignore::gitignore::{generate_gitignore_content, OutputSection};
use lightignore::template::{classify_repo_entry, prepare_download, DownloadError, EntryPlan,
    RepoContent, TemplateIndex};
use lightignore::theme::{parse_u8, theme_kind_from_colorfgbg, Theme, ThemeKind, UiColor};
use lightignore::updater::{classify_archive_name, find_newer_release, rate_limit_wait,
    ArchiveKind, UpdateCheck};
use lightignore::validation::{check_output_path, validate_template_key, KeyError, PathError};

fn s(x: &str) -> String {
    x.to_string()
}

#[test]
fn template_keys_are_validated_in_order() {
    assert_eq!(validate_template_key("community/Rust"), Ok(()));
    assert_eq!(validate_template_key(""), Err(KeyError::Empty));
    assert_eq!(validate_template_key("a/../b"), Err(KeyError::ParentTraversal));
    assert_eq!(validate_template_key("/abs"), Err(KeyError::LeadingSeparator));
    assert_eq!(validate_template_key("\\abs"), Err(KeyError::LeadingSeparator));
    assert_eq!(validate_template_key("a\\b"), Err(KeyError::Backslash));
    assert_eq!(validate_template_key("a\0b"), Err(KeyError::NullByte));
    assert_eq!(validate_template_key(&"x".repeat(256)), Err(KeyError::TooLong));
    assert_eq!(validate_template_key(&"x".repeat(255)), Ok(()));
}

#[test]
fn template_key_length_counts_bytes_not_characters() {
    // 128 two-byte characters are 256 bytes: over the limit even though the
    // character count is far below it.
    assert_eq!(validate_template_key(&"é".repeat(128)), Err(KeyError::TooLong));
    assert_eq!(validate_template_key(&"é".repeat(127)), Ok(()));
}

#[test]
fn output_paths_outside_the_working_directory_need_clean_spelling() {
    let r = check_output_path("/home/elsewhere/f", "../f", false);
    assert_eq!(r, Err(PathError::SuspiciousPattern));
    let r = check_output_path("/home/elsewhere/f", "f", false);
    assert_eq!(r, Ok(()));
    let r = check_output_path("/home/me/p/f", "../p/f", true);
    assert_eq!(r, Ok(()));
}

#[test]
fn output_paths_into_system_directories_are_rejected() {
    let r = check_output_path("/etc/passwd", "/etc/passwd", false);
    assert_eq!(r, Err(PathError::SystemDirectory(s("/etc/"))));
    let r = check_output_path("/usr/bin/x", "/usr/bin/x", false);
    assert_eq!(r, Err(PathError::SystemDirectory(s("/usr/bin/"))));
    let r = check_output_path("/home/me/.gitignore", "/home/me/.gitignore", false);
    assert_eq!(r, Ok(()));
}

#[test]
fn index_lists_in_ascending_name_order_and_replaces_by_name() {
    let mut index = TemplateIndex::new();
    index.insert(s("Rust"), s("/cache/Rust.gitignore"));
    index.insert(s("Go"), s("/cache/Go.gitignore"));
    index.insert(s("Rust"), s("/cache/community_Rust.gitignore"));
    assert_eq!(index.list(), vec![s("Go"), s("Rust")]);
    assert_eq!(index.get("Rust"), Some(&s("/cache/community_Rust.gitignore")));
    assert_eq!(index.get("Go"), Some(&s("/cache/Go.gitignore")));
    assert_eq!(index.get("Zig"), None);
}

#[test]
fn index_order_is_independent_of_insertion_order() {
    let names = ["Zig", "Ada", "rust", "Rust", "Go"];
    let mut forward = TemplateIndex::new();
    for name in names {
        forward.insert(s(name), s("p"));
    }
    let mut backward = TemplateIndex::new();
    for name in names.iter().rev() {
        backward.insert(s(name), s("p"));
    }
    // Byte order: upper-case names precede lower-case ones.
    let sorted = vec![s("Ada"), s("Go"), s("Rust"), s("Zig"), s("rust")];
    assert_eq!(forward.list(), sorted);
    assert_eq!(backward.list(), sorted);
}

#[test]
fn repo_entries_classify_into_templates_directories_and_noise() {
    let file = RepoContent {
        name: s("Rust.gitignore"),
        content_type: s("file"),
        download_url: Some(s("https://example.test/Rust.gitignore")),
        path: s("Rust.gitignore"),
    };
    match classify_repo_entry(&file, "") {
        EntryPlan::Template { cache_key, name } => {
            assert_eq!(cache_key, s("Rust"));
            assert_eq!(name, s("Rust"));
        },
        _ => panic!("expected a template"),
    }
    match classify_repo_entry(&file, "community") {
        EntryPlan::Template { cache_key, name } => {
            assert_eq!(cache_key, s("community/Rust"));
            assert_eq!(name, s("Rust"));
        },
        _ => panic!("expected a template"),
    }

    let dir = RepoContent {
        name: s("community"),
        content_type: s("dir"),
        download_url: None,
        path: s("community"),
    };
    assert!(matches!(classify_repo_entry(&dir, ""), EntryPlan::Descend));

    let no_url = RepoContent {
        name: s("Rust.gitignore"),
        content_type: s("file"),
        download_url: None,
        path: s("Rust.gitignore"),
    };
    assert!(matches!(classify_repo_entry(&no_url, ""), EntryPlan::Skip));

    let readme = RepoContent {
        name: s("README.md"),
        content_type: s("file"),
        download_url: Some(s("https://example.test/README.md")),
        path: s("README.md"),
    };
    assert!(matches!(classify_repo_entry(&readme, ""), EntryPlan::Skip));
}

#[test]
fn template_display_names_drop_every_trailing_extension() {
    let doubled = RepoContent {
        name: s("odd.gitignore.gitignore"),
        content_type: s("file"),
        download_url: Some(s("https://example.test/x")),
        path: s("odd.gitignore.gitignore"),
    };
    match classify_repo_entry(&doubled, "") {
        EntryPlan::Template { name, .. } => assert_eq!(name, s("odd")),
        _ => panic!("expected a template"),
    }
}

#[test]
fn downloads_demand_a_valid_key_and_https() {
    assert_eq!(prepare_download("community/Rust", "https://example.test/r"),
        Ok(s("community_Rust.gitignore")));
    assert_eq!(prepare_download("a/../b", "https://example.test/r"),
        Err(DownloadError::InvalidKey(KeyError::ParentTraversal)));
    assert_eq!(prepare_download("Rust", "http://example.test/r"),
        Err(DownloadError::InsecureUrl));
}

#[test]
fn newer_releases_are_found_by_semver_order() {
    let versions = vec![s("0.0.9"), s("0.1.0"), s("0.2.3")];
    assert_eq!(find_newer_release("0.1.0", &versions), UpdateCheck::Newer { index: 2 });
    assert_eq!(find_newer_release("0.2.3", &versions), UpdateCheck::UpToDate);
    assert_eq!(find_newer_release("0.0.1", &versions), UpdateCheck::Newer { index: 0 });
    let junk = vec![s("0.0.9"), s("not-a-version")];
    assert_eq!(find_newer_release("1.0.0", &junk), UpdateCheck::Invalid { index: 1 });
}

#[test]
fn archives_classify_by_their_file_name() {
    assert_eq!(classify_archive_name("tool-x86_64.tar.xz"), ArchiveKind::TarXz);
    assert_eq!(classify_archive_name("tool-x86_64.tar.gz"), ArchiveKind::TarGz);
    assert_eq!(classify_archive_name("tool-x86_64.tgz"), ArchiveKind::TarGz);
    assert_eq!(classify_archive_name("tool-x86_64.zip"), ArchiveKind::Zip);
    assert_eq!(classify_archive_name("tool-x86_64"), ArchiveKind::Raw);
}

#[test]
fn rate_limit_wait_splits_into_minutes_and_seconds() {
    assert_eq!(rate_limit_wait(130, 10), (2, 0));
    assert_eq!(rate_limit_wait(135, 10), (2, 5));
    assert_eq!(rate_limit_wait(10, 130), (0, 0));
}

#[test]
fn themes_pick_their_palettes() {
    let light = Theme::light();
    assert_eq!(light.header_title, UiColor::Blue);
    assert_eq!(light.item_selected_text, UiColor::Black);
    let dark = Theme::dark();
    assert_eq!(dark.header_title, UiColor::White);
    assert_eq!(dark.list_alt2, UiColor::Grey);
    assert_eq!(Theme::from(ThemeKind::Light), light);
    assert_eq!(Theme::from(ThemeKind::Dark), dark);
}

#[test]
fn theme_kind_follows_the_background_hint() {
    assert_eq!(theme_kind_from_colorfgbg(None), ThemeKind::Dark);
    assert_eq!(theme_kind_from_colorfgbg(Some(&s("15;0"))), ThemeKind::Dark);
    assert_eq!(theme_kind_from_colorfgbg(Some(&s("0;15"))), ThemeKind::Light);
    assert_eq!(theme_kind_from_colorfgbg(Some(&s("default;8"))), ThemeKind::Light);
    assert_eq!(theme_kind_from_colorfgbg(Some(&s("7"))), ThemeKind::Dark);
    assert_eq!(theme_kind_from_colorfgbg(Some(&s("garbage"))), ThemeKind::Dark);
    assert_eq!(theme_kind_from_colorfgbg(Some(&s(""))), ThemeKind::Dark);
}

#[test]
fn decimal_u8_parsing_matches_the_standard_rules() {
    assert_eq!(parse_u8("0"), Some(0));
    assert_eq!(parse_u8("15"), Some(15));
    assert_eq!(parse_u8("+9"), Some(9));
    assert_eq!(parse_u8("255"), Some(255));
    assert_eq!(parse_u8("256"), None);
    assert_eq!(parse_u8("300"), None);
    assert_eq!(parse_u8(""), None);
    assert_eq!(parse_u8("+"), None);
    assert_eq!(parse_u8("1a"), None);
    assert_eq!(parse_u8("-1"), None);
    assert_eq!(parse_u8("007"), Some(7));
}

#[test]
fn column_layout_fits_the_terminal_width() {
    let items = vec![s("aa"), s("bbbb")];
    let layout = column_layout_for_width(&items, 20);
    assert_eq!(layout.column_width, 6);
    assert_eq!(layout.columns, 3);
    assert_eq!(layout.rows, 1);

    let many: Vec<String> = (0..7).map(|i| format!("t{}", i)).collect();
    let layout = column_layout_for_width(&many, 9);
    assert_eq!(layout.column_width, 4);
    assert_eq!(layout.columns, 2);
    assert_eq!(layout.rows, 4);

    let layout = column_layout_for_width(&many, 0);
    assert_eq!(layout.columns, 1);
    assert_eq!(layout.rows, 7);

    let empty: Vec<String> = Vec::new();
    let layout = column_layout_for_width(&empty, 80);
    assert_eq!(layout.columns, 40);
    assert_eq!(layout.rows, 0);
}

#[test]
fn output_content_headers_and_newlines_are_exact() {
    let sections = vec![
        OutputSection { name: s("Rust"), body: s("target/\n") },
        OutputSection { name: s("mine"), body: s("a\nb") },
        OutputSection { name: s("empty"), body: s("") },
    ];
    let content = generate_gitignore_content(&sections);
    assert_eq!(
        content,
        s("# ===== Rust =====\ntarget/\n\n# ===== mine =====\na\nb\n\n# ===== empty =====\n"),
    );
    let none: Vec<OutputSection> = Vec::new();
    assert_eq!(generate_gitignore_content(&none), s(""));
}

use planeticon::desktop::{build_desktop_text, join_comma, line_key, rewrite_line};

#[test]
fn line_key_extraction() {
    assert_eq!(line_key("# Name="), Some("Name".to_string()));
    assert_eq!(line_key("# Keywords="), Some("Keywords".to_string()));
    assert_eq!(line_key("Type=Application"), Some("Application".to_string()));
    assert_eq!(line_key("word"), None);
    assert_eq!(line_key(""), None);
    assert_eq!(line_key("# "), Some("".to_string()));
    assert_eq!(line_key(" x y"), Some("x".to_string()));
    assert_eq!(line_key("=="), Some("".to_string()));
}

#[test]
fn rewrite_known_keys() {
    assert_eq!(
        rewrite_line("# Name=", "My App", "/usr/bin/my-app", "icon.png", "kw", false, false),
        "Name=My App\n"
    );
    assert_eq!(
        rewrite_line("# Exec=", "t", "/usr/bin/my-app", "i", "kw", false, false),
        "Exec=/usr/bin/my-app\n"
    );
    assert_eq!(
        rewrite_line("# Exec=", "t", "/usr/bin/my-app", "i", "kw", true, false),
        "Exec=bash -c '/usr/bin/my-app;$SHELL'\n"
    );
    assert_eq!(rewrite_line("# Terminal=", "t", "e", "i", "kw", true, false), "Terminal=true\n");
    assert_eq!(rewrite_line("# Terminal=", "t", "e", "i", "kw", false, false), "# Terminal=\n");
    assert_eq!(
        rewrite_line("# Keywords=", "t", "e", "i", "ab,ba", false, true),
        "Keywords=ab,ba\n"
    );
    assert_eq!(rewrite_line("# Keywords=", "t", "e", "i", "ab,ba", false, false), "# Keywords=\n");
    assert_eq!(rewrite_line("# Icon=", "t", "e", "pic.png", "kw", false, false), "Icon=pic.png\n");
    assert_eq!(
        rewrite_line("Type=Application", "t", "e", "i", "kw", false, false),
        "Type=Application\n"
    );
    assert_eq!(
        rewrite_line("# Categories=", "t", "e", "i", "kw", false, false),
        "# Categories=\n"
    );
}

#[test]
fn join_comma_words() {
    assert_eq!(join_comma(&vec![]), "");
    assert_eq!(join_comma(&vec!["a".to_string()]), "a");
    assert_eq!(join_comma(&vec!["a".to_string(), "b".to_string()]), "a,b");
    assert_eq!(
        join_comma(&vec!["one".to_string(), "two".to_string(), "three".to_string()]),
        "one,two,three"
    );
}

#[test]
fn build_full_entry() {
    let lines: Vec<String> = vec![
        "#!/usr/bin/env xdg-open".to_string(),
        "# Generated entry".to_string(),
        "".to_string(),
        "[Desktop Entry]".to_string(),
        "Type=Application".to_string(),
        "# Name=".to_string(),
        "# Exec=".to_string(),
        "# Terminal=".to_string(),
        "# Keywords=".to_string(),
        "# Icon=".to_string(),
    ];
    let out = build_desktop_text(
        &lines,
        "my-app",
        "/usr/bin/my-app",
        "/home/me/.icons/my-app.png",
        false,
        true,
    );
    let expected = "#!/usr/bin/env xdg-open\n\
                    # Generated entry\n\
                    \n\
                    [Desktop Entry]\n\
                    Type=Application\n\
                    Name=My App\n\
                    Exec=/usr/bin/my-app\n\
                    # Terminal=\n\
                    Keywords=ym-app,m-yapp,mya-pp,my-pap,myapp,m-app,y-app\n\
                    Icon=/home/me/.icons/my-app.png\n";
    assert_eq!(out, expected);
}

#[test]
fn build_terminal_entry_without_keywords() {
    let lines: Vec<String> = vec![
        "# a".to_string(),
        "# b".to_string(),
        "# c".to_string(),
        "[Desktop Entry]".to_string(),
        "# Exec=".to_string(),
        "# Terminal=".to_string(),
        "# Keywords=".to_string(),
    ];
    let out = build_desktop_text(&lines, "tool", "/opt/tool", "tool.png", true, false);
    let expected = "# a\n# b\n# c\n[Desktop Entry]\n\
                    Exec=bash -c '/opt/tool;$SHELL'\n\
                    Terminal=true\n\
                    # Keywords=\n";
    assert_eq!(out, expected);
}

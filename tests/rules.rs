use dwmr::app::{DwmrApp, WindowInfo};
use dwmr::classify::{is_manageable, WindowAttrs, WS_DISABLED, WS_EX_APPWINDOW, WS_EX_TOOLWINDOW};
use dwmr::geometry::Rect;
use dwmr::monitor::{Client, Monitor};
use dwmr::rules::{is_listed, match_rule, Config, Rule};

fn process_rule(name: &str, is_floating: bool, tags: u32) -> Rule {
    Rule { title: None, class: None, process_filename: Some(name.to_string()), is_floating, tags }
}

fn info(hwnd: isize, process: &str) -> WindowInfo {
    WindowInfo {
        hwnd,
        title: "Editor".to_string(),
        class: "EditClass".to_string(),
        process_filename: process.to_string(),
        parent: 0,
        root: hwnd,
        rect: Rect { x: 10, y: 10, width: 100, height: 100 },
        is_minimized: false,
        is_cloaked: false,
    }
}

fn client(title: &str, class: &str, process: &str) -> Client {
    Client {
        hwnd: 1,
        title: title.to_string(),
        class: class.to_string(),
        process_filename: process.to_string(),
        parent: 0,
        root: 1,
        rect: Rect { x: 0, y: 0, width: 10, height: 10 },
        tags: 1,
        is_minimized: false,
        is_floating: false,
        is_cloaked: false,
        is_hide: false,
        monitor: 0,
    }
}

fn attrs(title: &str, class: Option<&str>) -> WindowAttrs {
    WindowAttrs {
        exists: true,
        style: 0,
        exstyle: 0,
        has_title: true,
        title: title.to_string(),
        cloaked: false,
        class: class.map(|c| c.to_string()),
        debugged: false,
        visible: true,
    }
}

#[test]
fn first_matching_rule_wins() {
    let rules = vec![process_rule("A", true, 1), process_rule("B", false, 2)];
    let display = Rect { x: 0, y: 0, width: 1000, height: 1000 };
    let mut app = DwmrApp::new(vec![Monitor::new(0, display, display, 20)]);
    let (k, i) = app.manage(info(3, "C:\\apps\\AB.exe"), &rules);
    assert_eq!((k, i), (0, 0));
    assert_eq!(app.monitors[0].clients[0].tags, 1);
    assert!(app.monitors[0].clients[0].is_floating);
    let (_, j) = app.manage(info(4, "C:\\apps\\B.exe"), &rules);
    assert_eq!(app.monitors[0].clients[j].tags, 2);
    assert!(!app.monitors[0].clients[j].is_floating);
    let (_, n) = app.manage(info(5, "C:\\apps\\other.exe"), &rules);
    assert_eq!(app.monitors[0].clients[n].tags, 1);
    assert!(!app.monitors[0].clients[n].is_floating);
}

#[test]
fn manage_is_idempotent() {
    let display = Rect { x: 0, y: 0, width: 1000, height: 1000 };
    let mut app = DwmrApp::new(vec![Monitor::new(0, display, display, 20)]);
    assert_eq!(app.manage(info(3, "x"), &Vec::new()), (0, 0));
    assert_eq!(app.manage(info(4, "x"), &Vec::new()), (0, 1));
    assert_eq!(app.manage(info(3, "y"), &Vec::new()), (0, 0));
    assert_eq!(app.monitors[0].clients.len(), 2);
    assert_eq!(app.monitors[0].clients[0].process_filename, "x");
}

#[test]
fn manage_picks_last_monitor_containing_center() {
    let a = Rect { x: 0, y: 0, width: 1000, height: 1000 };
    let b = Rect { x: 1000, y: 0, width: 1000, height: 1000 };
    let mut app = DwmrApp::new(vec![Monitor::new(0, a, a, 20), Monitor::new(1, b, b, 20)]);
    let mut w = info(8, "x");
    w.rect = Rect { x: 900, y: 0, width: 200, height: 100 };
    assert_eq!(app.manage(w, &Vec::new()), (1, 0));
    let mut far = info(9, "x");
    far.rect = Rect { x: 5000, y: 5000, width: 10, height: 10 };
    assert_eq!(app.manage(far, &Vec::new()), (0, 0));
    assert_eq!(app.monitors[0].clients[0].monitor, 0);
    assert_eq!(app.monitors[1].clients[0].monitor, 1);
}

#[test]
fn rule_fields_match_exactly_or_as_substring() {
    let rule = Rule {
        title: Some("Editor".to_string()),
        class: Some("EditClass".to_string()),
        process_filename: Some("edit".to_string()),
        is_floating: true,
        tags: 4,
    };
    assert!(rule.is_match(&client("Editor", "EditClass", "C:\\bin\\edit.exe")));
    assert!(!rule.is_match(&client("Editor 2", "EditClass", "C:\\bin\\edit.exe")));
    assert!(!rule.is_match(&client("Editor", "Other", "C:\\bin\\edit.exe")));
    assert!(!rule.is_match(&client("Editor", "EditClass", "C:\\bin\\view.exe")));
    let any = Rule { title: None, class: None, process_filename: None, is_floating: false, tags: 1 };
    assert!(any.is_match(&client("", "", "")));
}

#[test]
fn match_rule_reports_first_position() {
    let rules = vec![process_rule("zzz", true, 1), process_rule("bin", false, 2), process_rule("edit", false, 4)];
    assert_eq!(match_rule(&rules, &client("t", "c", "C:\\bin\\edit.exe")), Some(1));
    assert_eq!(match_rule(&rules, &client("t", "c", "D:\\other")), None);
}

#[test]
fn standard_config_tables() {
    let config = Config::standard();
    assert_eq!(config.rules.len(), 4);
    assert!(config.exclude_debugged);
    assert!(is_listed(&config.disallowed_titles, &"Start".to_string()));
    assert!(is_listed(&config.disallowed_classes, &"Shell_TrayWnd".to_string()));
    assert!(!is_listed(&config.disallowed_titles, &"Notepad".to_string()));
    assert!(config.rules[0].is_match(&client("chat", "c", "C:\\KakaoTalk\\KakaoTalk.exe")));
}

#[test]
fn classifier_accepts_plain_visible_window() {
    let config = Config::standard();
    assert!(is_manageable(&vec![attrs("Notepad", Some("Notepad"))], &config));
}

#[test]
fn classifier_rejects_by_policy() {
    let config = Config::standard();
    assert!(!is_manageable(&vec![], &config));
    assert!(!is_manageable(&vec![attrs("Start", Some("Notepad"))], &config));
    assert!(!is_manageable(&vec![attrs("Notepad", Some("Progman"))], &config));
    assert!(!is_manageable(&vec![attrs("Notepad", None)], &config));
    let mut disabled = attrs("Notepad", Some("Notepad"));
    disabled.style = WS_DISABLED;
    assert!(!is_manageable(&vec![disabled], &config));
    let mut tool = attrs("Notepad", Some("Notepad"));
    tool.exstyle = WS_EX_TOOLWINDOW;
    assert!(!is_manageable(&vec![tool], &config));
    let mut hidden = attrs("Notepad", Some("Notepad"));
    hidden.visible = false;
    assert!(!is_manageable(&vec![hidden], &config));
    let mut debugged = attrs("Notepad", Some("Notepad"));
    debugged.debugged = true;
    assert!(!is_manageable(&vec![debugged], &config));
    let mut untitled = attrs("", Some("Notepad"));
    untitled.has_title = false;
    assert!(!is_manageable(&vec![untitled], &config));
}

#[test]
fn classifier_checks_owned_windows_through_parent() {
    let config = Config::standard();
    let mut dialog = attrs("Save", Some("#32770"));
    assert!(!is_manageable(&vec![dialog_copy(&dialog), attrs("Notepad", Some("Notepad"))], &config));
    dialog.exstyle = WS_EX_APPWINDOW;
    assert!(is_manageable(&vec![dialog_copy(&dialog), attrs("Notepad", Some("Notepad"))], &config));
    assert!(!is_manageable(&vec![dialog_copy(&dialog), attrs("Start", Some("Notepad"))], &config));
    dialog.exstyle = WS_EX_TOOLWINDOW;
    assert!(is_manageable(&vec![dialog, attrs("Notepad", Some("Notepad"))], &config));
}

fn dialog_copy(w: &WindowAttrs) -> WindowAttrs {
    WindowAttrs {
        exists: w.exists,
        style: w.style,
        exstyle: w.exstyle,
        has_title: w.has_title,
        title: w.title.clone(),
        cloaked: w.cloaked,
        class: w.class.clone(),
        debugged: w.debugged,
        visible: w.visible,
    }
}

use vstd::prelude::*;
use crate::monitor::Client;

verus! {

/// `pat` occurs in `s` as a contiguous run of characters.
pub open spec fn is_substring(pat: Seq<char>, s: Seq<char>) -> bool {
    exists|i: int| 0 <= i && i + pat.len() <= s.len() && #[trigger] s.subrange(i, i + pat.len()) == pat
}

/// Relies on `str::contains` with a string pattern: true exactly when the
/// pattern occurs in the string.
#[verifier::external_body]
fn str_contains(s: &str, pat: &str) -> (r: bool)
    ensures
        r == is_substring(pat@, s@),
{
    s.contains(pat)
}

/// A policy applied to a window when it is first managed. Each field that is
/// set must match: the title and class exactly, the process name as a part
/// of the client's process file name.
#[derive(Debug)]
pub struct Rule {
    pub title: Option<String>,
    pub class: Option<String>,
    pub process_filename: Option<String>,
    pub is_floating: bool,
    pub tags: u32,
}

/// `text` is one of the entries of `list`.
pub open spec fn listed(list: Seq<String>, text: Seq<char>) -> bool {
    exists|j: int| 0 <= j < list.len() && (#[trigger] list[j])@ == text
}

/// Whether `text` is one of the entries of `list`.
pub fn is_listed(list: &Vec<String>, text: &String) -> (r: bool)
    ensures
        r == listed(list@, text@),
{
    let mut j: usize = 0;
    while j < list.len()
        invariant
            0 <= j <= list@.len(),
            forall|t: int| 0 <= t < j ==> (#[trigger] list@[t])@ != text@,
        decreases list@.len() - j,
    {
        if list[j] == *text {
            return true;
        }
        j = j + 1;
    }
    false
}

impl Rule {
    pub open spec fn spec_is_match(&self, c: Client) -> bool {
        &&& (self.title matches Some(t) ==> t@ == c.title@)
        &&& (self.class matches Some(k) ==> k@ == c.class@)
        &&& (self.process_filename matches Some(p) ==> is_substring(p@, c.process_filename@))
    }

    pub fn is_match(&self, client: &Client) -> (r: bool)
        ensures
            r == self.spec_is_match(*client),
    {
        if let Some(t) = &self.title {
            if *t != client.title {
                return false;
            }
        }
        if let Some(k) = &self.class {
            if *k != client.class {
                return false;
            }
        }
        if let Some(p) = &self.process_filename {
            if !str_contains(client.process_filename.as_str(), p.as_str()) {
                return false;
            }
        }
        true
    }
}

/// The position of the first rule that matches `c`.
pub open spec fn first_match(rules: Seq<Rule>, c: Client) -> Option<int> {
    if exists|i: int| 0 <= i < rules.len() && (#[trigger] rules[i]).spec_is_match(c) {
        Some(
            choose|i: int|
                0 <= i < rules.len() && (#[trigger] rules[i]).spec_is_match(c) && forall|j: int|
                    0 <= j < i ==> !(#[trigger] rules[j]).spec_is_match(c),
        )
    } else {
        None
    }
}

/// The position of the first rule, in declaration order, that matches the
/// client.
pub fn match_rule(rules: &Vec<Rule>, client: &Client) -> (r: Option<usize>)
    ensures
        r matches Some(i) ==> i < rules@.len() && first_match(rules@, *client) == Some(i as int),
        r is None ==> first_match(rules@, *client) is None,
{
    let mut i: usize = 0;
    while i < rules.len()
        invariant
            0 <= i <= rules@.len(),
            forall|j: int| 0 <= j < i ==> !(#[trigger] rules@[j]).spec_is_match(*client),
        decreases rules@.len() - i,
    {
        if rules[i].is_match(client) {
            proof {
                let s = rules@;
                let c = choose|k: int|
                    0 <= k < s.len() && (#[trigger] s[k]).spec_is_match(*client) && forall|j: int|
                        0 <= j < k ==> !(#[trigger] s[j]).spec_is_match(*client);
                if c < i {
                    assert(!s[c].spec_is_match(*client));
                } else if c > i {
                    assert(!s[i as int].spec_is_match(*client));
                }
            }
            return Some(i);
        }
        i = i + 1;
    }
    None
}

/// The configuration the window manager runs with: the window rules and the
/// windows it never manages.
#[derive(Debug)]
pub struct Config {
    pub rules: Vec<Rule>,
    pub disallowed_titles: Vec<String>,
    pub disallowed_classes: Vec<String>,
    /// Leave alone the windows of processes that are being debugged.
    pub exclude_debugged: bool,
}

fn floating_process_rule(name: &str) -> (r: Rule)
    ensures
        r.title is None,
        r.class is None,
        r.process_filename matches Some(p) && p@ == name@,
        r.is_floating,
        r.tags == 1,
{
    Rule { title: None, class: None, process_filename: Some(name.to_owned()), is_floating: true, tags: 1 }
}

impl Config {
    /// The standard configuration: a few applications float on the first
    /// tag, and the shell's own surfaces are never managed.
    pub fn standard() -> (r: Config)
        ensures
            r.rules@.len() == 4,
            r.disallowed_titles@.len() == 12,
            r.disallowed_classes@.len() == 12,
            r.exclude_debugged,
            forall|i: int| 0 <= i < 4 ==> (#[trigger] r.rules@[i]).is_floating && r.rules@[i].tags == 1,
    {
        let mut rules: Vec<Rule> = Vec::new();
        rules.push(floating_process_rule("KakaoTalk"));
        rules.push(
            Rule {
                title: Some("화면 속 화면".to_owned()),
                class: None,
                process_filename: None,
                is_floating: true,
                tags: 1,
            },
        );
        rules.push(floating_process_rule("steamapps"));
        rules.push(floating_process_rule("mstsc"));
        let mut titles: Vec<String> = Vec::new();
        titles.push("Windows Shell Experience Host".to_owned());
        titles.push("Microsoft Text Input Application".to_owned());
        titles.push("Action center".to_owned());
        titles.push("New Notification".to_owned());
        titles.push("Date and Time Information".to_owned());
        titles.push("Volume Control".to_owned());
        titles.push("Network Connections".to_owned());
        titles.push("Cortana".to_owned());
        titles.push("Start".to_owned());
        titles.push("Windows Default Lock Screen".to_owned());
        titles.push("Search".to_owned());
        titles.push("WinUI Desktop".to_owned());
        let mut classes: Vec<String> = Vec::new();
        classes.push("Windows.UI.Core.CoreWindow".to_owned());
        classes.push("ForegroundStaging".to_owned());
        classes.push("ApplicationManager_DesktopShellWindow".to_owned());
        classes.push("Static".to_owned());
        classes.push("Scrollbar".to_owned());
        classes.push("Progman".to_owned());
        classes.push("OleMainThreadWndClass".to_owned());
        classes.push("Xaml_WindowedPopupClass".to_owned());
        classes.push("LivePreview".to_owned());
        classes.push("TaskListOverlayWnd".to_owned());
        classes.push("Shell_TrayWnd".to_owned());
        classes.push("TopLevelWindowForOverflowXamlIsland".to_owned());
        Config { rules, disallowed_titles: titles, disallowed_classes: classes, exclude_debugged: true }
    }
}

} // verus!

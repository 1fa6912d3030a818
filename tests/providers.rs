use gravel::frontend::FrontendMessage;
use gravel::provider::{Hit, HitAction, Provider, SimpleHit, SystemCommand};
use gravel::providers::{
    calculator_result, desktop_entry_hit, fill_url_pattern, first_of_each_name, get_cmdline_binary, get_hit, get_message_hit,
    get_shell_hit, CommandConfig, ExecProvider, ShellCommandConfig, SystemConfig, SystemProvider,
    WebsearchProvider,
};
use gravel::scoring::{MAX_SCORE, MIN_SCORE};

#[test]
fn exec_offers_query_pinned_to_bottom() {
    let p = ExecProvider { subtitle: "run".to_string() };
    let r = p.query("ls -l");
    assert_eq!(r.hits.len(), 1);
    assert_eq!(r.hits[0].get_title(), "ls -l");
    assert_eq!(r.hits[0].get_subtitle(), "run");
    assert_eq!(r.hits[0].get_override_score(), Some(MIN_SCORE));
    assert_eq!(*r.hits[0].action(), HitAction::RunTitle);
}

#[test]
fn websearch_encodes_query_into_url() {
    let p = WebsearchProvider {
        url_pattern: "https://duckduckgo.com/?q={}".to_string(),
        subtitle: "search".to_string(),
    };
    assert_eq!(p.search_url("a b&c/é"), "https://duckduckgo.com/?q=a%20b%26c%2F%C3%A9");
    assert_eq!(p.search_url("safe-._~AZ09"), "https://duckduckgo.com/?q=safe-._~AZ09");
    let r = p.query("rust lang");
    assert_eq!(r.hits[0].get_title(), "rust lang");
    assert_eq!(r.hits[0].get_override_score(), Some(MIN_SCORE));
    assert_eq!(*r.hits[0].action(), HitAction::OpenUrl("https://duckduckgo.com/?q=rust%20lang".to_string()));
}

#[test]
fn fill_url_pattern_replaces_every_placeholder() {
    assert_eq!(fill_url_pattern("{}-{}", "x"), "x-x");
    assert_eq!(fill_url_pattern("{x}", "y"), "{x}");
    assert_eq!(fill_url_pattern("{{}}", "y"), "{y}");
    assert_eq!(fill_url_pattern("", "y"), "");
}

fn cmd(title: &str) -> CommandConfig {
    CommandConfig { title: title.to_string(), subtitle: format!("{title} sub") }
}

fn shell(title: &str) -> ShellCommandConfig {
    ShellCommandConfig { title: title.to_string(), subtitle: String::new(), command_linux: format!("do-{title}") }
}

#[test]
fn system_offers_all_hits_for_any_query() {
    let p = SystemProvider::new(SystemConfig {
        exit: cmd("exit"),
        reload: cmd("reload"),
        lock: shell("lock"),
        logout: shell("logout"),
        restart: shell("restart"),
        shutdown: shell("shutdown"),
        sleep: shell("sleep"),
    });
    let r = p.query("anything");
    let titles: Vec<&str> = r.hits.iter().map(|h| h.get_title()).collect();
    assert_eq!(titles, vec!["exit", "reload", "lock", "logout", "restart", "shutdown", "sleep"]);
    assert_eq!(*r.hits[0].action(), HitAction::Message(FrontendMessage::Exit));
    assert_eq!(*r.hits[1].action(), HitAction::Message(FrontendMessage::Restart));
    assert_eq!(*r.hits[6].action(), HitAction::System(SystemCommand::Sleep, "do-sleep".to_string()));
    assert_eq!(p.hits().len(), 7);
}

#[test]
fn message_and_shell_hits() {
    let h = get_message_hit(cmd("quit"), FrontendMessage::Hide);
    assert_eq!((h.get_title(), h.get_subtitle()), ("quit", "quit sub"));
    assert_eq!(h.get_override_score(), None);
    let s = get_shell_hit(shell("lock"), SystemCommand::Lock);
    assert_eq!(*s.action(), HitAction::System(SystemCommand::Lock, "do-lock".to_string()));
}

#[test]
fn kill_hit_title_holds_name_and_pid() {
    let h = get_hit("bash", 42, "/bin/bash -l");
    assert_eq!(h.get_title(), "bash - 42");
    assert_eq!(h.get_subtitle(), "/bin/bash -l");
    assert_eq!(*h.action(), HitAction::KillProcess(42));
    assert_eq!(get_hit("x", -7, "").get_title(), "x - -7");
    assert_eq!(get_hit("x", 0, "").get_title(), "x - 0");
    assert_eq!(get_hit("x", i32::MIN, "").get_title(), "x - -2147483648");
}

#[test]
fn cmdline_binary_is_file_name_of_first_word() {
    let args = vec!["/usr/bin/python3 -u".to_string(), "script.py".to_string()];
    assert_eq!(get_cmdline_binary(&args), Some("python3".to_string()));
    assert_eq!(get_cmdline_binary(&["bash".to_string()]), Some("bash".to_string()));
    assert_eq!(get_cmdline_binary(&["/usr/bin/".to_string()]), Some(String::new()));
    assert_eq!(get_cmdline_binary(&[]), None);
}

#[test]
fn desktop_entry_hits() {
    assert!(desktop_entry_hit("a.desktop", "/x/a.desktop", Some("A"), Some("true")).is_none());
    let h = desktop_entry_hit("a.desktop", "/x/a.desktop", Some("A"), Some("false")).unwrap();
    assert_eq!((h.get_title(), h.get_subtitle()), ("A", "/x/a.desktop"));
    assert_eq!(*h.action(), HitAction::Launch("a.desktop".to_string()));
    let h = desktop_entry_hit("b.desktop", "/x/b.desktop", None, None).unwrap();
    assert_eq!(h.get_title(), "b.desktop");
}

#[test]
fn calculator_offers_result_pinned_to_top() {
    let r = calculator_result("1 + 1", Some("2".to_string()), "copy");
    assert_eq!(r.hits.len(), 1);
    assert_eq!(r.hits[0].get_title(), "2");
    assert_eq!(r.hits[0].get_subtitle(), "copy");
    assert_eq!(r.hits[0].get_override_score(), Some(MAX_SCORE));
    assert_eq!(*r.hits[0].action(), HitAction::CopyTitle);
}

#[test]
fn calculator_stays_silent_on_echo_constants_and_failure() {
    assert!(calculator_result("1", Some("1".to_string()), "c").hits.is_empty());
    assert!(calculator_result("pi", Some("3.1415926536".to_string()), "c").hits.is_empty());
    assert!(calculator_result("e", Some("2.7182818285".to_string()), "c").hits.is_empty());
    assert!(calculator_result("i", Some("i".to_string()), "c").hits.is_empty());
    assert!(calculator_result("x + 5", None, "c").hits.is_empty());
    assert_eq!(calculator_result("2pi", Some("6.2831853072".to_string()), "c").hits.len(), 1);
}

#[test]
fn simple_hit_accessors() {
    let h = SimpleHit::new("t".to_string(), "s".to_string(), HitAction::RunTitle);
    assert_eq!(h.get_override_score(), None);
    let h = h.with_score(5);
    assert_eq!(h.get_override_score(), Some(5));
    assert_eq!((h.get_title(), h.get_subtitle()), ("t", "s"));
}

#[test]
fn first_path_per_file_name_wins() {
    let names = vec![
        Some("a.desktop".to_string()),
        Some("b.desktop".to_string()),
        Some("a.desktop".to_string()),
        None,
        None,
    ];
    assert_eq!(first_of_each_name(&names), vec![true, true, false, true, false]);
    assert!(first_of_each_name(&Vec::new()).is_empty());
}

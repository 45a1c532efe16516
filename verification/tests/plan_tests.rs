//! The dispatch plan: which kind and payload each parsed command yields.

use tab_cli::cli::{ClickArgs, Commands, NavigateArgs, ScrollArgs, TabCommands, TabSwitchArgs};
use tab_cli::cli::command_plan;
use tab_cli::commands::{BackCommand, TabListCommand, TabNewCommand, TabSwitchCommand};
use tab_cli::json::JsonValue;
use tab_cli::plugins::{get_plugins_dir, is_same_version};
use tab_cli::types::CommandType;

fn obj(members: Vec<(&str, JsonValue)>) -> JsonValue {
    let mut out: Vec<(String, JsonValue)> = Vec::new();
    for (k, v) in members {
        out.push((k.to_string(), v));
    }
    JsonValue::Obj(out)
}

#[test]
fn navigate_plan_normalizes_the_url() {
    let plan = command_plan(&Commands::Navigate(NavigateArgs { url: "example.com".to_string() }));
    let (kind, payload) = plan.unwrap().unwrap();
    assert!(matches!(kind, CommandType::Navigate));
    assert_eq!(payload, obj(vec![("url", JsonValue::Str("https://example.com".to_string()))]));
}

#[test]
fn navigate_plan_rejects_internal_urls() {
    let plan = command_plan(
        &Commands::Navigate(NavigateArgs { url: "chrome://settings".to_string() }),
    );
    assert!(plan.is_err());
}

#[test]
fn click_plan_carries_the_ref() {
    let plan = command_plan(&Commands::Click(ClickArgs { element_ref: "e2".to_string() }));
    let (kind, payload) = plan.unwrap().unwrap();
    assert!(matches!(kind, CommandType::Click));
    assert_eq!(payload, obj(vec![("ref", JsonValue::Str("e2".to_string()))]));
}

#[test]
fn scroll_plan_carries_direction_and_amount() {
    let plan = command_plan(
        &Commands::Scroll(
            ScrollArgs { direction: "Down".to_string(), element_ref: None, amount: Some(500) },
        ),
    );
    let (kind, payload) = plan.unwrap().unwrap();
    assert!(matches!(kind, CommandType::Scroll));
    assert_eq!(
        payload,
        obj(vec![
            ("direction", JsonValue::Str("down".to_string())),
            ("amount", JsonValue::Int(500)),
        ]),
    );
}

#[test]
fn tab_switch_plan_carries_the_tab_id() {
    let plan = command_plan(&Commands::Tab(TabCommands::Switch(TabSwitchArgs { tab_id: 3 })));
    let (kind, payload) = plan.unwrap().unwrap();
    assert!(matches!(kind, CommandType::TabSwitch));
    assert_eq!(payload, obj(vec![("tab_id", JsonValue::Int(3))]));
}

#[test]
fn ping_plan_sends_nothing_itself() {
    let plan = command_plan(&Commands::Ping);
    assert!(plan.unwrap().is_none());
}

#[test]
fn tab_new_command_normalizes_its_url() {
    let cmd = TabNewCommand::new(Some("google.com".to_string()));
    assert!(matches!(cmd.command_type(), CommandType::TabNew));
    assert_eq!(
        cmd.payload(),
        obj(vec![("url", JsonValue::Str("https://google.com".to_string()))]),
    );
    let bare = TabNewCommand::new(None);
    assert_eq!(bare.payload(), JsonValue::Obj(vec![]));
}

#[test]
fn simple_commands_send_empty_payloads() {
    let back = BackCommand::default();
    assert!(matches!(back.command_type(), CommandType::Back));
    assert_eq!(back.payload(), JsonValue::Obj(vec![]));
    let list = TabListCommand::default();
    assert!(matches!(list.command_type(), CommandType::TabList));
    let switch = TabSwitchCommand::new(7);
    assert_eq!(switch.payload(), obj(vec![("tab_id", JsonValue::Int(7))]));
}

#[test]
fn is_same_version_ignores_a_leading_v() {
    assert!(is_same_version("v1.2.3", "1.2.3"));
    assert!(is_same_version("1.2.3", "v1.2.3"));
    assert!(is_same_version("v1.2.3", "v1.2.3"));
    assert!(!is_same_version("v1.2.3", "v1.2.4"));
}

#[test]
fn plugins_dir_sits_under_the_home_directory() {
    assert_eq!(get_plugins_dir("/home/user"), "/home/user/.stakpak/plugins");
}

#[test]
fn download_info_uses_the_github_release_layout() {
    let config = tab_cli::plugins::PluginConfig {
        name: "browser-daemon".to_string(),
        base_url: "https://github.com/stakpak/tab".to_string(),
        targets: vec![
            "linux-x86_64".to_string(),
            "darwin-aarch64".to_string(),
            "windows-x86_64".to_string(),
        ],
        version: None,
        repo: Some("tab".to_string()),
        owner: Some("stakpak".to_string()),
        version_arg: Some("--version".to_string()),
    };
    let (url, binary, is_zip) =
        tab_cli::plugins::get_download_info(&config, "linux", "x86_64").unwrap();
    assert_eq!(
        url,
        "https://github.com/stakpak/tab/releases/latest/download/browser-daemon-linux-x86_64.tar.gz"
    );
    assert_eq!(binary, "browser-daemon");
    assert!(!is_zip);

    let (url, binary, is_zip) =
        tab_cli::plugins::get_download_info(&config, "windows", "x86_64").unwrap();
    assert_eq!(
        url,
        "https://github.com/stakpak/tab/releases/latest/download/browser-daemon-windows-x86_64.zip"
    );
    assert_eq!(binary, "browser-daemon.exe");
    assert!(is_zip);
}

#[test]
fn download_info_rejects_unsupported_targets() {
    let config = tab_cli::plugins::PluginConfig {
        name: "browser-daemon".to_string(),
        base_url: "https://example.com/dist".to_string(),
        targets: vec!["linux-x86_64".to_string()],
        version: Some("v1.2.3".to_string()),
        repo: None,
        owner: None,
        version_arg: None,
    };
    let err = tab_cli::plugins::get_download_info(&config, "darwin", "aarch64").unwrap_err();
    assert_eq!(err, "Plugin browser-daemon does not support target: darwin-aarch64");

    let (url, _binary, _zip) =
        tab_cli::plugins::get_download_info(&config, "linux", "x86_64").unwrap();
    assert_eq!(url, "https://example.com/dist/v1.2.3/browser-daemon-linux-x86_64.tar.gz");
}

#[test]
fn daemon_plugin_config_names_its_release() {
    let config = tab_cli::daemon::get_daemon_config();
    assert_eq!(config.name, "browser-daemon");
    assert_eq!(config.base_url, "https://github.com/stakpak/tab");
    assert_eq!(config.targets.len(), 4);
    assert!(config.version.is_none());
    assert_eq!(config.version_arg, Some("--version".to_string()));
}

use llm_proxy_app::events::{find_adapter, parse_menu_event, switch_models, MenuEvent};
use llm_proxy_app::menu::{build_menu, make_log_level_id, make_switch_id, MenuEntry, MenuItem};
use llm_proxy_app::model::{Adapter, AdapterModel, Provider, ProviderModel};
use llm_proxy_app::state::{startup_plan, Action, AppData, POLL_INTERVAL_MS};

fn mapping(source: &str, provider: &str, target: &str) -> AdapterModel {
    AdapterModel {
        source_model_id: source.to_string(),
        provider: provider.to_string(),
        target_model_id: target.to_string(),
        status: Some("ok".to_string()),
    }
}

fn adapter(name: &str, models: Vec<AdapterModel>) -> Adapter {
    Adapter { name: name.to_string(), adapter_type: "openai".to_string(), base_url: None, models }
}

fn provider(name: &str, models: &[&str]) -> Provider {
    Provider {
        name: name.to_string(),
        provider_type: "t".to_string(),
        models: models.iter().map(|m| ProviderModel { id: m.to_string() }).collect(),
    }
}

fn action(e: &MenuEntry) -> (&str, &str, bool) {
    match e {
        MenuEntry::Plain(MenuItem::Action { id, label, enabled }) => (id.as_str(), label.as_str(), *enabled),
        other => panic!("not an action: {:?}", other),
    }
}

fn is_separator(e: &MenuEntry) -> bool {
    matches!(e, MenuEntry::Plain(MenuItem::Separator))
}

#[test]
fn menu_without_adapters() {
    let menu = build_menu(false, &vec![], &vec![], "info");
    assert_eq!(menu.len(), 11);
    assert_eq!(action(&menu[0]), ("status", "○  llm-proxy 未运行", false));
    assert_eq!(action(&menu[1]), ("toggle", "▶ 启动服务", true));
    assert_eq!(action(&menu[2]), ("restart", "↺  重启服务", false));
    assert!(is_separator(&menu[3]));
    assert_eq!(action(&menu[4]), ("no_conn", "无法连接到 llm-proxy", false));
    assert!(is_separator(&menu[5]));
    assert_eq!(action(&menu[6]), ("refresh", "刷新", true));
    match &menu[7] {
        MenuEntry::Submenu { title, items } => {
            assert_eq!(title, "日志级别: info");
            let labels: Vec<(&str, &str)> = items
                .iter()
                .map(|i| match i {
                    MenuItem::Action { id, label, .. } => (id.as_str(), label.as_str()),
                    MenuItem::Separator => panic!("separator"),
                })
                .collect();
            assert_eq!(
                labels,
                vec![
                    ("loglevel:debug", "  debug"),
                    ("loglevel:info", "✓ info"),
                    ("loglevel:warn", "  warn"),
                    ("loglevel:error", "  error"),
                ]
            );
        }
        other => panic!("not a submenu: {:?}", other),
    }
    assert_eq!(action(&menu[8]), ("open", "打开 Admin UI", true));
    assert!(is_separator(&menu[9]));
    assert_eq!(action(&menu[10]), ("quit", "退出", true));
}

#[test]
fn menu_with_adapters() {
    let adapters = vec![
        adapter("main", vec![mapping("gpt-4", "openai", "o1"), mapping("fast", "groq", "llama")]),
        adapter("empty", vec![]),
    ];
    let providers = vec![provider("openai", &["gpt-4o", "o1"]), provider("groq", &["llama"])];
    let menu = build_menu(true, &adapters, &providers, "debug");
    assert_eq!(action(&menu[0]), ("status", "●  llm-proxy 运行中", false));
    assert_eq!(action(&menu[1]), ("toggle", "⏹ 停止服务", true));
    assert_eq!(action(&menu[2]), ("restart", "↺  重启服务", true));
    assert_eq!(action(&menu[4]), ("noop", "main", false));
    match &menu[5] {
        MenuEntry::Submenu { title, items } => {
            assert_eq!(title, "  gpt-4");
            assert_eq!(items.len(), 5);
            match &items[1] {
                MenuItem::Action { id, label, enabled } => {
                    assert_eq!(id, "switch:main:gpt-4:openai:o1");
                    assert_eq!(label, "✓ openai/o1");
                    assert!(*enabled);
                }
                _ => panic!(),
            }
            match &items[0] {
                MenuItem::Action { label, .. } => assert_eq!(label, "  openai/gpt-4o"),
                _ => panic!(),
            }
            assert!(matches!(items[2], MenuItem::Separator));
            assert!(matches!(items[4], MenuItem::Separator));
        }
        _ => panic!(),
    }
    match &menu[6] {
        MenuEntry::Submenu { title, items } => {
            assert_eq!(title, "  fast");
            match &items[3] {
                MenuItem::Action { id, label, .. } => {
                    assert_eq!(id, "switch:main:fast:groq:llama");
                    assert_eq!(label, "✓ groq/llama");
                }
                _ => panic!(),
            }
        }
        _ => panic!(),
    }
    assert!(is_separator(&menu[7]));
    assert_eq!(action(&menu[8]), ("noop", "empty", false));
    assert!(is_separator(&menu[9]));
    assert!(is_separator(&menu[10]));
    assert_eq!(action(&menu[11]), ("refresh", "刷新", true));
    assert_eq!(menu.len(), 16);
}

#[test]
fn fixed_ids() {
    assert!(matches!(parse_menu_event("open"), MenuEvent::OpenAdmin));
    assert!(matches!(parse_menu_event("refresh"), MenuEvent::Refresh));
    assert!(matches!(parse_menu_event("toggle"), MenuEvent::Toggle));
    assert!(matches!(parse_menu_event("restart"), MenuEvent::Restart));
    assert!(matches!(parse_menu_event("quit"), MenuEvent::Quit));
    assert!(matches!(parse_menu_event("status"), MenuEvent::Ignored));
    assert!(matches!(parse_menu_event("noop"), MenuEvent::Ignored));
    assert!(matches!(parse_menu_event("no_conn"), MenuEvent::Ignored));
    assert!(matches!(parse_menu_event(""), MenuEvent::Ignored));
    assert!(matches!(parse_menu_event("opened"), MenuEvent::Ignored));
}

#[test]
fn log_level_ids() {
    for level in ["debug", "info", "warn", "error", "", "a:b"] {
        match parse_menu_event(&make_log_level_id(level)) {
            MenuEvent::SetLogLevel(l) => assert_eq!(l, level),
            other => panic!("{:?}", other),
        }
    }
}

#[test]
fn switch_ids() {
    let id = make_switch_id("main", "gpt-4", "openai", "models/o1:latest");
    assert_eq!(id, "switch:main:gpt-4:openai:models/o1:latest");
    match parse_menu_event(&id) {
        MenuEvent::Switch { adapter, source, provider, target } => {
            assert_eq!(adapter, "main");
            assert_eq!(source, "gpt-4");
            assert_eq!(provider, "openai");
            assert_eq!(target, "models/o1:latest");
        }
        other => panic!("{:?}", other),
    }
    assert!(matches!(parse_menu_event("switch:a:b:c"), MenuEvent::Ignored));
    assert!(matches!(parse_menu_event("switch:"), MenuEvent::Ignored));
    match parse_menu_event("switch::::") {
        MenuEvent::Switch { adapter, source, provider, target } => {
            assert_eq!((adapter.as_str(), source.as_str(), provider.as_str(), target.as_str()), ("", "", "", ""));
        }
        other => panic!("{:?}", other),
    }
}

#[test]
fn switching_models() {
    let models = vec![mapping("a", "p1", "m1"), mapping("b", "p1", "m1"), mapping("a", "p2", "m2")];
    let out = switch_models(&models, "a", "p3", "m3");
    assert_eq!(out.len(), 3);
    assert_eq!((out[0].provider.as_str(), out[0].target_model_id.as_str()), ("p3", "m3"));
    assert_eq!((out[1].provider.as_str(), out[1].target_model_id.as_str()), ("p1", "m1"));
    assert_eq!((out[2].provider.as_str(), out[2].target_model_id.as_str()), ("p3", "m3"));
    assert_eq!(out[0].status.as_deref(), Some("ok"));
    let again = switch_models(&out, "a", "p3", "m3");
    for (x, y) in again.iter().zip(out.iter()) {
        assert_eq!(x.provider, y.provider);
        assert_eq!(x.target_model_id, y.target_model_id);
        assert_eq!(x.source_model_id, y.source_model_id);
    }
}

#[test]
fn finding_adapters() {
    let adapters = vec![adapter("x", vec![]), adapter("y", vec![]), adapter("y", vec![mapping("s", "p", "t")])];
    assert_eq!(find_adapter(&adapters, "y"), Some(1));
    assert_eq!(find_adapter(&adapters, "x"), Some(0));
    assert_eq!(find_adapter(&adapters, "z"), None);
}

#[test]
fn new_state() {
    let s = AppData::new();
    assert!(s.adapters.is_empty());
    assert!(s.providers.is_empty());
    assert_eq!(s.log_level, "info");
    assert!(!s.running);
    assert_eq!(s.menu().len(), 11);
}

#[test]
fn state_updates() {
    let mut s = AppData::new();
    s.set_running(true);
    s.set_log_level("warn".to_string());
    s.set_adapters(vec![adapter("a", vec![])]);
    s.apply_config(Some(llm_proxy_app::model::ConfigData { providers: vec![provider("p", &["m"])] }));
    assert_eq!(s.providers.len(), 1);
    s.apply_config(None);
    assert_eq!(s.providers.len(), 1);
    assert!(s.running);
    assert_eq!(s.log_level, "warn");
    assert_eq!(s.adapters[0].name, "a");
}

fn puts(actions: &[Action]) -> Vec<(&str, &str)> {
    actions
        .iter()
        .filter_map(|a| match a {
            Action::Put { url, body } => Some((url.as_str(), body.as_str())),
            _ => None,
        })
        .collect()
}

#[test]
fn plans() {
    let mut s = AppData::new();
    let p = s.plan(&MenuEvent::OpenAdmin, 9000);
    assert!(!p.in_background);
    assert!(matches!(&p.actions[..], [Action::OpenUrl(u)] if u == "http://127.0.0.1:9000/admin/"));
    let p = s.plan(&MenuEvent::Toggle, 9000);
    assert!(p.in_background);
    assert!(matches!(p.actions[..], [Action::StartProxy, Action::Sleep(2000), Action::RebuildMenu]));
    s.set_running(true);
    let p = s.plan(&MenuEvent::Toggle, 9000);
    assert!(matches!(p.actions[..], [Action::StopProxy, Action::Sleep(800), Action::RebuildMenu]));
    let p = s.plan(&MenuEvent::Restart, 9000);
    assert!(p.in_background);
    assert!(matches!(
        p.actions[..],
        [Action::StopProxy, Action::Sleep(500), Action::StartProxy, Action::Sleep(2000), Action::RebuildMenu]
    ));
    let p = s.plan(&MenuEvent::Refresh, 9000);
    assert!(matches!(
        p.actions[..],
        [Action::FetchConfig, Action::FetchAdapters, Action::FetchLogLevel, Action::RebuildMenu]
    ));
    let p = s.plan(&MenuEvent::Quit, 9000);
    assert!(matches!(p.actions[..], [Action::StopProxy, Action::Exit]));
    let p = s.plan(&MenuEvent::Ignored, 9000);
    assert!(p.actions.is_empty());
    let p = s.plan(&MenuEvent::SetLogLevel("debug".to_string()), 9001);
    assert_eq!(puts(&p.actions), vec![("http://127.0.0.1:9001/admin/log-level", "{\"level\":\"debug\"}")]);
    assert!(matches!(&p.actions[1], Action::SetLogLevel(l) if l == "debug"));
    assert!(matches!(p.actions[2], Action::RebuildMenu));
}

#[test]
fn switch_plans() {
    let mut s = AppData::new();
    s.set_adapters(vec![adapter("main", vec![mapping("gpt-4", "openai", "gpt-4o"), mapping("x", "p", "t")])]);
    let event = parse_menu_event("switch:main:gpt-4:groq:llama");
    let p = s.plan(&event, 9000);
    assert_eq!(
        puts(&p.actions),
        vec![(
            "http://127.0.0.1:9000/admin/adapters/main",
            "{\"name\":\"main\",\"type\":\"openai\",\"models\":[{\"sourceModelId\":\"gpt-4\",\"provider\":\"groq\",\"targetModelId\":\"llama\"},{\"sourceModelId\":\"x\",\"provider\":\"p\",\"targetModelId\":\"t\"}]}"
        )]
    );
    assert!(matches!(p.actions[1..], [Action::Sleep(300), Action::FetchAdapters, Action::RebuildMenu]));
    let p = s.plan(&parse_menu_event("switch:other:gpt-4:groq:llama"), 9000);
    assert!(matches!(p.actions[..], [Action::RebuildMenu]));
}

#[test]
fn timers() {
    assert_eq!(POLL_INTERVAL_MS, 5000);
    let mut s = AppData::new();
    assert!(s.poll_plan().is_empty());
    s.set_running(true);
    assert!(matches!(s.poll_plan()[..], [Action::FetchLogLevel, Action::FetchConfig, Action::FetchAdapters]));
    assert!(matches!(
        startup_plan()[..],
        [Action::RebuildMenu, Action::StartProxy, Action::Sleep(2000), Action::FetchConfig, Action::FetchAdapters, Action::FetchLogLevel, Action::RebuildMenu]
    ));
}

#[test]
fn check_mark_follows_switch() {
    let adapters = vec![adapter("main", vec![mapping("gpt-4", "openai", "o1")])];
    let providers = vec![provider("openai", &["gpt-4o", "o1"]), provider("groq", &["llama"])];
    let switched = vec![adapter("main", switch_models(&adapters[0].models, "gpt-4", "groq", "llama"))];
    let menu = build_menu(true, &switched, &providers, "info");
    match &menu[5] {
        MenuEntry::Submenu { items, .. } => {
            let checked: Vec<&str> = items
                .iter()
                .filter_map(|i| match i {
                    MenuItem::Action { id, label, .. } if label.starts_with("✓ ") => Some(id.as_str()),
                    _ => None,
                })
                .collect();
            assert_eq!(checked, vec!["switch:main:gpt-4:groq:llama"]);
        }
        other => panic!("{:?}", other),
    }
}

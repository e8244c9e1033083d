//! The tray's state (adapters, providers, log level, whether the proxy
//! runs) and the plans of outside work that its events and timers ask for.

use vstd::prelude::*;
use crate::api::{
    adapter_body_spec, adapter_update_body, adapter_url, admin_url, api_base_spec, endpoint_path,
    endpoint_url, log_level_body, log_level_body_spec, opt_config_view, Endpoint,
};
use crate::events::{EventV, MenuEvent, find_adapter, first_adapter_named, switch_models, switched_models};
use crate::menu::{MenuEntry, build_menu, entries_view, menu_spec};
use crate::model::{Adapter, AdapterV, ConfigData, Provider, ProviderV, adapters_view, providers_view};

verus! {

/// Milliseconds between two background refreshes.
pub const POLL_INTERVAL_MS: u64 = 5000;

/// The model of the tray's state.
pub struct AppDataV {
    pub adapters: Seq<AdapterV>,
    pub providers: Seq<ProviderV>,
    pub log_level: Seq<char>,
    pub running: bool,
}

/// The tray's state: what it last read from the proxy, and whether the proxy
/// was found running when the menu was last built.
#[derive(Debug)]
pub struct AppData {
    pub adapters: Vec<Adapter>,
    pub providers: Vec<Provider>,
    pub log_level: String,
    pub running: bool,
}

impl View for AppData {
    type V = AppDataV;

    open spec fn view(&self) -> AppDataV {
        AppDataV {
            adapters: adapters_view(self.adapters@),
            providers: providers_view(self.providers@),
            log_level: self.log_level@,
            running: self.running,
        }
    }
}

/// The model of a piece of outside work.
pub enum ActionV {
    OpenUrl(Seq<char>),
    FetchConfig,
    FetchAdapters,
    FetchLogLevel,
    StopProxy,
    StartProxy,
    Sleep(u64),
    Put { url: Seq<char>, body: Seq<char> },
    SetLogLevel(Seq<char>),
    RebuildMenu,
    Exit,
}

/// A piece of outside work that the tray asks for.
#[derive(Debug)]
pub enum Action {
    /// Open a URL in the browser.
    OpenUrl(String),
    /// Read the configuration and apply it with `AppData::apply_config`.
    FetchConfig,
    /// Read the adapters and store them with `AppData::set_adapters`.
    FetchAdapters,
    /// Read the log level and store it with `AppData::set_log_level`.
    FetchLogLevel,
    /// Stop the proxy process, where one was started.
    StopProxy,
    /// Start the proxy's binary.
    StartProxy,
    /// Wait this many milliseconds.
    Sleep(u64),
    /// Send `body` to `url` with `PUT`, as JSON.
    Put { url: String, body: String },
    /// Store this log level with `AppData::set_log_level`.
    SetLogLevel(String),
    /// Probe the proxy, store the result with `AppData::set_running`, and
    /// show the menu of `AppData::menu`.
    RebuildMenu,
    /// Leave the application.
    Exit,
}

impl View for Action {
    type V = ActionV;

    open spec fn view(&self) -> ActionV {
        match self {
            Action::OpenUrl(u) => ActionV::OpenUrl(u@),
            Action::FetchConfig => ActionV::FetchConfig,
            Action::FetchAdapters => ActionV::FetchAdapters,
            Action::FetchLogLevel => ActionV::FetchLogLevel,
            Action::StopProxy => ActionV::StopProxy,
            Action::StartProxy => ActionV::StartProxy,
            Action::Sleep(ms) => ActionV::Sleep(*ms),
            Action::Put { url, body } => ActionV::Put { url: url@, body: body@ },
            Action::SetLogLevel(l) => ActionV::SetLogLevel(l@),
            Action::RebuildMenu => ActionV::RebuildMenu,
            Action::Exit => ActionV::Exit,
        }
    }
}

/// The models of a list of actions.
pub open spec fn actions_view(s: Seq<Action>) -> Seq<ActionV> {
    s.map_values(|a: Action| a@)
}

/// The model of a plan.
pub struct PlanV {
    pub in_background: bool,
    pub actions: Seq<ActionV>,
}

/// Outside work to do in order, on the calling thread or on a thread of its
/// own.
#[derive(Debug)]
pub struct Plan {
    pub in_background: bool,
    pub actions: Vec<Action>,
}

impl View for Plan {
    type V = PlanV;

    open spec fn view(&self) -> PlanV {
        PlanV { in_background: self.in_background, actions: actions_view(self.actions@) }
    }
}

/// What the tray does when it starts: show the menu, start the proxy, give
/// it two seconds, read configuration, adapters and log level, and show the
/// menu again.
pub open spec fn startup_spec() -> Seq<ActionV> {
    seq![
        ActionV::RebuildMenu,
        ActionV::StartProxy,
        ActionV::Sleep(2000),
        ActionV::FetchConfig,
        ActionV::FetchAdapters,
        ActionV::FetchLogLevel,
        ActionV::RebuildMenu,
    ]
}

/// What the tray does after each pause of its background timer: while the
/// proxy runs, read log level, configuration and adapters (the menu is left
/// as it is, so that an open menu stays open); nothing otherwise.
pub open spec fn poll_spec(state: AppDataV) -> Seq<ActionV> {
    if state.running {
        seq![ActionV::FetchLogLevel, ActionV::FetchConfig, ActionV::FetchAdapters]
    } else {
        Seq::empty()
    }
}

/// The plan of a switch of mapping: where the adapter is known, send it its
/// mappings with the switch made, wait 300 ms, read the adapters again and
/// show the menu; show the menu otherwise.
pub open spec fn switch_plan_spec(
    state: AppDataV,
    port: u16,
    adapter: Seq<char>,
    source: Seq<char>,
    provider: Seq<char>,
    target: Seq<char>,
) -> Seq<ActionV> {
    match first_adapter_named(state.adapters, adapter) {
        Some(i) => seq![
            ActionV::Put {
                url: api_base_spec(port) + "/admin/adapters/"@ + adapter,
                body: adapter_body_spec(
                    adapter,
                    state.adapters[i].adapter_type,
                    switched_models(state.adapters[i].models, source, provider, target),
                ),
            },
            ActionV::Sleep(300),
            ActionV::FetchAdapters,
            ActionV::RebuildMenu,
        ],
        None => seq![ActionV::RebuildMenu],
    }
}

/// The plan of a menu event in a state, the proxy listening on `port`.
pub open spec fn plan_spec(state: AppDataV, event: EventV, port: u16) -> PlanV {
    match event {
        EventV::OpenAdmin => PlanV {
            in_background: false,
            actions: seq![ActionV::OpenUrl(api_base_spec(port) + "/admin/"@)],
        },
        EventV::Refresh => PlanV {
            in_background: false,
            actions: seq![
                ActionV::FetchConfig,
                ActionV::FetchAdapters,
                ActionV::FetchLogLevel,
                ActionV::RebuildMenu,
            ],
        },
        EventV::Toggle => PlanV {
            in_background: true,
            actions: if state.running {
                seq![ActionV::StopProxy, ActionV::Sleep(800), ActionV::RebuildMenu]
            } else {
                seq![ActionV::StartProxy, ActionV::Sleep(2000), ActionV::RebuildMenu]
            },
        },
        EventV::Restart => PlanV {
            in_background: true,
            actions: seq![
                ActionV::StopProxy,
                ActionV::Sleep(500),
                ActionV::StartProxy,
                ActionV::Sleep(2000),
                ActionV::RebuildMenu,
            ],
        },
        EventV::SetLogLevel(level) => PlanV {
            in_background: false,
            actions: seq![
                ActionV::Put {
                    url: api_base_spec(port) + endpoint_path(Endpoint::LogLevel),
                    body: log_level_body_spec(level),
                },
                ActionV::SetLogLevel(level),
                ActionV::RebuildMenu,
            ],
        },
        EventV::Switch { adapter, source, provider, target } => PlanV {
            in_background: false,
            actions: switch_plan_spec(state, port, adapter, source, provider, target),
        },
        EventV::Quit => PlanV { in_background: false, actions: seq![ActionV::StopProxy, ActionV::Exit] },
        EventV::Ignored => PlanV { in_background: false, actions: Seq::empty() },
    }
}

/// A switch of the mapping `source` of the adapter `adapter` to
/// `provider`/`target`, where the first adapter of that name stands at `i`,
/// sends to that adapter's URL the name, the type and the mappings of that
/// very adapter with the switch made, then waits, reads the adapters again
/// and shows the menu.
pub proof fn lemma_switch_plan_targets_named_adapter(
    state: AppDataV,
    port: u16,
    adapter: Seq<char>,
    source: Seq<char>,
    provider: Seq<char>,
    target: Seq<char>,
    i: int,
)
    requires
        0 <= i < state.adapters.len(),
        state.adapters[i].name == adapter,
        forall|j: int| 0 <= j < i ==> state.adapters[j].name != adapter,
    ensures
        plan_spec(state, EventV::Switch { adapter, source, provider, target }, port) == (PlanV {
            in_background: false,
            actions: seq![
                ActionV::Put {
                    url: api_base_spec(port) + "/admin/adapters/"@ + adapter,
                    body: adapter_body_spec(
                        adapter,
                        state.adapters[i].adapter_type,
                        state.adapters[i].models.map_values(
                            |m: crate::model::AdapterModelV|
                                if m.source_model_id == source {
                                    crate::model::AdapterModelV {
                                        provider,
                                        target_model_id: target,
                                        ..m
                                    }
                                } else {
                                    m
                                },
                        ),
                    ),
                },
                ActionV::Sleep(300),
                ActionV::FetchAdapters,
                ActionV::RebuildMenu,
            ],
        }),
{
    let av = state.adapters;
    let w = choose|w: int|
        0 <= w < av.len() && av[w].name == adapter && forall|j: int| 0 <= j < w ==> av[j].name != adapter;
    assert(0 <= w < av.len() && av[w].name == adapter && forall|j: int| 0 <= j < w ==> av[j].name != adapter);
    if w < i {
        assert(av[w].name != adapter);
    }
    if i < w {
        assert(av[i].name != adapter);
    }
    assert(first_adapter_named(av, adapter) == Some(i));
    let ms = av[i].models;
    assert(switched_models(ms, source, provider, target) =~= ms.map_values(
        |m: crate::model::AdapterModelV|
            if m.source_model_id == source {
                crate::model::AdapterModelV { provider, target_model_id: target, ..m }
            } else {
                m
            },
    ));
}

/// What each menu event other than a switch asks for: the admin page opens
/// the admin URL; refresh reads configuration, adapters and log level and
/// shows the menu; start/stop stops a running proxy and starts a stopped one,
/// in the background, then shows the menu; restart stops and starts it, in
/// the background; a log level is sent to the proxy, stored and shown; quit
/// stops the proxy and leaves; anything else does nothing.
pub proof fn lemma_event_plans(state: AppDataV, port: u16, level: Seq<char>)
    ensures
        plan_spec(state, EventV::OpenAdmin, port) == (PlanV {
            in_background: false,
            actions: seq![ActionV::OpenUrl("http://127.0.0.1:"@ + crate::text::decimal(port as nat) + "/admin/"@)],
        }),
        plan_spec(state, EventV::Refresh, port) == (PlanV {
            in_background: false,
            actions: seq![ActionV::FetchConfig, ActionV::FetchAdapters, ActionV::FetchLogLevel, ActionV::RebuildMenu],
        }),
        state.running ==> plan_spec(state, EventV::Toggle, port) == (PlanV {
            in_background: true,
            actions: seq![ActionV::StopProxy, ActionV::Sleep(800), ActionV::RebuildMenu],
        }),
        !state.running ==> plan_spec(state, EventV::Toggle, port) == (PlanV {
            in_background: true,
            actions: seq![ActionV::StartProxy, ActionV::Sleep(2000), ActionV::RebuildMenu],
        }),
        plan_spec(state, EventV::Restart, port) == (PlanV {
            in_background: true,
            actions: seq![
                ActionV::StopProxy,
                ActionV::Sleep(500),
                ActionV::StartProxy,
                ActionV::Sleep(2000),
                ActionV::RebuildMenu,
            ],
        }),
        plan_spec(state, EventV::SetLogLevel(level), port) == (PlanV {
            in_background: false,
            actions: seq![
                ActionV::Put {
                    url: "http://127.0.0.1:"@ + crate::text::decimal(port as nat) + "/admin/log-level"@,
                    body: "{\"level\":"@ + crate::json::json_quoted(level) + "}"@,
                },
                ActionV::SetLogLevel(level),
                ActionV::RebuildMenu,
            ],
        }),
        plan_spec(state, EventV::Quit, port) == (PlanV {
            in_background: false,
            actions: seq![ActionV::StopProxy, ActionV::Exit],
        }),
        plan_spec(state, EventV::Ignored, port).actions.len() == 0,
{
}

/// The timer reads log level, configuration and adapters while the proxy
/// runs, and does nothing otherwise; it never rebuilds the menu. Starting up
/// shows the menu, starts the proxy, waits two seconds, reads configuration,
/// adapters and log level and shows the menu again.
pub proof fn lemma_timer_and_startup(state: AppDataV)
    ensures
        state.running ==> poll_spec(state) == seq![ActionV::FetchLogLevel, ActionV::FetchConfig, ActionV::FetchAdapters],
        !state.running ==> poll_spec(state).len() == 0,
        startup_spec() == seq![
            ActionV::RebuildMenu,
            ActionV::StartProxy,
            ActionV::Sleep(2000),
            ActionV::FetchConfig,
            ActionV::FetchAdapters,
            ActionV::FetchLogLevel,
            ActionV::RebuildMenu,
        ],
{
}

/// A switch naming no known adapter only shows the menu again.
pub proof fn lemma_switch_plan_unknown_adapter(
    state: AppDataV,
    port: u16,
    adapter: Seq<char>,
    source: Seq<char>,
    provider: Seq<char>,
    target: Seq<char>,
)
    requires
        forall|j: int| 0 <= j < state.adapters.len() ==> state.adapters[j].name != adapter,
    ensures
        plan_spec(state, EventV::Switch { adapter, source, provider, target }, port) == (PlanV {
            in_background: false,
            actions: seq![ActionV::RebuildMenu],
        }),
{
}

/// The actions that the tray performs when it starts.
pub fn startup_plan() -> (res: Vec<Action>)
    ensures
        actions_view(res@) == startup_spec(),
{
    let v = vec![
        Action::RebuildMenu,
        Action::StartProxy,
        Action::Sleep(2000),
        Action::FetchConfig,
        Action::FetchAdapters,
        Action::FetchLogLevel,
        Action::RebuildMenu,
    ];
    assert(actions_view(v@) =~= startup_spec());
    v
}

impl AppData {
    /// The state before anything was read: no adapter, no provider, log
    /// level `info`, proxy not running.
    pub fn new() -> (s: Self)
        ensures
            s@.adapters == Seq::<AdapterV>::empty(),
            s@.providers == Seq::<ProviderV>::empty(),
            s@.log_level == "info"@,
            !s@.running,
    {
        let s = AppData {
            adapters: Vec::new(),
            providers: Vec::new(),
            log_level: String::from_str("info"),
            running: false,
        };
        assert(s@.adapters =~= Seq::<AdapterV>::empty());
        assert(s@.providers =~= Seq::<ProviderV>::empty());
        s
    }

    /// Records whether the proxy was found running.
    pub fn set_running(&mut self, running: bool)
        ensures
            final(self)@ == (AppDataV { running, ..old(self)@ }),
    {
        self.running = running;
    }

    /// Stores the log level read from the proxy or chosen in the menu.
    pub fn set_log_level(&mut self, level: String)
        ensures
            final(self)@ == (AppDataV { log_level: level@, ..old(self)@ }),
    {
        self.log_level = level;
    }

    /// Stores the adapters read from the proxy.
    pub fn set_adapters(&mut self, adapters: Vec<Adapter>)
        ensures
            final(self)@ == (AppDataV { adapters: adapters_view(adapters@), ..old(self)@ }),
    {
        self.adapters = adapters;
    }

    /// Applies a configuration read from the proxy: its providers replace
    /// the stored ones; where none could be read, the stored ones stay.
    pub fn apply_config(&mut self, config: Option<ConfigData>)
        ensures
            final(self)@ == (match opt_config_view(config) {
                Some(providers) => (AppDataV { providers, ..old(self)@ }),
                None => old(self)@,
            }),
    {
        match config {
            Some(c) => {
                self.providers = c.providers;
            },
            None => {},
        }
    }

    /// The tray menu for this state.
    pub fn menu(&self) -> (m: Vec<MenuEntry>)
        ensures
            entries_view(m@) == menu_spec(
                self@.running,
                self@.adapters,
                self@.providers,
                self@.log_level,
            ),
    {
        build_menu(self.running, &self.adapters, &self.providers, self.log_level.as_str())
    }

    /// The actions of one tick of the background timer.
    pub fn poll_plan(&self) -> (res: Vec<Action>)
        ensures
            actions_view(res@) == poll_spec(self@),
    {
        if self.running {
            let v = vec![Action::FetchLogLevel, Action::FetchConfig, Action::FetchAdapters];
            assert(actions_view(v@) =~= poll_spec(self@));
            v
        } else {
            let v: Vec<Action> = Vec::new();
            assert(actions_view(v@) =~= poll_spec(self@));
            v
        }
    }

    fn switch_plan(&self, port: u16, adapter: &str, source: &str, provider: &str, target: &str) -> (res: Vec<Action>)
        ensures
            actions_view(res@) == switch_plan_spec(self@, port, adapter@, source@, provider@, target@),
    {
        match find_adapter(&self.adapters, adapter) {
            Some(i) => {
                let a = &self.adapters[i];
                let models = switch_models(&a.models, source, provider, target);
                let body = adapter_update_body(adapter, a.adapter_type.as_str(), &models);
                let url = adapter_url(port, adapter);
                let v = vec![
                    Action::Put { url, body },
                    Action::Sleep(300),
                    Action::FetchAdapters,
                    Action::RebuildMenu,
                ];
                assert(self@.adapters[i as int] == a@);
                assert(actions_view(v@) =~= switch_plan_spec(self@, port, adapter@, source@, provider@, target@));
                v
            },
            None => {
                let v = vec![Action::RebuildMenu];
                assert(actions_view(v@) =~= switch_plan_spec(self@, port, adapter@, source@, provider@, target@));
                v
            },
        }
    }

    /// The plan of the menu event `event`, the proxy listening on `port`.
    pub fn plan(&self, event: &MenuEvent, port: u16) -> (res: Plan)
        ensures
            res@ == plan_spec(self@, event@, port),
    {
        let (in_background, v) = match event {
            MenuEvent::OpenAdmin => (false, vec![Action::OpenUrl(admin_url(port))]),
            MenuEvent::Refresh => (
                false,
                vec![
                    Action::FetchConfig,
                    Action::FetchAdapters,
                    Action::FetchLogLevel,
                    Action::RebuildMenu,
                ],
            ),
            MenuEvent::Toggle => if self.running {
                (true, vec![Action::StopProxy, Action::Sleep(800), Action::RebuildMenu])
            } else {
                (true, vec![Action::StartProxy, Action::Sleep(2000), Action::RebuildMenu])
            },
            MenuEvent::Restart => (
                true,
                vec![
                    Action::StopProxy,
                    Action::Sleep(500),
                    Action::StartProxy,
                    Action::Sleep(2000),
                    Action::RebuildMenu,
                ],
            ),
            MenuEvent::SetLogLevel(level) => (
                false,
                vec![
                    Action::Put {
                        url: endpoint_url(port, Endpoint::LogLevel),
                        body: log_level_body(level.as_str()),
                    },
                    Action::SetLogLevel(level.clone()),
                    Action::RebuildMenu,
                ],
            ),
            MenuEvent::Switch { adapter, source, provider, target } => (
                false,
                self.switch_plan(
                    port,
                    adapter.as_str(),
                    source.as_str(),
                    provider.as_str(),
                    target.as_str(),
                ),
            ),
            MenuEvent::Quit => (false, vec![Action::StopProxy, Action::Exit]),
            MenuEvent::Ignored => (false, Vec::new()),
        };
        let p = Plan { in_background, actions: v };
        assert(p@.actions =~= plan_spec(self@, event@, port).actions);
        p
    }
}

} // verus!

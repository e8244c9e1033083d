//! The tray menu as plain values: what it shows for a state of the proxy,
//! its adapters, its providers and its log level, and the identifiers that
//! its items report when clicked.

use vstd::prelude::*;
use crate::model::{
    Adapter, AdapterModel, AdapterModelV, AdapterV, Provider, ProviderModelV, ProviderV,
    adapters_view, providers_view,
};
use crate::text::str_eq;

verus! {

/// The model of a menu item.
pub enum ItemV {
    Action { id: Seq<char>, label: Seq<char>, enabled: bool },
    Separator,
}

/// The model of an entry of the tray menu.
pub enum EntryV {
    Plain(ItemV),
    Submenu { title: Seq<char>, items: Seq<ItemV> },
}

/// A menu item: an action with the identifier it reports when clicked, its
/// label and whether it can be clicked, or a separator.
#[derive(Debug)]
pub enum MenuItem {
    Action { id: String, label: String, enabled: bool },
    Separator,
}

/// An entry of the tray menu: an item, or a submenu of items.
#[derive(Debug)]
pub enum MenuEntry {
    Plain(MenuItem),
    Submenu { title: String, items: Vec<MenuItem> },
}

impl View for MenuItem {
    type V = ItemV;

    open spec fn view(&self) -> ItemV {
        match self {
            MenuItem::Action { id, label, enabled } => ItemV::Action {
                id: id@,
                label: label@,
                enabled: *enabled,
            },
            MenuItem::Separator => ItemV::Separator,
        }
    }
}

/// The models of a list of items.
pub open spec fn items_view(s: Seq<MenuItem>) -> Seq<ItemV> {
    s.map_values(|i: MenuItem| i@)
}

impl View for MenuEntry {
    type V = EntryV;

    open spec fn view(&self) -> EntryV {
        match self {
            MenuEntry::Plain(i) => EntryV::Plain(i@),
            MenuEntry::Submenu { title, items } => EntryV::Submenu {
                title: title@,
                items: items_view(items@),
            },
        }
    }
}

/// The models of a list of entries.
pub open spec fn entries_view(s: Seq<MenuEntry>) -> Seq<EntryV> {
    s.map_values(|e: MenuEntry| e@)
}

// ---- the menu ----

/// An action entry.
pub open spec fn action(id: Seq<char>, label: Seq<char>, enabled: bool) -> EntryV {
    EntryV::Plain(ItemV::Action { id, label, enabled })
}

/// A separator entry.
pub open spec fn separator() -> EntryV {
    EntryV::Plain(ItemV::Separator)
}

/// The first line of the menu: whether the proxy runs.
pub open spec fn status_label(running: bool) -> Seq<char> {
    if running {
        "●  llm-proxy 运行中"@
    } else {
        "○  llm-proxy 未运行"@
    }
}

/// The label of the item that starts or stops the proxy.
pub open spec fn toggle_label(running: bool) -> Seq<char> {
    if running {
        "⏹ 停止服务"@
    } else {
        "▶ 启动服务"@
    }
}

/// The head of the menu: the status line, start/stop, restart (only while
/// the proxy runs) and a separator.
pub open spec fn header_entries(running: bool) -> Seq<EntryV> {
    seq![
        action("status"@, status_label(running), false),
        action("toggle"@, toggle_label(running), true),
        action("restart"@, "↺  重启服务"@, running),
        separator(),
    ]
}

/// The identifier of the item that sends the source model `source` of the
/// adapter `adapter` to the model `model` of the provider `provider`.
pub open spec fn switch_id(
    adapter: Seq<char>,
    source: Seq<char>,
    provider: Seq<char>,
    model: Seq<char>,
) -> Seq<char> {
    "switch:"@ + adapter + ":"@ + source + ":"@ + provider + ":"@ + model
}

/// The mark in front of a label: a check mark for the chosen entry.
pub open spec fn check_mark(checked: bool) -> Seq<char> {
    if checked {
        "✓ "@
    } else {
        "  "@
    }
}

/// The item for the model `m` of the provider `p` in the submenu of the
/// mapping `mapping` of the adapter `a`; it is checked where the mapping
/// points to that model.
pub open spec fn choice_item(a: AdapterV, mapping: AdapterModelV, p: ProviderV, m: ProviderModelV) -> ItemV {
    ItemV::Action {
        id: switch_id(a.name, mapping.source_model_id, p.name, m.id),
        label: check_mark(p.name == mapping.provider && m.id == mapping.target_model_id) + p.name
            + "/"@ + m.id,
        enabled: true,
    }
}

/// The items of one provider in a mapping's submenu: one per model of the
/// provider, then a separator.
pub open spec fn provider_choices(a: AdapterV, mapping: AdapterModelV, p: ProviderV) -> Seq<ItemV> {
    p.models.map_values(|m: ProviderModelV| choice_item(a, mapping, p, m)).push(ItemV::Separator)
}

/// The items of a mapping's submenu: those of each provider in turn.
pub open spec fn mapping_choices(a: AdapterV, mapping: AdapterModelV, providers: Seq<ProviderV>) -> Seq<ItemV>
    decreases providers.len(),
{
    if providers.len() == 0 {
        Seq::empty()
    } else {
        mapping_choices(a, mapping, providers.drop_last()) + provider_choices(
            a,
            mapping,
            providers.last(),
        )
    }
}

/// The submenu of one mapping of the adapter `a`.
pub open spec fn mapping_submenu(a: AdapterV, mapping: AdapterModelV, providers: Seq<ProviderV>) -> EntryV {
    EntryV::Submenu {
        title: "  "@ + mapping.source_model_id,
        items: mapping_choices(a, mapping, providers),
    }
}

/// The entries of one adapter: its name (not clickable), a submenu per
/// mapping, then a separator.
pub open spec fn adapter_section(a: AdapterV, providers: Seq<ProviderV>) -> Seq<EntryV> {
    seq![action("noop"@, a.name, false)] + a.models.map_values(
        |m: AdapterModelV| mapping_submenu(a, m, providers),
    ) + seq![separator()]
}

/// The entries of each adapter in turn.
pub open spec fn adapters_section(adapters: Seq<AdapterV>, providers: Seq<ProviderV>) -> Seq<EntryV>
    decreases adapters.len(),
{
    if adapters.len() == 0 {
        Seq::empty()
    } else {
        adapters_section(adapters.drop_last(), providers) + adapter_section(
            adapters.last(),
            providers,
        )
    }
}

/// The middle of the menu: the adapters' entries, or a line saying that the
/// proxy could not be reached where there is no adapter.
pub open spec fn body_entries(adapters: Seq<AdapterV>, providers: Seq<ProviderV>) -> Seq<EntryV> {
    if adapters.len() == 0 {
        seq![action("no_conn"@, "无法连接到 llm-proxy"@, false)]
    } else {
        adapters_section(adapters, providers)
    }
}

/// The identifier of the item that sets the log level `level`.
pub open spec fn log_level_id(level: Seq<char>) -> Seq<char> {
    "loglevel:"@ + level
}

/// The item of the log level `level`, checked where it is `current`.
pub open spec fn log_level_item(level: Seq<char>, current: Seq<char>) -> ItemV {
    ItemV::Action {
        id: log_level_id(level),
        label: check_mark(level == current) + level,
        enabled: true,
    }
}

/// The submenu of log levels.
pub open spec fn log_level_submenu(current: Seq<char>) -> EntryV {
    EntryV::Submenu {
        title: "日志级别: "@ + current,
        items: seq![
            log_level_item("debug"@, current),
            log_level_item("info"@, current),
            log_level_item("warn"@, current),
            log_level_item("error"@, current),
        ],
    }
}

/// The tail of the menu: refresh, the log levels, the admin page and quit.
pub open spec fn footer_entries(current: Seq<char>) -> Seq<EntryV> {
    seq![
        separator(),
        action("refresh"@, "刷新"@, true),
        log_level_submenu(current),
        action("open"@, "打开 Admin UI"@, true),
        separator(),
        action("quit"@, "退出"@, true),
    ]
}

/// The whole tray menu.
pub open spec fn menu_spec(
    running: bool,
    adapters: Seq<AdapterV>,
    providers: Seq<ProviderV>,
    log_level: Seq<char>,
) -> Seq<EntryV> {
    header_entries(running) + body_entries(adapters, providers) + footer_entries(log_level)
}


/// Whether an item carries the check mark.
pub open spec fn is_checked(item: ItemV) -> bool {
    match item {
        ItemV::Action { label, .. } => label.len() >= 2 && label.take(2) == "✓ "@,
        ItemV::Separator => false,
    }
}

/// A label behind a mark carries the check mark exactly when it was marked.
pub proof fn lemma_check_mark(checked: bool, rest: Seq<char>)
    ensures
        (check_mark(checked) + rest).len() >= 2 && ((check_mark(checked) + rest).take(2) == "✓ "@) == checked,
{
    reveal_strlit("✓ ");
    reveal_strlit("  ");
    let l = check_mark(checked) + rest;
    assert(l.take(2) =~= check_mark(checked));
    if !checked {
        assert(l.take(2)[0] != "✓ "@[0]);
    }
}

/// In the submenu of a mapping, the item of a provider's model is checked
/// exactly when the mapping points to that provider and model.
pub proof fn lemma_choice_checked(a: AdapterV, mapping: AdapterModelV, p: ProviderV, m: ProviderModelV)
    ensures
        is_checked(choice_item(a, mapping, p, m)) == (p.name == mapping.provider && m.id
            == mapping.target_model_id),
{
    let checked = p.name == mapping.provider && m.id == mapping.target_model_id;
    lemma_check_mark(checked, p.name + "/"@ + m.id);
    assert(check_mark(checked) + p.name + "/"@ + m.id =~= check_mark(checked) + (p.name + "/"@
        + m.id));
}

/// In the submenu of log levels, a level's item is checked exactly when it
/// is the current level.
pub proof fn lemma_log_level_checked(level: Seq<char>, current: Seq<char>)
    ensures
        is_checked(log_level_item(level, current)) == (level == current),
{
    lemma_check_mark(level == current, level);
}

/// In the submenu of a mapping, every model `q` of every provider `p` has an
/// item that names `p/q` in its label (checked exactly when the mapping
/// points to `p/q`) and whose identifier asks to switch that mapping to that
/// same provider and model: `switch:<adapter>:<source>:<p>:<q>`.
pub proof fn lemma_mapping_choices_cover(
    a: AdapterV,
    mapping: AdapterModelV,
    providers: Seq<ProviderV>,
    k: int,
    j: int,
)
    requires
        0 <= k < providers.len(),
        0 <= j < providers[k].models.len(),
    ensures
        exists|i: int|
            0 <= i < mapping_choices(a, mapping, providers).len() && #[trigger] mapping_choices(
                a,
                mapping,
                providers,
            )[i] == (ItemV::Action {
                id: "switch:"@ + a.name + ":"@ + mapping.source_model_id + ":"@ + providers[k].name
                    + ":"@ + providers[k].models[j].id,
                label: (if providers[k].name == mapping.provider && providers[k].models[j].id
                    == mapping.target_model_id {
                    "✓ "@
                } else {
                    "  "@
                }) + providers[k].name + "/"@ + providers[k].models[j].id,
                enabled: true,
            }),
    decreases providers.len(),
{
    let n = providers.len();
    let all = mapping_choices(a, mapping, providers);
    let pre = mapping_choices(a, mapping, providers.drop_last());
    let last = providers.last();
    assert(all == pre + provider_choices(a, mapping, last));
    if k == n - 1 {
        let i = pre.len() + j;
        assert(provider_choices(a, mapping, last)[j] == choice_item(a, mapping, last, last.models[j]));
        assert(all[i] == provider_choices(a, mapping, last)[j]);
    } else {
        lemma_mapping_choices_cover(a, mapping, providers.drop_last(), k, j);
        assert(providers.drop_last()[k] == providers[k]);
        let i = choose|i: int|
            0 <= i < pre.len() && #[trigger] pre[i] == (ItemV::Action {
                id: "switch:"@ + a.name + ":"@ + mapping.source_model_id + ":"@ + providers[k].name
                    + ":"@ + providers[k].models[j].id,
                label: (if providers[k].name == mapping.provider && providers[k].models[j].id
                    == mapping.target_model_id {
                    "✓ "@
                } else {
                    "  "@
                }) + providers[k].name + "/"@ + providers[k].models[j].id,
                enabled: true,
            });
        assert(all[i] == pre[i]);
    }
}

/// The item for the model `j` of the provider `k` in a mapping's submenu.
pub open spec fn expected_choice(
    a: AdapterV,
    mapping: AdapterModelV,
    providers: Seq<ProviderV>,
    k: int,
    j: int,
) -> ItemV {
    ItemV::Action {
        id: "switch:"@ + a.name + ":"@ + mapping.source_model_id + ":"@ + providers[k].name + ":"@
            + providers[k].models[j].id,
        label: (if providers[k].name == mapping.provider && providers[k].models[j].id
            == mapping.target_model_id {
            "✓ "@
        } else {
            "  "@
        }) + providers[k].name + "/"@ + providers[k].models[j].id,
        enabled: true,
    }
}

/// A mapping's submenu holds nothing but separators and the items of the
/// providers' models.
pub proof fn lemma_mapping_choices_only(a: AdapterV, mapping: AdapterModelV, providers: Seq<ProviderV>)
    ensures
        forall|i: int|
            0 <= i < mapping_choices(a, mapping, providers).len() ==> (#[trigger] mapping_choices(
                a,
                mapping,
                providers,
            )[i] == ItemV::Separator || exists|k: int, j: int|
                0 <= k < providers.len() && 0 <= j < providers[k].models.len()
                    && mapping_choices(a, mapping, providers)[i] == expected_choice(
                    a,
                    mapping,
                    providers,
                    k,
                    j,
                )),
    decreases providers.len(),
{
    if providers.len() > 0 {
        let n = providers.len();
        let pre = mapping_choices(a, mapping, providers.drop_last());
        let last = providers.last();
        let pc = provider_choices(a, mapping, last);
        let all = mapping_choices(a, mapping, providers);
        assert(all == pre + pc);
        lemma_mapping_choices_only(a, mapping, providers.drop_last());
        assert forall|i: int| 0 <= i < all.len() implies (#[trigger] all[i] == ItemV::Separator
            || exists|k: int, j: int|
            0 <= k < providers.len() && 0 <= j < providers[k].models.len() && all[i]
                == expected_choice(a, mapping, providers, k, j)) by {
            if i < pre.len() {
                assert(all[i] == pre[i]);
                if pre[i] != ItemV::Separator {
                    let (k, j) = choose|k: int, j: int|
                        0 <= k < providers.drop_last().len() && 0 <= j
                            < providers.drop_last()[k].models.len() && pre[i] == expected_choice(
                            a,
                            mapping,
                            providers.drop_last(),
                            k,
                            j,
                        );
                    assert(providers.drop_last()[k] == providers[k]);
                    assert(expected_choice(a, mapping, providers.drop_last(), k, j) == expected_choice(
                        a,
                        mapping,
                        providers,
                        k,
                        j,
                    ));
                }
            } else {
                let t = i - pre.len();
                assert(all[i] == pc[t]);
                if t < last.models.len() {
                    assert(pc[t] == choice_item(a, mapping, last, last.models[t]));
                    assert(all[i] == expected_choice(a, mapping, providers, n - 1, t));
                } else {
                    assert(pc[t] == ItemV::Separator);
                }
            }
        }
    }
}

/// The frame of the menu: the status line (not clickable), start/stop,
/// restart (clickable exactly while the proxy runs) and a separator first;
/// a separator, refresh, the log-level submenu titled with the current level,
/// the admin page, a separator and quit last; and, where there is no
/// adapter, only the line saying the proxy cannot be reached in between.
pub proof fn lemma_menu_frame(
    running: bool,
    adapters: Seq<AdapterV>,
    providers: Seq<ProviderV>,
    level: Seq<char>,
)
    ensures
        ({
            let m = menu_spec(running, adapters, providers, level);
            let n = m.len();
            &&& n >= 11
            &&& m[0] == EntryV::Plain(ItemV::Action {
                id: "status"@,
                label: if running { "●  llm-proxy 运行中"@ } else { "○  llm-proxy 未运行"@ },
                enabled: false,
            })
            &&& m[1] == EntryV::Plain(ItemV::Action {
                id: "toggle"@,
                label: if running { "⏹ 停止服务"@ } else { "▶ 启动服务"@ },
                enabled: true,
            })
            &&& m[2] == EntryV::Plain(ItemV::Action { id: "restart"@, label: "↺  重启服务"@, enabled: running })
            &&& m[3] == EntryV::Plain(ItemV::Separator)
            &&& m[n - 6] == EntryV::Plain(ItemV::Separator)
            &&& m[n - 5] == EntryV::Plain(ItemV::Action { id: "refresh"@, label: "刷新"@, enabled: true })
            &&& m[n - 4] matches EntryV::Submenu { title, items } && title == "日志级别: "@ + level && items.len() == 4
            &&& m[n - 3] == EntryV::Plain(ItemV::Action { id: "open"@, label: "打开 Admin UI"@, enabled: true })
            &&& m[n - 2] == EntryV::Plain(ItemV::Separator)
            &&& m[n - 1] == EntryV::Plain(ItemV::Action { id: "quit"@, label: "退出"@, enabled: true })
            &&& adapters.len() == 0 ==> n == 11 && m[4] == EntryV::Plain(ItemV::Action {
                id: "no_conn"@,
                label: "无法连接到 llm-proxy"@,
                enabled: false,
            })
        }),
{
    let m = menu_spec(running, adapters, providers, level);
    let h = header_entries(running);
    let b = body_entries(adapters, providers);
    let f = footer_entries(level);
    assert(m == h + b + f);
    assert(b.len() >= 1) by {
        if adapters.len() > 0 {
            lemma_adapters_section_nonempty(adapters, providers);
        }
    }
    let n = m.len();
    assert(m[n - 1] == f[5]);
    assert(m[n - 2] == f[4]);
    assert(m[n - 3] == f[3]);
    assert(m[n - 4] == f[2]);
    assert(m[n - 5] == f[1]);
    assert(m[n - 6] == f[0]);
}

proof fn lemma_adapters_section_nonempty(adapters: Seq<AdapterV>, providers: Seq<ProviderV>)
    requires
        adapters.len() > 0,
    ensures
        adapters_section(adapters, providers).len() >= 2,
{
    let pre = adapters_section(adapters.drop_last(), providers);
    let sec = adapter_section(adapters.last(), providers);
    assert(sec.len() >= 2);
}

/// Each adapter's part of the menu is its name (not clickable), then for each
/// of its mappings, in order, a submenu titled with the source model and
/// holding the choices of that mapping, then a separator.
pub proof fn lemma_adapter_section_shape(a: AdapterV, providers: Seq<ProviderV>)
    ensures
        adapter_section(a, providers).len() == a.models.len() + 2,
        adapter_section(a, providers)[0] == EntryV::Plain(ItemV::Action {
            id: "noop"@,
            label: a.name,
            enabled: false,
        }),
        forall|i: int|
            0 <= i < a.models.len() ==> #[trigger] adapter_section(a, providers)[i + 1] == (EntryV::Submenu {
                title: "  "@ + a.models[i].source_model_id,
                items: mapping_choices(a, a.models[i], providers),
            }),
        adapter_section(a, providers)[a.models.len() as int + 1] == EntryV::Plain(ItemV::Separator),
{
}

/// The adapters' part of the menu holds each adapter's part, in order.
pub proof fn lemma_adapters_section_concat(a: Seq<AdapterV>, b: Seq<AdapterV>, providers: Seq<ProviderV>)
    ensures
        adapters_section(a + b, providers) == adapters_section(a, providers) + adapters_section(b, providers),
    decreases b.len(),
{
    if b.len() == 0 {
        assert(a + b =~= a);
        assert(adapters_section(a, providers) + adapters_section(b, providers) =~= adapters_section(a, providers));
    } else {
        assert((a + b).drop_last() =~= a + b.drop_last());
        assert((a + b).last() == b.last());
        lemma_adapters_section_concat(a, b.drop_last(), providers);
        assert(adapters_section(a, providers) + (adapters_section(b.drop_last(), providers) + adapter_section(b.last(), providers))
            =~= adapters_section(a, providers) + adapters_section(b.drop_last(), providers) + adapter_section(b.last(), providers));
    }
}

/// One adapter's part of the menu is its own section.
pub proof fn lemma_adapters_section_single(a: AdapterV, providers: Seq<ProviderV>)
    ensures
        adapters_section(seq![a], providers) == adapter_section(a, providers),
{
    assert(seq![a].drop_last() =~= Seq::<AdapterV>::empty());
    assert(seq![a].last() == a);
    assert(adapters_section(Seq::<AdapterV>::empty(), providers) =~= Seq::<EntryV>::empty());
    assert(Seq::<EntryV>::empty() + adapter_section(a, providers) =~= adapter_section(a, providers));
}

/// The log-level submenu offers debug, info, warn and error, in that order;
/// each item's identifier is `loglevel:` and the level, and it is checked
/// exactly when it is the current level.
pub proof fn lemma_log_level_submenu(current: Seq<char>)
    ensures
        log_level_submenu(current) matches EntryV::Submenu { title, items } && title == "日志级别: "@ + current
            && items.len() == 4 && items[0] == (ItemV::Action {
                id: "loglevel:debug"@,
                label: if current == "debug"@ { "✓ debug"@ } else { "  debug"@ },
                enabled: true,
            }) && items[1] == (ItemV::Action {
                id: "loglevel:info"@,
                label: if current == "info"@ { "✓ info"@ } else { "  info"@ },
                enabled: true,
            }) && items[2] == (ItemV::Action {
                id: "loglevel:warn"@,
                label: if current == "warn"@ { "✓ warn"@ } else { "  warn"@ },
                enabled: true,
            }) && items[3] == (ItemV::Action {
                id: "loglevel:error"@,
                label: if current == "error"@ { "✓ error"@ } else { "  error"@ },
                enabled: true,
            }),
{
    reveal_strlit("loglevel:debug");
    reveal_strlit("loglevel:info");
    reveal_strlit("loglevel:warn");
    reveal_strlit("loglevel:error");
    reveal_strlit("loglevel:");
    reveal_strlit("debug");
    reveal_strlit("info");
    reveal_strlit("warn");
    reveal_strlit("error");
    reveal_strlit("✓ debug");
    reveal_strlit("✓ info");
    reveal_strlit("✓ warn");
    reveal_strlit("✓ error");
    reveal_strlit("  debug");
    reveal_strlit("  info");
    reveal_strlit("  warn");
    reveal_strlit("  error");
    reveal_strlit("✓ ");
    reveal_strlit("  ");
    assert("loglevel:"@ + "debug"@ =~= "loglevel:debug"@);
    assert("loglevel:"@ + "info"@ =~= "loglevel:info"@);
    assert("loglevel:"@ + "warn"@ =~= "loglevel:warn"@);
    assert("loglevel:"@ + "error"@ =~= "loglevel:error"@);
    assert("✓ "@ + "debug"@ =~= "✓ debug"@);
    assert("✓ "@ + "info"@ =~= "✓ info"@);
    assert("✓ "@ + "warn"@ =~= "✓ warn"@);
    assert("✓ "@ + "error"@ =~= "✓ error"@);
    assert("  "@ + "debug"@ =~= "  debug"@);
    assert("  "@ + "info"@ =~= "  info"@);
    assert("  "@ + "warn"@ =~= "  warn"@);
    assert("  "@ + "error"@ =~= "  error"@);
}

// ---- building the menu ----

/// An action entry with a fixed identifier.
fn action_entry(id: &str, label: String, enabled: bool) -> (e: MenuEntry)
    ensures
        e@ == action(id@, label@, enabled),
{
    MenuEntry::Plain(MenuItem::Action { id: String::from_str(id), label, enabled })
}

fn separator_entry() -> (e: MenuEntry)
    ensures
        e@ == separator(),
{
    MenuEntry::Plain(MenuItem::Separator)
}

/// A label preceded by the check mark, or by two spaces.
fn marked(checked: bool) -> (res: String)
    ensures
        res@ == check_mark(checked),
{
    if checked {
        String::from_str("✓ ")
    } else {
        String::from_str("  ")
    }
}

/// The identifier of a provider/model choice in a mapping's submenu.
pub fn make_switch_id(adapter: &str, source: &str, provider: &str, model: &str) -> (res: String)
    ensures
        res@ == switch_id(adapter@, source@, provider@, model@),
{
    let mut id = String::from_str("switch:");
    id.append(adapter);
    id.append(":");
    id.append(source);
    id.append(":");
    id.append(provider);
    id.append(":");
    id.append(model);
    id
}

/// The identifier of the item that sets a log level.
pub fn make_log_level_id(level: &str) -> (res: String)
    ensures
        res@ == log_level_id(level@),
{
    let mut id = String::from_str("loglevel:");
    id.append(level);
    id
}

fn choice(a: &Adapter, mapping: &AdapterModel, p: &Provider, m: &crate::model::ProviderModel) -> (item: MenuItem)
    ensures
        item@ == choice_item(a@, mapping@, p@, m@),
{
    let id = make_switch_id(
        a.name.as_str(),
        mapping.source_model_id.as_str(),
        p.name.as_str(),
        m.id.as_str(),
    );
    let checked = str_eq(p.name.as_str(), mapping.provider.as_str()) && str_eq(
        m.id.as_str(),
        mapping.target_model_id.as_str(),
    );
    let mut label = marked(checked);
    label.append(p.name.as_str());
    label.append("/");
    label.append(m.id.as_str());
    MenuItem::Action { id, label, enabled: true }
}

fn push_provider_choices(items: &mut Vec<MenuItem>, a: &Adapter, mapping: &AdapterModel, p: &Provider)
    ensures
        items_view(final(items)@) == items_view(old(items)@) + provider_choices(a@, mapping@, p@),
{
    let ghost start = items_view(items@);
    let ghost f = |m: ProviderModelV| choice_item(a@, mapping@, p@, m);
    let mut j: usize = 0;
    while j < p.models.len()
        invariant
            j <= p.models.len(),
            f == (|m: ProviderModelV| choice_item(a@, mapping@, p@, m)),
            items_view(items@) == start + p@.models.take(j as int).map_values(f),
        decreases p.models.len() - j,
    {
        let item = choice(a, mapping, p, &p.models[j]);
        let ghost before = items@;
        items.push(item);
        assert(p@.models[j as int] == p.models@[j as int]@);
        assert(p@.models.take(j + 1).map_values(f) =~= p@.models.take(j as int).map_values(f).push(
            f(p@.models[j as int]),
        ));
        assert(items_view(items@) =~= items_view(before).push(item@));
        j = j + 1;
    }
    assert(p@.models.take(p.models.len() as int) =~= p@.models);
    let ghost before = items@;
    items.push(MenuItem::Separator);
    assert(items_view(items@) =~= items_view(before).push(ItemV::Separator));
    assert(items_view(items@) =~= start + provider_choices(a@, mapping@, p@));
}

/// The submenu of one mapping of the adapter `a`.
fn mapping_entry(a: &Adapter, mapping: &AdapterModel, providers: &Vec<Provider>) -> (e: MenuEntry)
    ensures
        e@ == mapping_submenu(a@, mapping@, providers_view(providers@)),
{
    let ghost pv = providers_view(providers@);
    let mut items: Vec<MenuItem> = Vec::new();
    let mut k: usize = 0;
    assert(items_view(items@) =~= Seq::<ItemV>::empty());
    while k < providers.len()
        invariant
            k <= providers.len(),
            pv == providers_view(providers@),
            items_view(items@) == mapping_choices(a@, mapping@, pv.take(k as int)),
        decreases providers.len() - k,
    {
        push_provider_choices(&mut items, a, mapping, &providers[k]);
        assert(pv.take(k + 1).drop_last() =~= pv.take(k as int));
        assert(pv.take(k + 1).last() == providers@[k as int]@);
        k = k + 1;
    }
    assert(pv.take(providers.len() as int) =~= pv);
    let mut title = String::from_str("  ");
    title.append(mapping.source_model_id.as_str());
    MenuEntry::Submenu { title, items }
}

fn push_entry(menu: &mut Vec<MenuEntry>, e: MenuEntry)
    ensures
        entries_view(final(menu)@) == entries_view(old(menu)@).push(e@),
{
    menu.push(e);
    assert(entries_view(menu@) =~= entries_view(old(menu)@).push(e@));
}

/// Appends the entries of the adapter `a`.
fn push_adapter_section(menu: &mut Vec<MenuEntry>, a: &Adapter, providers: &Vec<Provider>)
    ensures
        entries_view(final(menu)@) == entries_view(old(menu)@) + adapter_section(
            a@,
            providers_view(providers@),
        ),
{
    let ghost start = entries_view(menu@);
    let ghost pv = providers_view(providers@);
    let ghost f = |m: AdapterModelV| mapping_submenu(a@, m, pv);
    push_entry(menu, action_entry("noop", a.name.clone(), false));
    let mut i: usize = 0;
    while i < a.models.len()
        invariant
            i <= a.models.len(),
            pv == providers_view(providers@),
            f == (|m: AdapterModelV| mapping_submenu(a@, m, pv)),
            entries_view(menu@) == start + seq![action("noop"@, a@.name, false)] + a@.models.take(
                i as int,
            ).map_values(f),
        decreases a.models.len() - i,
    {
        let e = mapping_entry(a, &a.models[i], providers);
        push_entry(menu, e);
        assert(a@.models[i as int] == a.models@[i as int]@);
        assert(a@.models.take(i + 1).map_values(f) =~= a@.models.take(i as int).map_values(f).push(
            f(a@.models[i as int]),
        ));
        i = i + 1;
    }
    assert(a@.models.take(a.models.len() as int) =~= a@.models);
    push_entry(menu, separator_entry());
    assert(entries_view(menu@) =~= start + adapter_section(a@, pv));
}

fn log_level_entry(current: &str) -> (e: MenuEntry)
    ensures
        e@ == log_level_submenu(current@),
{
    let mut items: Vec<MenuItem> = Vec::new();
    let mut title = String::from_str("日志级别: ");
    title.append(current);
    let mut label = marked(str_eq("debug", current));
    label.append("debug");
    items.push(MenuItem::Action { id: make_log_level_id("debug"), label, enabled: true });
    let mut label = marked(str_eq("info", current));
    label.append("info");
    items.push(MenuItem::Action { id: make_log_level_id("info"), label, enabled: true });
    let mut label = marked(str_eq("warn", current));
    label.append("warn");
    items.push(MenuItem::Action { id: make_log_level_id("warn"), label, enabled: true });
    let mut label = marked(str_eq("error", current));
    label.append("error");
    items.push(MenuItem::Action { id: make_log_level_id("error"), label, enabled: true });
    assert(items_view(items@) =~= seq![
        log_level_item("debug"@, current@),
        log_level_item("info"@, current@),
        log_level_item("warn"@, current@),
        log_level_item("error"@, current@),
    ]);
    MenuEntry::Submenu { title, items }
}

/// The tray menu for a proxy that runs or not, its adapters and providers,
/// and the current log level.
pub fn build_menu(
    running: bool,
    adapters: &Vec<Adapter>,
    providers: &Vec<Provider>,
    log_level: &str,
) -> (menu: Vec<MenuEntry>)
    ensures
        entries_view(menu@) == menu_spec(
            running,
            adapters_view(adapters@),
            providers_view(providers@),
            log_level@,
        ),
{
    let ghost av = adapters_view(adapters@);
    let ghost pv = providers_view(providers@);
    let mut menu: Vec<MenuEntry> = Vec::new();
    let status = if running {
        String::from_str("●  llm-proxy 运行中")
    } else {
        String::from_str("○  llm-proxy 未运行")
    };
    push_entry(&mut menu, action_entry("status", status, false));
    let toggle = if running {
        String::from_str("⏹ 停止服务")
    } else {
        String::from_str("▶ 启动服务")
    };
    push_entry(&mut menu, action_entry("toggle", toggle, true));
    push_entry(&mut menu, action_entry("restart", String::from_str("↺  重启服务"), running));
    push_entry(&mut menu, separator_entry());
    assert(entries_view(menu@) =~= header_entries(running));
    if adapters.len() == 0 {
        push_entry(
            &mut menu,
            action_entry("no_conn", String::from_str("无法连接到 llm-proxy"), false),
        );
    } else {
        let mut i: usize = 0;
        assert(av.take(0) =~= Seq::<AdapterV>::empty());
        while i < adapters.len()
            invariant
                i <= adapters.len(),
                av == adapters_view(adapters@),
                pv == providers_view(providers@),
                entries_view(menu@) == header_entries(running) + adapters_section(
                    av.take(i as int),
                    pv,
                ),
            decreases adapters.len() - i,
        {
            push_adapter_section(&mut menu, &adapters[i], providers);
            assert(av.take(i + 1).drop_last() =~= av.take(i as int));
            assert(av.take(i + 1).last() == adapters@[i as int]@);
            assert(entries_view(menu@) =~= header_entries(running) + adapters_section(
                av.take(i + 1),
                pv,
            ));
            i = i + 1;
        }
        assert(av.take(adapters.len() as int) =~= av);
    }
    assert(entries_view(menu@) =~= header_entries(running) + body_entries(av, pv));
    push_entry(&mut menu, separator_entry());
    push_entry(&mut menu, action_entry("refresh", String::from_str("刷新"), true));
    push_entry(&mut menu, log_level_entry(log_level));
    push_entry(&mut menu, action_entry("open", String::from_str("打开 Admin UI"), true));
    push_entry(&mut menu, separator_entry());
    push_entry(&mut menu, action_entry("quit", String::from_str("退出"), true));
    assert(entries_view(menu@) =~= menu_spec(running, av, pv, log_level@));
    menu
}

} // verus!

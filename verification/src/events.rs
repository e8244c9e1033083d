//! What a click on a tray menu item asks for, read from the identifier the
//! item reports, and how a switch of model changes an adapter's mappings.

use vstd::prelude::*;
use crate::menu::{log_level_id, switch_id};
use crate::model::{Adapter, AdapterModel, AdapterModelV, AdapterV, adapter_models_view};
use crate::text::{free_of, skip_chars, split_once, split_once_spec, lemma_split_once_join, starts_with, str_eq};

verus! {

/// The model of a menu event.
pub enum EventV {
    OpenAdmin,
    Refresh,
    Toggle,
    Restart,
    SetLogLevel(Seq<char>),
    Switch { adapter: Seq<char>, source: Seq<char>, provider: Seq<char>, target: Seq<char> },
    Quit,
    Ignored,
}

/// What a click on a menu item asks for.
#[derive(Debug)]
pub enum MenuEvent {
    /// Open the admin page in the browser.
    OpenAdmin,
    /// Read the adapters, providers and log level again.
    Refresh,
    /// Stop the proxy where it runs, start it where it does not.
    Toggle,
    /// Stop the proxy and start it again.
    Restart,
    /// Set the proxy's log level.
    SetLogLevel(String),
    /// Send the source model `source` of the adapter `adapter` to the model
    /// `target` of the provider `provider`.
    Switch { adapter: String, source: String, provider: String, target: String },
    /// Stop the proxy and leave.
    Quit,
    /// Nothing (an informational item, or an identifier not understood).
    Ignored,
}

impl View for MenuEvent {
    type V = EventV;

    open spec fn view(&self) -> EventV {
        match self {
            MenuEvent::OpenAdmin => EventV::OpenAdmin,
            MenuEvent::Refresh => EventV::Refresh,
            MenuEvent::Toggle => EventV::Toggle,
            MenuEvent::Restart => EventV::Restart,
            MenuEvent::SetLogLevel(l) => EventV::SetLogLevel(l@),
            MenuEvent::Switch { adapter, source, provider, target } => EventV::Switch {
                adapter: adapter@,
                source: source@,
                provider: provider@,
                target: target@,
            },
            MenuEvent::Quit => EventV::Quit,
            MenuEvent::Ignored => EventV::Ignored,
        }
    }
}

/// Whether `prefix` begins `s`.
pub open spec fn has_prefix(s: Seq<char>, prefix: Seq<char>) -> bool {
    prefix.len() <= s.len() && s.take(prefix.len() as int) == prefix
}

/// The four fields after `switch:` in a switch identifier, separated by
/// colons; the last field is the rest of the identifier, colons included.
pub open spec fn switch_fields(rest: Seq<char>) -> Option<(Seq<char>, Seq<char>, Seq<char>, Seq<char>)> {
    match split_once_spec(rest, ':') {
        Some((adapter, r1)) => match split_once_spec(r1, ':') {
            Some((source, r2)) => match split_once_spec(r2, ':') {
                Some((provider, target)) => Some((adapter, source, provider, target)),
                None => None,
            },
            None => None,
        },
        None => None,
    }
}

/// The event of a menu item's identifier: the fixed identifiers `open`,
/// `refresh`, `toggle`, `restart` and `quit`; `loglevel:` followed by a
/// level; `switch:` followed by adapter, source model, provider and model
/// separated by colons (one with fewer colons asks for nothing); anything
/// else asks for nothing.
pub open spec fn event_of_id(id: Seq<char>) -> EventV {
    if id == "open"@ {
        EventV::OpenAdmin
    } else if id == "refresh"@ {
        EventV::Refresh
    } else if id == "toggle"@ {
        EventV::Toggle
    } else if id == "restart"@ {
        EventV::Restart
    } else if has_prefix(id, "loglevel:"@) {
        EventV::SetLogLevel(id.skip(9))
    } else if has_prefix(id, "switch:"@) {
        match switch_fields(id.skip(7)) {
            Some((adapter, source, provider, target)) => EventV::Switch {
                adapter,
                source,
                provider,
                target,
            },
            None => EventV::Ignored,
        }
    } else if id == "quit"@ {
        EventV::Quit
    } else {
        EventV::Ignored
    }
}

fn switch_event(rest: &str) -> (e: MenuEvent)
    ensures
        e@ == (match switch_fields(rest@) {
            Some((adapter, source, provider, target)) => EventV::Switch {
                adapter,
                source,
                provider,
                target,
            },
            None => EventV::Ignored,
        }),
{
    match split_once(rest, ':') {
        Some((adapter, r1)) => match split_once(r1, ':') {
            Some((source, r2)) => match split_once(r2, ':') {
                Some((provider, target)) => MenuEvent::Switch {
                    adapter: String::from_str(adapter),
                    source: String::from_str(source),
                    provider: String::from_str(provider),
                    target: String::from_str(target),
                },
                None => MenuEvent::Ignored,
            },
            None => MenuEvent::Ignored,
        },
        None => MenuEvent::Ignored,
    }
}

/// The event that a click on the menu item with identifier `id` asks for.
pub fn parse_menu_event(id: &str) -> (e: MenuEvent)
    ensures
        e@ == event_of_id(id@),
{
    proof {
        reveal_strlit("loglevel:");
        reveal_strlit("switch:");
    }
    if str_eq(id, "open") {
        MenuEvent::OpenAdmin
    } else if str_eq(id, "refresh") {
        MenuEvent::Refresh
    } else if str_eq(id, "toggle") {
        MenuEvent::Toggle
    } else if str_eq(id, "restart") {
        MenuEvent::Restart
    } else if starts_with(id, "loglevel:") {
        MenuEvent::SetLogLevel(String::from_str(skip_chars(id, 9)))
    } else if starts_with(id, "switch:") {
        switch_event(skip_chars(id, 7))
    } else if str_eq(id, "quit") {
        MenuEvent::Quit
    } else {
        MenuEvent::Ignored
    }
}

/// A switch identifier begins with `switch:`, followed by its four fields
/// separated by colons.
proof fn lemma_switch_id_shape(adapter: Seq<char>, source: Seq<char>, provider: Seq<char>, model: Seq<char>)
    ensures
        has_prefix(switch_id(adapter, source, provider, model), "switch:"@),
        switch_id(adapter, source, provider, model).skip(7) == adapter + seq![':'] + (source + seq![':'] + (provider + seq![':'] + model)),
{
    let r2 = provider + seq![':'] + model;
    let r1 = source + seq![':'] + r2;
    let rest = adapter + seq![':'] + r1;
    let id = switch_id(adapter, source, provider, model);
    assert(id =~= "switch:"@ + rest) by {
        reveal_strlit(":");
    }
    assert("switch:"@.len() == 7) by {
        reveal_strlit("switch:");
    }
    assert(id.take(7) =~= "switch:"@);
    assert(id.skip(7) =~= rest);
}

/// An identifier that begins with `switch:` is none of the fixed ones and
/// does not begin with `loglevel:`.
proof fn lemma_switch_prefix_excludes(id: Seq<char>)
    requires
        has_prefix(id, "switch:"@),
    ensures
        id != "open"@,
        id != "refresh"@,
        id != "toggle"@,
        id != "restart"@,
        !has_prefix(id, "loglevel:"@),
{
    reveal_strlit("switch:");
    assert(id[0] == id.take(7)[0]);
    assert(id[0] == 's');
    assert(id != "open"@) by {
        reveal_strlit("open");
        assert("open"@[0] == 'o');
    }
    assert(id != "refresh"@) by {
        reveal_strlit("refresh");
        assert("refresh"@[0] == 'r');
    }
    assert(id != "toggle"@) by {
        reveal_strlit("toggle");
        assert("toggle"@[0] == 't');
    }
    assert(id != "restart"@) by {
        reveal_strlit("restart");
        assert("restart"@[0] == 'r');
    }
    assert(!has_prefix(id, "loglevel:"@)) by {
        reveal_strlit("loglevel:");
        if has_prefix(id, "loglevel:"@) {
            assert(id.take(9)[0] == 'l');
        }
    }
}

/// A click on a model in a mapping's submenu asks to switch exactly that
/// mapping to exactly that model, where the adapter's name, the source
/// model and the provider's name hold no colon.
pub proof fn lemma_switch_id_event(adapter: Seq<char>, source: Seq<char>, provider: Seq<char>, model: Seq<char>)
    requires
        free_of(adapter, ':'),
        free_of(source, ':'),
        free_of(provider, ':'),
    ensures
        event_of_id(switch_id(adapter, source, provider, model)) == (EventV::Switch {
            adapter,
            source,
            provider,
            target: model,
        }),
{
    let r2 = provider + seq![':'] + model;
    let r1 = source + seq![':'] + r2;
    let id = switch_id(adapter, source, provider, model);
    lemma_switch_id_shape(adapter, source, provider, model);
    lemma_switch_prefix_excludes(id);
    lemma_split_once_join(adapter, ':', r1);
    lemma_split_once_join(source, ':', r2);
    lemma_split_once_join(provider, ':', model);
    assert(switch_fields(id.skip(7)) == Some((adapter, source, provider, model)));
}

/// The fixed identifiers of the menu ask for their own events, and the
/// informational ones for nothing.
pub proof fn lemma_fixed_ids()
    ensures
        event_of_id("open"@) == EventV::OpenAdmin,
        event_of_id("refresh"@) == EventV::Refresh,
        event_of_id("toggle"@) == EventV::Toggle,
        event_of_id("restart"@) == EventV::Restart,
        event_of_id("quit"@) == EventV::Quit,
        event_of_id("status"@) == EventV::Ignored,
        event_of_id("noop"@) == EventV::Ignored,
        event_of_id("no_conn"@) == EventV::Ignored,
{
    reveal_strlit("open");
    reveal_strlit("refresh");
    reveal_strlit("toggle");
    reveal_strlit("restart");
    reveal_strlit("quit");
    reveal_strlit("status");
    reveal_strlit("noop");
    reveal_strlit("no_conn");
    reveal_strlit("loglevel:");
    reveal_strlit("switch:");
    assert("quit"@ != "open"@ && "quit"@ != "refresh"@ && "quit"@ != "toggle"@ && "quit"@ != "restart"@) by {
        assert("quit"@[0] == 'q');
    }
    assert(!has_prefix("quit"@, "loglevel:"@) && !has_prefix("quit"@, "switch:"@));
    assert("status"@ != "open"@ && "status"@ != "refresh"@ && "status"@ != "toggle"@ && "status"@ != "restart"@ && "status"@ != "quit"@) by {
        assert("status"@[0] == 's');
        assert("status"@.len() == 6);
    }
    assert(!has_prefix("status"@, "loglevel:"@) && !has_prefix("status"@, "switch:"@));
    assert("noop"@ != "open"@ && "noop"@ != "refresh"@ && "noop"@ != "toggle"@ && "noop"@ != "restart"@ && "noop"@ != "quit"@) by {
        assert("noop"@[0] == 'n');
    }
    assert(!has_prefix("noop"@, "loglevel:"@) && !has_prefix("noop"@, "switch:"@));
    assert("no_conn"@ != "open"@ && "no_conn"@ != "refresh"@ && "no_conn"@ != "toggle"@ && "no_conn"@ != "restart"@ && "no_conn"@ != "quit"@) by {
        assert("no_conn"@[0] == 'n');
    }
    assert(!has_prefix("no_conn"@, "switch:"@)) by {
        assert("no_conn"@.take(7)[0] != "switch:"@[0]);
    }
    assert(!has_prefix("no_conn"@, "loglevel:"@));
    assert("refresh"@ != "open"@) by {
        assert("refresh"@[0] == 'r');
    }
    assert("toggle"@ != "open"@ && "toggle"@ != "refresh"@) by {
        assert("toggle"@[0] == 't');
    }
    assert("restart"@ != "open"@ && "restart"@ != "refresh"@ && "restart"@ != "toggle"@) by {
        assert("restart"@[2] == 's');
        assert("refresh"@[2] == 'f');
        assert("restart"@[0] == 'r');
    }
}

/// A click on a log level's item asks to set exactly that level.
pub proof fn lemma_log_level_id_event(level: Seq<char>)
    ensures
        event_of_id(log_level_id(level)) == EventV::SetLogLevel(level),
{
    reveal_strlit("loglevel:");
    reveal_strlit("open");
    reveal_strlit("refresh");
    reveal_strlit("toggle");
    reveal_strlit("restart");
    let id = log_level_id(level);
    assert(id[0] == 'l');
    assert(id != "open"@);
    assert(id != "refresh"@);
    assert(id != "toggle"@);
    assert(id != "restart"@);
    assert(id.take(9) =~= "loglevel:"@);
    assert(id.skip(9) =~= level);
}

// ---- switching a mapping ----

/// A mapping after the switch of `source` to `provider`/`target`: changed
/// where it maps `source`, as it was otherwise.
pub open spec fn switched_model(
    m: AdapterModelV,
    source: Seq<char>,
    provider: Seq<char>,
    target: Seq<char>,
) -> AdapterModelV {
    if m.source_model_id == source {
        AdapterModelV { provider, target_model_id: target, ..m }
    } else {
        m
    }
}

/// The mappings after the switch of `source` to `provider`/`target`.
pub open spec fn switched_models(
    ms: Seq<AdapterModelV>,
    source: Seq<char>,
    provider: Seq<char>,
    target: Seq<char>,
) -> Seq<AdapterModelV> {
    ms.map_values(|m: AdapterModelV| switched_model(m, source, provider, target))
}

fn copy_opt_string(o: &Option<String>) -> (res: Option<String>)
    ensures
        crate::text::opt_string_view(res) == crate::text::opt_string_view(*o),
{
    match o {
        Some(s) => Some(s.clone()),
        None => None,
    }
}

/// The mappings `models` with every mapping of `source` sent to
/// `provider`/`target`.
pub fn switch_models(models: &Vec<AdapterModel>, source: &str, provider: &str, target: &str) -> (res: Vec<AdapterModel>)
    ensures
        adapter_models_view(res@) == switched_models(
            adapter_models_view(models@),
            source@,
            provider@,
            target@,
        ),
{
    let ghost mv = adapter_models_view(models@);
    let mut out: Vec<AdapterModel> = Vec::new();
    let mut i: usize = 0;
    while i < models.len()
        invariant
            i <= models.len(),
            mv == adapter_models_view(models@),
            out@.len() == i,
            forall|k: int| 0 <= k < i ==> #[trigger] out@[k]@ == switched_model(mv[k], source@, provider@, target@),
        decreases models.len() - i,
    {
        let m = &models[i];
        let matches = str_eq(m.source_model_id.as_str(), source);
        let updated = if matches {
            AdapterModel {
                source_model_id: m.source_model_id.clone(),
                provider: String::from_str(provider),
                target_model_id: String::from_str(target),
                status: copy_opt_string(&m.status),
            }
        } else {
            AdapterModel {
                source_model_id: m.source_model_id.clone(),
                provider: m.provider.clone(),
                target_model_id: m.target_model_id.clone(),
                status: copy_opt_string(&m.status),
            }
        };
        out.push(updated);
        assert(mv[i as int] == m@);
        i = i + 1;
    }
    assert(adapter_models_view(out@) =~= switched_models(mv, source@, provider@, target@));
    out
}

/// The position of the first adapter named `name`.
pub open spec fn first_adapter_named(adapters: Seq<AdapterV>, name: Seq<char>) -> Option<int> {
    if exists|i: int| 0 <= i < adapters.len() && adapters[i].name == name {
        Some(
            choose|i: int|
                0 <= i < adapters.len() && adapters[i].name == name && forall|j: int|
                    0 <= j < i ==> adapters[j].name != name,
        )
    } else {
        None
    }
}

/// The position of the first adapter named `name`, if any.
pub fn find_adapter(adapters: &Vec<Adapter>, name: &str) -> (res: Option<usize>)
    ensures
        match res {
            Some(i) => i < adapters@.len() && first_adapter_named(crate::model::adapters_view(adapters@), name@) == Some(i as int),
            None => first_adapter_named(crate::model::adapters_view(adapters@), name@) is None,
        },
        match res {
            Some(i) => i < adapters@.len() && adapters@[i as int].name@ == name@ && forall|j: int|
                0 <= j < i ==> adapters@[j].name@ != name@,
            None => forall|j: int| 0 <= j < adapters@.len() ==> adapters@[j].name@ != name@,
        },
{
    let ghost av = crate::model::adapters_view(adapters@);
    let mut i: usize = 0;
    while i < adapters.len()
        invariant
            i <= adapters.len(),
            av == crate::model::adapters_view(adapters@),
            forall|j: int| 0 <= j < i ==> av[j].name != name@,
            av.len() == adapters@.len(),
            forall|j: int| 0 <= j < adapters@.len() ==> #[trigger] av[j] == adapters@[j]@,
        decreases adapters.len() - i,
    {
        if str_eq(adapters[i].name.as_str(), name) {
            proof {
                assert(av[i as int].name == name@);
                let k = choose|k: int|
                    0 <= k < av.len() && av[k].name == name@ && forall|j: int|
                        0 <= j < k ==> av[j].name != name@;
                if k < i {
                    assert(av[k].name != name@);
                }
                if (i as int) < k {
                    assert(av[i as int].name != name@);
                }
                assert forall|j: int| 0 <= j < i implies adapters@[j].name@ != name@ by {
                    assert(av[j] == adapters@[j]@);
                }
            }
            return Some(i);
        }
        i = i + 1;
    }
    assert forall|j: int| 0 <= j < adapters@.len() implies adapters@[j].name@ != name@ by {
        assert(av[j] == adapters@[j]@);
    }
    None
}


/// A switch keeps the number, the order, the source models and the statuses
/// of the mappings; afterwards each mapping of `source` points to
/// `provider`/`target`, and every other mapping is as it was.
pub proof fn lemma_switch_effect(
    ms: Seq<AdapterModelV>,
    source: Seq<char>,
    provider: Seq<char>,
    target: Seq<char>,
)
    ensures
        switched_models(ms, source, provider, target).len() == ms.len(),
        forall|i: int|
            0 <= i < ms.len() ==> {
                let r = #[trigger] switched_models(ms, source, provider, target)[i];
                &&& r.source_model_id == ms[i].source_model_id
                &&& r.status == ms[i].status
                &&& ms[i].source_model_id == source ==> r.provider == provider && r.target_model_id
                    == target
                &&& ms[i].source_model_id != source ==> r == ms[i]
            },
{
}

/// Switching a second time the same way changes nothing more.
pub proof fn lemma_switch_idempotent(
    ms: Seq<AdapterModelV>,
    source: Seq<char>,
    provider: Seq<char>,
    target: Seq<char>,
)
    ensures
        switched_models(switched_models(ms, source, provider, target), source, provider, target)
            == switched_models(ms, source, provider, target),
{
    let once = switched_models(ms, source, provider, target);
    assert(switched_models(once, source, provider, target) =~= once);
}

/// Once a mapping of `source` is switched to `provider`/`target`, its
/// submenu checks the item of that provider's model and no other.
pub proof fn lemma_switch_then_checked(
    a: AdapterV,
    mapping: AdapterModelV,
    source: Seq<char>,
    provider: Seq<char>,
    target: Seq<char>,
    p: crate::model::ProviderV,
    m: crate::model::ProviderModelV,
)
    requires
        mapping.source_model_id == source,
    ensures
        crate::menu::is_checked(
            crate::menu::choice_item(a, switched_model(mapping, source, provider, target), p, m),
        ) == (p.name == provider && m.id == target),
{
    crate::menu::lemma_choice_checked(a, switched_model(mapping, source, provider, target), p, m);
}

} // verus!

//! The proxy's address, the URLs of its admin API, what the tray reads from
//! the API's answers and the bodies it sends to it.

use vstd::prelude::*;
use crate::json::{Json, JsonV, json_of_text, json_quote, json_quoted, member, parse_json};
use crate::model::{
    Adapter, AdapterModel, AdapterModelV, AdapterV, ConfigData, ProviderV, adapter_models_view,
    adapters_in, adapters_view, providers_in, providers_view, read_adapter_list, read_provider_list,
};
use crate::text::{decimal, opt_str_view, parse_u16, parse_u16_spec, push_decimal};

verus! {

/// The port the proxy listens on when none is configured.
pub const DEFAULT_PORT: u16 = 9000;

/// The log level shown while the proxy has told none.
pub open spec fn default_log_level() -> Seq<char> {
    "info"@
}

/// The port named by the value of the `LLM_PROXY_PORT` variable: the value
/// read as a 16-bit decimal number, or 9000 where the variable is unset or
/// does not read as one.
pub open spec fn proxy_port_spec(env_value: Option<Seq<char>>) -> u16 {
    match env_value {
        Some(s) => match parse_u16_spec(s) {
            Some(p) => p,
            None => DEFAULT_PORT,
        },
        None => DEFAULT_PORT,
    }
}

/// The proxy's port, from the value of `LLM_PROXY_PORT` (`None` where it is
/// unset or not unicode).
pub fn proxy_port(env_value: Option<&str>) -> (port: u16)
    ensures
        port == proxy_port_spec(opt_str_view(env_value)),
{
    match env_value {
        Some(s) => match parse_u16(s) {
            Some(p) => p,
            None => DEFAULT_PORT,
        },
        None => DEFAULT_PORT,
    }
}

/// A port written in decimal in `LLM_PROXY_PORT` is the port used.
pub proof fn lemma_proxy_port_of_decimal(port: u16)
    ensures
        proxy_port_spec(Some(decimal(port as nat))) == port,
{
    crate::text::lemma_parse_decimal_u16(port);
}

/// The base URL of the proxy's API.
pub open spec fn api_base_spec(port: u16) -> Seq<char> {
    "http://127.0.0.1:"@ + decimal(port as nat)
}

/// The base URL of the proxy's API on `port`.
pub fn api_base(port: u16) -> (res: String)
    ensures
        res@ == api_base_spec(port),
{
    let mut s = String::from_str("http://127.0.0.1:");
    push_decimal(&mut s, port as u32);
    s
}

/// The URL of the proxy's admin page on `port`.
pub fn admin_url(port: u16) -> (res: String)
    ensures
        res@ == api_base_spec(port) + "/admin/"@,
{
    let mut s = api_base(port);
    s.append("/admin/");
    s
}

/// The socket address that is probed to tell whether the proxy runs.
pub fn proxy_addr(port: u16) -> (res: String)
    ensures
        res@ == "127.0.0.1:"@ + decimal(port as nat),
{
    let mut s = String::from_str("127.0.0.1:");
    push_decimal(&mut s, port as u32);
    s
}

/// The resources of the admin API that the tray reads and writes.
#[derive(Debug, Clone, Copy, PartialEq, Eq, Structural)]
pub enum Endpoint {
    Adapters,
    Config,
    LogLevel,
}

/// The path of an endpoint.
pub open spec fn endpoint_path(e: Endpoint) -> Seq<char> {
    match e {
        Endpoint::Adapters => "/admin/adapters"@,
        Endpoint::Config => "/admin/config"@,
        Endpoint::LogLevel => "/admin/log-level"@,
    }
}

/// The URL of an endpoint of the API on `port`.
pub fn endpoint_url(port: u16, endpoint: Endpoint) -> (res: String)
    ensures
        res@ == api_base_spec(port) + endpoint_path(endpoint),
{
    let mut s = api_base(port);
    match endpoint {
        Endpoint::Adapters => s.append("/admin/adapters"),
        Endpoint::Config => s.append("/admin/config"),
        Endpoint::LogLevel => s.append("/admin/log-level"),
    }
    s
}

/// The URL of the adapter named `name` on `port` (the name is not escaped).
pub fn adapter_url(port: u16, name: &str) -> (res: String)
    ensures
        res@ == api_base_spec(port) + "/admin/adapters/"@ + name@,
{
    let mut s = api_base(port);
    s.append("/admin/adapters/");
    s.append(name);
    s
}

// ---- answers ----

/// The document read from an answer's body (`None` where no body came).
pub open spec fn parsed_body(body: Option<Seq<char>>) -> Option<JsonV> {
    match body {
        Some(t) => json_of_text(t),
        None => None,
    }
}

/// The value found at `data`, then `key`, in an answer.
pub open spec fn data_member(response: Option<JsonV>, key: Seq<char>) -> Option<JsonV> {
    match response {
        Some(v) => match member(v, "data"@) {
            Some(d) => member(d, key),
            None => None,
        },
        None => None,
    }
}

/// The adapters of an answer: those among the array at `data.adapters`,
/// none where there is no such array.
pub open spec fn adapters_of_response(response: Option<JsonV>) -> Seq<AdapterV> {
    match data_member(response, "adapters"@) {
        Some(JsonV::Array(items)) => adapters_in(items),
        _ => Seq::empty(),
    }
}

/// The providers of an answer, where `data` is an object: those among the
/// array at `data.providers`, none where there is no such array.
pub open spec fn config_of_response(response: Option<JsonV>) -> Option<Seq<ProviderV>> {
    match response {
        Some(v) => match member(v, "data"@) {
            Some(d) => match d {
                JsonV::Object(_) => Some(
                    match member(d, "providers"@) {
                        Some(JsonV::Array(items)) => providers_in(items),
                        _ => Seq::empty(),
                    },
                ),
                _ => None,
            },
            None => None,
        },
        None => None,
    }
}

/// The log level of an answer: the string at `data.level`, `info` where
/// there is none.
pub open spec fn log_level_of_response(response: Option<JsonV>) -> Seq<char> {
    match data_member(response, "level"@) {
        Some(JsonV::Str(s)) => s,
        _ => default_log_level(),
    }
}

/// The log level read from an answer is the string at `data.level`,
/// whatever string it is; `info` where `data.level` is no string.
pub proof fn lemma_log_level_read(v: JsonV, d: JsonV)
    requires
        member(v, "data"@) == Some(d),
    ensures
        forall|s: Seq<char>| member(d, "level"@) == Some(JsonV::Str(s)) ==> log_level_of_response(Some(v)) == s,
        !(member(d, "level"@) matches Some(JsonV::Str(_))) ==> log_level_of_response(Some(v)) == "info"@,
{
}

/// The adapters of an answer whose `data` is `d` are those among the array
/// at `d.adapters`, and none where there is no such array.
pub proof fn lemma_adapters_read(v: JsonV, d: JsonV)
    requires
        member(v, "data"@) == Some(d),
    ensures
        forall|items: Seq<JsonV>|
            member(d, "adapters"@) == Some(JsonV::Array(items)) ==> adapters_of_response(Some(v))
                == adapters_in(items),
        !(member(d, "adapters"@) matches Some(JsonV::Array(_))) ==> adapters_of_response(Some(v)).len() == 0,
{
}

/// The configuration of an answer whose `data` is `d` exists exactly where
/// `d` is an object; its providers are those among the array at
/// `d.providers`, and none where there is no such array.
pub proof fn lemma_config_read(v: JsonV, d: JsonV)
    requires
        member(v, "data"@) == Some(d),
    ensures
        !(d is Object) ==> config_of_response(Some(v)) is None,
        forall|items: Seq<JsonV>|
            d is Object && member(d, "providers"@) == Some(JsonV::Array(items)) ==> config_of_response(
                Some(v),
            ) == Some(providers_in(items)),
        d is Object && !(member(d, "providers"@) matches Some(JsonV::Array(_))) ==> config_of_response(
            Some(v),
        ) == Some(Seq::<ProviderV>::empty()),
{
}

/// An answer that is missing, or has no `data`, has no adapters, no
/// configuration, and the log level `info`.
pub proof fn lemma_answer_without_data(response: Option<JsonV>)
    requires
        response matches Some(v) ==> member(v, "data"@) is None,
    ensures
        adapters_of_response(response).len() == 0,
        config_of_response(response) is None,
        log_level_of_response(response) == "info"@,
{
}

/// The model of an optional configuration: its providers.
pub open spec fn opt_config_view(c: Option<ConfigData>) -> Option<Seq<ProviderV>> {
    match c {
        Some(c) => Some(providers_view(c.providers@)),
        None => None,
    }
}

fn data_member_of<'a>(response: &'a Option<Json>, key: &str) -> (res: Option<&'a Json>)
    ensures
        match res {
            Some(v) => data_member(crate::json::opt_json_view(*response), key@) == Some(v@),
            None => data_member(crate::json::opt_json_view(*response), key@) is None,
        },
{
    match response {
        Some(v) => match v.member("data") {
            Some(d) => d.member(key),
            None => None,
        },
        None => None,
    }
}

/// The adapters of an answer of the adapters endpoint.
pub fn adapters_from_response(response: &Option<Json>) -> (res: Vec<Adapter>)
    ensures
        adapters_view(res@) == adapters_of_response(crate::json::opt_json_view(*response)),
{
    match data_member_of(response, "adapters") {
        Some(Json::Array(items)) => read_adapter_list(items),
        _ => Vec::new(),
    }
}

/// The configuration of an answer of the config endpoint.
pub fn config_from_response(response: &Option<Json>) -> (res: Option<ConfigData>)
    ensures
        opt_config_view(res) == config_of_response(crate::json::opt_json_view(*response)),
{
    match response {
        Some(v) => match v.member("data") {
            Some(d) => match d {
                Json::Object(_) => {
                    let providers = match d.member("providers") {
                        Some(Json::Array(items)) => read_provider_list(items),
                        _ => Vec::new(),
                    };
                    Some(ConfigData { providers })
                },
                _ => None,
            },
            None => None,
        },
        None => None,
    }
}

/// The log level of an answer of the log-level endpoint.
pub fn log_level_from_response(response: &Option<Json>) -> (res: String)
    ensures
        res@ == log_level_of_response(crate::json::opt_json_view(*response)),
{
    match data_member_of(response, "level") {
        Some(Json::Str(s)) => s.clone(),
        _ => String::from_str("info"),
    }
}

/// Parses an answer's body, where one came.
fn parse_body(body: Option<&str>) -> (res: Option<Json>)
    ensures
        crate::json::opt_json_view(res) == parsed_body(opt_str_view(body)),
{
    match body {
        Some(t) => parse_json(t),
        None => None,
    }
}

/// The adapters that the proxy reports in the body of its answer to
/// `GET /admin/adapters` (`None` where the request failed).
pub fn fetch_adapters(body: Option<&str>) -> (res: Vec<Adapter>)
    ensures
        adapters_view(res@) == adapters_of_response(parsed_body(opt_str_view(body))),
{
    let response = parse_body(body);
    adapters_from_response(&response)
}

/// The configuration that the proxy reports in the body of its answer to
/// `GET /admin/config` (`None` where the request failed).
pub fn fetch_config(body: Option<&str>) -> (res: Option<ConfigData>)
    ensures
        opt_config_view(res) == config_of_response(parsed_body(opt_str_view(body))),
{
    let response = parse_body(body);
    config_from_response(&response)
}

/// The log level that the proxy reports in the body of its answer to
/// `GET /admin/log-level` (`None` where the request failed).
pub fn fetch_log_level(body: Option<&str>) -> (res: String)
    ensures
        res@ == log_level_of_response(parsed_body(opt_str_view(body))),
{
    let response = parse_body(body);
    log_level_from_response(&response)
}

// ---- requests ----

/// Whether a write to the API succeeded: it was answered, with status 200.
pub fn request_succeeded(status: Option<i32>) -> (res: bool)
    ensures
        res == (status == Some(200i32)),
{
    match status {
        Some(code) => code == 200,
        None => false,
    }
}

/// The body of `PUT /admin/log-level`.
pub open spec fn log_level_body_spec(level: Seq<char>) -> Seq<char> {
    "{\"level\":"@ + json_quoted(level) + "}"@
}

/// The body of the request that sets the proxy's log level to `level`.
pub fn log_level_body(level: &str) -> (res: String)
    ensures
        res@ == log_level_body_spec(level@),
{
    let mut s = String::from_str("{\"level\":");
    let q = json_quote(level);
    s.append(q.as_str());
    s.append("}");
    s
}

/// One mapping in the body of `PUT /admin/adapters/<name>`; its status is
/// not sent.
pub open spec fn mapping_json(m: AdapterModelV) -> Seq<char> {
    "{\"sourceModelId\":"@ + json_quoted(m.source_model_id) + ",\"provider\":"@ + json_quoted(
        m.provider,
    ) + ",\"targetModelId\":"@ + json_quoted(m.target_model_id) + "}"@
}

/// The mappings in the body of `PUT /admin/adapters/<name>`, separated by
/// commas.
pub open spec fn mappings_json(ms: Seq<AdapterModelV>) -> Seq<char>
    decreases ms.len(),
{
    if ms.len() == 0 {
        Seq::empty()
    } else if ms.len() == 1 {
        mapping_json(ms[0])
    } else {
        mappings_json(ms.drop_last()) + ","@ + mapping_json(ms.last())
    }
}

/// The body of `PUT /admin/adapters/<name>`.
pub open spec fn adapter_body_spec(
    name: Seq<char>,
    adapter_type: Seq<char>,
    models: Seq<AdapterModelV>,
) -> Seq<char> {
    "{\"name\":"@ + json_quoted(name) + ",\"type\":"@ + json_quoted(adapter_type)
        + ",\"models\":["@ + mappings_json(models) + "]}"@
}

/// The body of an adapter update: its name and type, then its mappings as
/// objects of source, provider and target (the status is left out),
/// separated by commas, in order.
pub proof fn lemma_adapter_body_layout(
    name: Seq<char>,
    adapter_type: Seq<char>,
    ms: Seq<AdapterModelV>,
    m: AdapterModelV,
)
    ensures
        adapter_body_spec(name, adapter_type, ms) == "{\"name\":"@ + json_quoted(name) + ",\"type\":"@
            + json_quoted(adapter_type) + ",\"models\":["@ + mappings_json(ms) + "]}"@,
        mappings_json(Seq::empty()) == Seq::<char>::empty(),
        mappings_json(seq![m]) == "{\"sourceModelId\":"@ + json_quoted(m.source_model_id)
            + ",\"provider\":"@ + json_quoted(m.provider) + ",\"targetModelId\":"@ + json_quoted(
            m.target_model_id,
        ) + "}"@,
        ms.len() > 0 ==> mappings_json(ms.push(m)) == mappings_json(ms) + ","@ + mappings_json(seq![m]),
{
    assert(seq![m][0] == m);
    if ms.len() > 0 {
        assert(ms.push(m).drop_last() =~= ms);
    }
}

fn push_mapping(out: &mut String, m: &AdapterModel)
    ensures
        final(out)@ == old(out)@ + mapping_json(m@),
{
    out.append("{\"sourceModelId\":");
    let q = json_quote(m.source_model_id.as_str());
    out.append(q.as_str());
    out.append(",\"provider\":");
    let q = json_quote(m.provider.as_str());
    out.append(q.as_str());
    out.append(",\"targetModelId\":");
    let q = json_quote(m.target_model_id.as_str());
    out.append(q.as_str());
    out.append("}");
    assert(out@ =~= old(out)@ + mapping_json(m@));
}

/// The body of the request that replaces the mappings of the adapter `name`
/// of type `adapter_type` by `models`.
pub fn adapter_update_body(name: &str, adapter_type: &str, models: &Vec<AdapterModel>) -> (res:
    String)
    ensures
        res@ == adapter_body_spec(name@, adapter_type@, adapter_models_view(models@)),
{
    let mut s = String::from_str("{\"name\":");
    let q = json_quote(name);
    s.append(q.as_str());
    s.append(",\"type\":");
    let q = json_quote(adapter_type);
    s.append(q.as_str());
    s.append(",\"models\":[");
    let ghost head = s@;
    let ghost mv = adapter_models_view(models@);
    let mut i: usize = 0;
    while i < models.len()
        invariant
            i <= models.len(),
            mv == adapter_models_view(models@),
            s@ == head + mappings_json(mv.take(i as int)),
        decreases models.len() - i,
    {
        assert(mv.take(i + 1).drop_last() =~= mv.take(i as int));
        assert(mv.take(i + 1).last() == models@[i as int]@);
        if i > 0 {
            s.append(",");
        }
        push_mapping(&mut s, &models[i]);
        proof {
            if i == 0 {
                assert(mv.take(0) =~= Seq::<AdapterModelV>::empty());
                assert(s@ =~= head + mappings_json(mv.take(1)));
            } else {
                assert(s@ =~= head + mappings_json(mv.take(i + 1)));
            }
        }
        i = i + 1;
    }
    assert(mv.take(models.len() as int) =~= mv);
    s.append("]}");
    assert(s@ =~= adapter_body_spec(name@, adapter_type@, mv));
    s
}

} // verus!

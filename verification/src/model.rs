//! The records of the proxy's admin API (adapters, their model mappings,
//! providers and their models) and how they are read from JSON documents.
//!
//! A record is read as serde's derived `Deserialize` reads it from a
//! `serde_json::Value`: from an object, by member name (members of other
//! names are passed over, a missing optional member is `None`, any other
//! missing member fails the record), or from an array holding exactly one
//! element per field, in the order of the fields. A text field takes a
//! string only; an optional text field takes `null` or a string; a list field
//! takes an array whose every element reads as a record.

use vstd::prelude::*;
use crate::json::{Json, JsonV, member, json_seq_view, lemma_json_seq_view, lemma_member_push};
use crate::text::opt_string_view;

verus! {

/// The model of one source model's mapping in an adapter.
pub struct AdapterModelV {
    pub source_model_id: Seq<char>,
    pub provider: Seq<char>,
    pub target_model_id: Seq<char>,
    pub status: Option<Seq<char>>,
}

/// The model of an adapter.
pub struct AdapterV {
    pub name: Seq<char>,
    pub adapter_type: Seq<char>,
    pub base_url: Option<Seq<char>>,
    pub models: Seq<AdapterModelV>,
}

/// The model of a provider's model.
pub struct ProviderModelV {
    pub id: Seq<char>,
}

/// The model of a provider.
pub struct ProviderV {
    pub name: Seq<char>,
    pub provider_type: Seq<char>,
    pub models: Seq<ProviderModelV>,
}

/// Where an adapter sends one source model: members `sourceModelId`,
/// `provider`, `targetModelId` and the optional `status`.
#[derive(Debug)]
pub struct AdapterModel {
    pub source_model_id: String,
    pub provider: String,
    pub target_model_id: String,
    pub status: Option<String>,
}

/// An adapter of the proxy: members `name`, `type`, the optional `baseUrl`
/// and `models`.
#[derive(Debug)]
pub struct Adapter {
    pub name: String,
    pub adapter_type: String,
    pub base_url: Option<String>,
    pub models: Vec<AdapterModel>,
}

/// A model that a provider offers: member `id`.
#[derive(Debug)]
pub struct ProviderModel {
    pub id: String,
}

/// A provider of the proxy: members `name`, `type` and `models`.
#[derive(Debug)]
pub struct Provider {
    pub name: String,
    pub provider_type: String,
    pub models: Vec<ProviderModel>,
}

/// The part of the proxy's configuration that the tray reads.
#[derive(Debug)]
pub struct ConfigData {
    pub providers: Vec<Provider>,
}

impl View for AdapterModel {
    type V = AdapterModelV;

    open spec fn view(&self) -> AdapterModelV {
        AdapterModelV {
            source_model_id: self.source_model_id@,
            provider: self.provider@,
            target_model_id: self.target_model_id@,
            status: opt_string_view(self.status),
        }
    }
}

/// The models of a list of mappings.
pub open spec fn adapter_models_view(s: Seq<AdapterModel>) -> Seq<AdapterModelV> {
    s.map_values(|m: AdapterModel| m@)
}

impl View for Adapter {
    type V = AdapterV;

    open spec fn view(&self) -> AdapterV {
        AdapterV {
            name: self.name@,
            adapter_type: self.adapter_type@,
            base_url: opt_string_view(self.base_url),
            models: adapter_models_view(self.models@),
        }
    }
}

impl View for ProviderModel {
    type V = ProviderModelV;

    open spec fn view(&self) -> ProviderModelV {
        ProviderModelV { id: self.id@ }
    }
}

/// The models of a list of provider models.
pub open spec fn provider_models_view(s: Seq<ProviderModel>) -> Seq<ProviderModelV> {
    s.map_values(|m: ProviderModel| m@)
}

impl View for Provider {
    type V = ProviderV;

    open spec fn view(&self) -> ProviderV {
        ProviderV {
            name: self.name@,
            provider_type: self.provider_type@,
            models: provider_models_view(self.models@),
        }
    }
}

/// The models of a list of adapters.
pub open spec fn adapters_view(s: Seq<Adapter>) -> Seq<AdapterV> {
    s.map_values(|a: Adapter| a@)
}

/// The models of a list of providers.
pub open spec fn providers_view(s: Seq<Provider>) -> Seq<ProviderV> {
    s.map_values(|p: Provider| p@)
}

// ---- reading fields ----

/// A text field read from `j`.
pub open spec fn str_of(j: JsonV) -> Option<Seq<char>> {
    match j {
        JsonV::Str(s) => Some(s),
        _ => None,
    }
}

/// An optional text field read from `j`: `null` is `None`.
pub open spec fn opt_str_of(j: JsonV) -> Option<Option<Seq<char>>> {
    match j {
        JsonV::Null => Some(None),
        JsonV::Str(s) => Some(Some(s)),
        _ => None,
    }
}

/// A required text field read from the member `key` of the object `j`.
pub open spec fn str_member(j: JsonV, key: Seq<char>) -> Option<Seq<char>> {
    match member(j, key) {
        Some(v) => str_of(v),
        None => None,
    }
}

/// An optional text field read from the member `key` of the object `j`: a
/// missing member is `None`.
pub open spec fn opt_str_member(j: JsonV, key: Seq<char>) -> Option<Option<Seq<char>>> {
    match member(j, key) {
        Some(v) => opt_str_of(v),
        None => Some(None),
    }
}

/// Reads a text field.
fn read_str(j: &Json) -> (res: Option<String>)
    ensures
        opt_string_view(res) == str_of(j@),
{
    match j {
        Json::Str(s) => Some(s.clone()),
        _ => None,
    }
}

/// Reads an optional text field.
fn read_opt_str(j: &Json) -> (res: Option<Option<String>>)
    ensures
        match res {
            Some(o) => opt_str_of(j@) == Some(opt_string_view(o)),
            None => opt_str_of(j@) is None,
        },
{
    match j {
        Json::Null => Some(None),
        Json::Str(s) => Some(Some(s.clone())),
        _ => None,
    }
}

/// Reads the required text member `key` of an object.
fn read_str_member(j: &Json, key: &str) -> (res: Option<String>)
    ensures
        opt_string_view(res) == str_member(j@, key@),
{
    match j.member(key) {
        Some(v) => read_str(v),
        None => None,
    }
}

/// Reads the optional text member `key` of an object.
fn read_opt_str_member(j: &Json, key: &str) -> (res: Option<Option<String>>)
    ensures
        match res {
            Some(o) => opt_str_member(j@, key@) == Some(opt_string_view(o)),
            None => opt_str_member(j@, key@) is None,
        },
{
    match j.member(key) {
        Some(v) => read_opt_str(v),
        None => Some(None),
    }
}


// ---- adapter mappings ----

/// A mapping made of its fields, where each was read.
pub open spec fn adapter_model_parts(
    source: Option<Seq<char>>,
    provider: Option<Seq<char>>,
    target: Option<Seq<char>>,
    status: Option<Option<Seq<char>>>,
) -> Option<AdapterModelV> {
    if source is Some && provider is Some && target is Some && status is Some {
        Some(
            AdapterModelV {
                source_model_id: source->0,
                provider: provider->0,
                target_model_id: target->0,
                status: status->0,
            },
        )
    } else {
        None
    }
}

/// The mapping that `j` reads as, if any.
pub open spec fn adapter_model_of(j: JsonV) -> Option<AdapterModelV> {
    match j {
        JsonV::Object(_) => adapter_model_parts(
            str_member(j, "sourceModelId"@),
            str_member(j, "provider"@),
            str_member(j, "targetModelId"@),
            opt_str_member(j, "status"@),
        ),
        JsonV::Array(items) => if items.len() == 4 {
            adapter_model_parts(
                str_of(items[0]),
                str_of(items[1]),
                str_of(items[2]),
                opt_str_of(items[3]),
            )
        } else {
            None
        },
        _ => None,
    }
}

/// The model of an optional mapping.
pub open spec fn opt_adapter_model_view(o: Option<AdapterModel>) -> Option<AdapterModelV> {
    match o {
        Some(m) => Some(m@),
        None => None,
    }
}

/// Reads a mapping from `j`.
pub fn read_adapter_model(j: &Json) -> (res: Option<AdapterModel>)
    ensures
        opt_adapter_model_view(res) == adapter_model_of(j@),
{
    match j {
        Json::Object(_) => {
            let source = read_str_member(j, "sourceModelId");
            let provider = read_str_member(j, "provider");
            let target = read_str_member(j, "targetModelId");
            let status = read_opt_str_member(j, "status");
            match (source, provider, target, status) {
                (Some(source_model_id), Some(provider), Some(target_model_id), Some(status)) => Some(
                    AdapterModel { source_model_id, provider, target_model_id, status },
                ),
                _ => None,
            }
        },
        Json::Array(items) => {
            proof {
                lemma_json_seq_view(items@);
            }
            if items.len() != 4 {
                return None;
            }
            let source = read_str(&items[0]);
            let provider = read_str(&items[1]);
            let target = read_str(&items[2]);
            let status = read_opt_str(&items[3]);
            match (source, provider, target, status) {
                (Some(source_model_id), Some(provider), Some(target_model_id), Some(status)) => Some(
                    AdapterModel { source_model_id, provider, target_model_id, status },
                ),
                _ => None,
            }
        },
        _ => None,
    }
}

/// The list of mappings that `j` reads as: an array whose every element
/// reads as a mapping.
pub open spec fn adapter_models_of(j: JsonV) -> Option<Seq<AdapterModelV>> {
    match j {
        JsonV::Array(items) => if forall|i: int|
            0 <= i < items.len() ==> (#[trigger] adapter_model_of(items[i])) is Some {
            Some(Seq::new(items.len(), |i: int| adapter_model_of(items[i])->0))
        } else {
            None
        },
        _ => None,
    }
}

/// Reads a list of mappings from `j`.
pub fn read_adapter_models(j: &Json) -> (res: Option<Vec<AdapterModel>>)
    ensures
        match res {
            Some(v) => adapter_models_of(j@) == Some(adapter_models_view(v@)),
            None => adapter_models_of(j@) is None,
        },
{
    match j {
        Json::Array(items) => {
            proof {
                lemma_json_seq_view(items@);
            }
            let ghost iv = json_seq_view(items@);
            assert(j@ == JsonV::Array(iv));
            let mut out: Vec<AdapterModel> = Vec::new();
            let mut i: usize = 0;
            while i < items.len()
                invariant
                    iv == json_seq_view(items@),
                    j@ == JsonV::Array(iv),
                    iv.len() == items@.len(),
                    forall|k: int| 0 <= k < items@.len() ==> #[trigger] iv[k] == items@[k]@,
                    i <= items.len(),
                    out@.len() == i,
                    forall|k: int| 0 <= k < i ==> (#[trigger] adapter_model_of(iv[k])) == Some(out@[k]@),
                decreases items.len() - i,
            {
                match read_adapter_model(&items[i]) {
                    Some(m) => {
                        out.push(m);
                    },
                    None => {
                        assert(adapter_model_of(iv[i as int]) is None);
                        return None;
                    },
                }
                i = i + 1;
            }
            assert(adapter_models_view(out@) =~= Seq::new(
                iv.len(),
                |k: int| adapter_model_of(iv[k])->0,
            ));
            Some(out)
        },
        _ => None,
    }
}


// ---- adapters ----

/// The list of mappings read from the member `key` of the object `j`; a
/// missing member fails.
pub open spec fn adapter_models_member(j: JsonV, key: Seq<char>) -> Option<Seq<AdapterModelV>> {
    match member(j, key) {
        Some(v) => adapter_models_of(v),
        None => None,
    }
}

/// An adapter made of its fields, where each was read.
pub open spec fn adapter_parts(
    name: Option<Seq<char>>,
    adapter_type: Option<Seq<char>>,
    base_url: Option<Option<Seq<char>>>,
    models: Option<Seq<AdapterModelV>>,
) -> Option<AdapterV> {
    if name is Some && adapter_type is Some && base_url is Some && models is Some {
        Some(
            AdapterV {
                name: name->0,
                adapter_type: adapter_type->0,
                base_url: base_url->0,
                models: models->0,
            },
        )
    } else {
        None
    }
}

/// The adapter that `j` reads as, if any.
pub open spec fn adapter_of(j: JsonV) -> Option<AdapterV> {
    match j {
        JsonV::Object(_) => adapter_parts(
            str_member(j, "name"@),
            str_member(j, "type"@),
            opt_str_member(j, "baseUrl"@),
            adapter_models_member(j, "models"@),
        ),
        JsonV::Array(items) => if items.len() == 4 {
            adapter_parts(
                str_of(items[0]),
                str_of(items[1]),
                opt_str_of(items[2]),
                adapter_models_of(items[3]),
            )
        } else {
            None
        },
        _ => None,
    }
}

/// The model of an optional adapter.
pub open spec fn opt_adapter_view(o: Option<Adapter>) -> Option<AdapterV> {
    match o {
        Some(a) => Some(a@),
        None => None,
    }
}

fn read_adapter_models_member(j: &Json, key: &str) -> (res: Option<Vec<AdapterModel>>)
    ensures
        match res {
            Some(v) => adapter_models_member(j@, key@) == Some(adapter_models_view(v@)),
            None => adapter_models_member(j@, key@) is None,
        },
{
    match j.member(key) {
        Some(v) => read_adapter_models(v),
        None => None,
    }
}

/// Reads an adapter from `j`.
pub fn read_adapter(j: &Json) -> (res: Option<Adapter>)
    ensures
        opt_adapter_view(res) == adapter_of(j@),
{
    match j {
        Json::Object(_) => {
            let name = read_str_member(j, "name");
            let adapter_type = read_str_member(j, "type");
            let base_url = read_opt_str_member(j, "baseUrl");
            let models = read_adapter_models_member(j, "models");
            match (name, adapter_type, base_url, models) {
                (Some(name), Some(adapter_type), Some(base_url), Some(models)) => Some(
                    Adapter { name, adapter_type, base_url, models },
                ),
                _ => None,
            }
        },
        Json::Array(items) => {
            proof {
                lemma_json_seq_view(items@);
            }
            if items.len() != 4 {
                return None;
            }
            let name = read_str(&items[0]);
            let adapter_type = read_str(&items[1]);
            let base_url = read_opt_str(&items[2]);
            let models = read_adapter_models(&items[3]);
            match (name, adapter_type, base_url, models) {
                (Some(name), Some(adapter_type), Some(base_url), Some(models)) => Some(
                    Adapter { name, adapter_type, base_url, models },
                ),
                _ => None,
            }
        },
        _ => None,
    }
}

/// The adapters among `items`: each element that reads as an adapter, in
/// order; the others are passed over.
pub open spec fn adapters_in(items: Seq<JsonV>) -> Seq<AdapterV>
    decreases items.len(),
{
    if items.len() == 0 {
        Seq::empty()
    } else {
        let rest = adapters_in(items.drop_last());
        match adapter_of(items.last()) {
            Some(a) => rest.push(a),
            None => rest,
        }
    }
}

/// Reads the adapters among `items`.
pub fn read_adapter_list(items: &Vec<Json>) -> (res: Vec<Adapter>)
    ensures
        adapters_view(res@) == adapters_in(json_seq_view(items@)),
{
    proof {
        lemma_json_seq_view(items@);
    }
    let ghost iv = json_seq_view(items@);
    let mut out: Vec<Adapter> = Vec::new();
    let mut i: usize = 0;
    assert(iv.take(0) =~= Seq::<JsonV>::empty());
    while i < items.len()
        invariant
            iv == json_seq_view(items@),
            iv.len() == items@.len(),
            forall|k: int| 0 <= k < items@.len() ==> #[trigger] iv[k] == items@[k]@,
            i <= items.len(),
            adapters_view(out@) == adapters_in(iv.take(i as int)),
        decreases items.len() - i,
    {
        assert(iv.take(i + 1).drop_last() =~= iv.take(i as int));
        assert(iv.take(i + 1).last() == items@[i as int]@);
        match read_adapter(&items[i]) {
            Some(a) => {
                out.push(a);
                assert(adapters_view(out@) =~= adapters_in(iv.take(i as int)).push(a@));
            },
            None => {},
        }
        i = i + 1;
    }
    assert(iv.take(items.len() as int) =~= iv);
    out
}

// ---- providers ----

/// A provider's model made of its field, where it was read.
pub open spec fn provider_model_parts(id: Option<Seq<char>>) -> Option<ProviderModelV> {
    if id is Some {
        Some(ProviderModelV { id: id->0 })
    } else {
        None
    }
}

/// The provider's model that `j` reads as, if any.
pub open spec fn provider_model_of(j: JsonV) -> Option<ProviderModelV> {
    match j {
        JsonV::Object(_) => provider_model_parts(str_member(j, "id"@)),
        JsonV::Array(items) => if items.len() == 1 {
            provider_model_parts(str_of(items[0]))
        } else {
            None
        },
        _ => None,
    }
}

/// The model of an optional provider's model.
pub open spec fn opt_provider_model_view(o: Option<ProviderModel>) -> Option<ProviderModelV> {
    match o {
        Some(m) => Some(m@),
        None => None,
    }
}

/// Reads a provider's model from `j`.
pub fn read_provider_model(j: &Json) -> (res: Option<ProviderModel>)
    ensures
        opt_provider_model_view(res) == provider_model_of(j@),
{
    match j {
        Json::Object(_) => match read_str_member(j, "id") {
            Some(id) => Some(ProviderModel { id }),
            None => None,
        },
        Json::Array(items) => {
            proof {
                lemma_json_seq_view(items@);
            }
            if items.len() != 1 {
                return None;
            }
            match read_str(&items[0]) {
                Some(id) => Some(ProviderModel { id }),
                None => None,
            }
        },
        _ => None,
    }
}

/// The list of provider models that `j` reads as: an array whose every
/// element reads as a provider's model.
pub open spec fn provider_models_of(j: JsonV) -> Option<Seq<ProviderModelV>> {
    match j {
        JsonV::Array(items) => if forall|i: int|
            0 <= i < items.len() ==> (#[trigger] provider_model_of(items[i])) is Some {
            Some(Seq::new(items.len(), |i: int| provider_model_of(items[i])->0))
        } else {
            None
        },
        _ => None,
    }
}

/// Reads a list of provider models from `j`.
pub fn read_provider_models(j: &Json) -> (res: Option<Vec<ProviderModel>>)
    ensures
        match res {
            Some(v) => provider_models_of(j@) == Some(provider_models_view(v@)),
            None => provider_models_of(j@) is None,
        },
{
    match j {
        Json::Array(items) => {
            proof {
                lemma_json_seq_view(items@);
            }
            let ghost iv = json_seq_view(items@);
            assert(j@ == JsonV::Array(iv));
            let mut out: Vec<ProviderModel> = Vec::new();
            let mut i: usize = 0;
            while i < items.len()
                invariant
                    iv == json_seq_view(items@),
                    j@ == JsonV::Array(iv),
                    iv.len() == items@.len(),
                    forall|k: int| 0 <= k < items@.len() ==> #[trigger] iv[k] == items@[k]@,
                    i <= items.len(),
                    out@.len() == i,
                    forall|k: int| 0 <= k < i ==> (#[trigger] provider_model_of(iv[k])) == Some(out@[k]@),
                decreases items.len() - i,
            {
                match read_provider_model(&items[i]) {
                    Some(m) => {
                        out.push(m);
                    },
                    None => {
                        assert(provider_model_of(iv[i as int]) is None);
                        return None;
                    },
                }
                i = i + 1;
            }
            assert(provider_models_view(out@) =~= Seq::new(
                iv.len(),
                |k: int| provider_model_of(iv[k])->0,
            ));
            Some(out)
        },
        _ => None,
    }
}

/// The list of provider models read from the member `key` of the object
/// `j`; a missing member fails.
pub open spec fn provider_models_member(j: JsonV, key: Seq<char>) -> Option<Seq<ProviderModelV>> {
    match member(j, key) {
        Some(v) => provider_models_of(v),
        None => None,
    }
}

fn read_provider_models_member(j: &Json, key: &str) -> (res: Option<Vec<ProviderModel>>)
    ensures
        match res {
            Some(v) => provider_models_member(j@, key@) == Some(provider_models_view(v@)),
            None => provider_models_member(j@, key@) is None,
        },
{
    match j.member(key) {
        Some(v) => read_provider_models(v),
        None => None,
    }
}

/// A provider made of its fields, where each was read.
pub open spec fn provider_parts(
    name: Option<Seq<char>>,
    provider_type: Option<Seq<char>>,
    models: Option<Seq<ProviderModelV>>,
) -> Option<ProviderV> {
    if name is Some && provider_type is Some && models is Some {
        Some(ProviderV { name: name->0, provider_type: provider_type->0, models: models->0 })
    } else {
        None
    }
}

/// The provider that `j` reads as, if any.
pub open spec fn provider_of(j: JsonV) -> Option<ProviderV> {
    match j {
        JsonV::Object(_) => provider_parts(
            str_member(j, "name"@),
            str_member(j, "type"@),
            provider_models_member(j, "models"@),
        ),
        JsonV::Array(items) => if items.len() == 3 {
            provider_parts(str_of(items[0]), str_of(items[1]), provider_models_of(items[2]))
        } else {
            None
        },
        _ => None,
    }
}

/// The model of an optional provider.
pub open spec fn opt_provider_view(o: Option<Provider>) -> Option<ProviderV> {
    match o {
        Some(p) => Some(p@),
        None => None,
    }
}

/// Reads a provider from `j`.
pub fn read_provider(j: &Json) -> (res: Option<Provider>)
    ensures
        opt_provider_view(res) == provider_of(j@),
{
    match j {
        Json::Object(_) => {
            let name = read_str_member(j, "name");
            let provider_type = read_str_member(j, "type");
            let models = read_provider_models_member(j, "models");
            match (name, provider_type, models) {
                (Some(name), Some(provider_type), Some(models)) => Some(
                    Provider { name, provider_type, models },
                ),
                _ => None,
            }
        },
        Json::Array(items) => {
            proof {
                lemma_json_seq_view(items@);
            }
            if items.len() != 3 {
                return None;
            }
            let name = read_str(&items[0]);
            let provider_type = read_str(&items[1]);
            let models = read_provider_models(&items[2]);
            match (name, provider_type, models) {
                (Some(name), Some(provider_type), Some(models)) => Some(
                    Provider { name, provider_type, models },
                ),
                _ => None,
            }
        },
        _ => None,
    }
}

/// The providers among `items`: each element that reads as a provider, in
/// order; the others are passed over.
pub open spec fn providers_in(items: Seq<JsonV>) -> Seq<ProviderV>
    decreases items.len(),
{
    if items.len() == 0 {
        Seq::empty()
    } else {
        let rest = providers_in(items.drop_last());
        match provider_of(items.last()) {
            Some(p) => rest.push(p),
            None => rest,
        }
    }
}

/// Reads the providers among `items`.
pub fn read_provider_list(items: &Vec<Json>) -> (res: Vec<Provider>)
    ensures
        providers_view(res@) == providers_in(json_seq_view(items@)),
{
    proof {
        lemma_json_seq_view(items@);
    }
    let ghost iv = json_seq_view(items@);
    let mut out: Vec<Provider> = Vec::new();
    let mut i: usize = 0;
    assert(iv.take(0) =~= Seq::<JsonV>::empty());
    while i < items.len()
        invariant
            iv == json_seq_view(items@),
            iv.len() == items@.len(),
            forall|k: int| 0 <= k < items@.len() ==> #[trigger] iv[k] == items@[k]@,
            i <= items.len(),
            providers_view(out@) == providers_in(iv.take(i as int)),
        decreases items.len() - i,
    {
        assert(iv.take(i + 1).drop_last() =~= iv.take(i as int));
        assert(iv.take(i + 1).last() == items@[i as int]@);
        match read_provider(&items[i]) {
            Some(p) => {
                out.push(p);
                assert(providers_view(out@) =~= providers_in(iv.take(i as int)).push(p@));
            },
            None => {},
        }
        i = i + 1;
    }
    assert(iv.take(items.len() as int) =~= iv);
    out
}


// ---- laws of reading ----

/// The adapters of two runs of elements, one after the other, are those of
/// the first run followed by those of the second.
pub proof fn lemma_adapters_in_concat(a: Seq<JsonV>, b: Seq<JsonV>)
    ensures
        adapters_in(a + b) == adapters_in(a) + adapters_in(b),
    decreases b.len(),
{
    if b.len() == 0 {
        assert(a + b =~= a);
        assert(adapters_in(a) + adapters_in(b) =~= adapters_in(a));
    } else {
        assert((a + b).drop_last() =~= a + b.drop_last());
        assert((a + b).last() == b.last());
        lemma_adapters_in_concat(a, b.drop_last());
        match adapter_of(b.last()) {
            Some(x) => {
                assert(adapters_in(a) + adapters_in(b.drop_last()).push(x) =~= (adapters_in(a)
                    + adapters_in(b.drop_last())).push(x));
            },
            None => {},
        }
    }
}

/// A single element gives its adapter where it reads as one, and nothing
/// otherwise.
pub proof fn lemma_adapters_in_single(x: JsonV)
    ensures
        forall|a: AdapterV| adapter_of(x) == Some(a) ==> adapters_in(seq![x]) == seq![a],
        adapter_of(x) is None ==> adapters_in(seq![x]) == Seq::<AdapterV>::empty(),
{
    assert(seq![x].drop_last() =~= Seq::<JsonV>::empty());
    assert(seq![x].last() == x);
    assert(adapters_in(Seq::<JsonV>::empty()) =~= Seq::<AdapterV>::empty());
    assert forall|a: AdapterV| adapter_of(x) == Some(a) implies adapters_in(seq![x]) == seq![a] by {
        assert(Seq::<AdapterV>::empty().push(a) =~= seq![a]);
    }
}

/// The providers of two runs of elements, one after the other, are those of
/// the first run followed by those of the second.
pub proof fn lemma_providers_in_concat(a: Seq<JsonV>, b: Seq<JsonV>)
    ensures
        providers_in(a + b) == providers_in(a) + providers_in(b),
    decreases b.len(),
{
    if b.len() == 0 {
        assert(a + b =~= a);
        assert(providers_in(a) + providers_in(b) =~= providers_in(a));
    } else {
        assert((a + b).drop_last() =~= a + b.drop_last());
        assert((a + b).last() == b.last());
        lemma_providers_in_concat(a, b.drop_last());
        match provider_of(b.last()) {
            Some(x) => {
                assert(providers_in(a) + providers_in(b.drop_last()).push(x) =~= (providers_in(a)
                    + providers_in(b.drop_last())).push(x));
            },
            None => {},
        }
    }
}

/// A single element gives its provider where it reads as one, and nothing
/// otherwise.
pub proof fn lemma_providers_in_single(x: JsonV)
    ensures
        forall|p: ProviderV| provider_of(x) == Some(p) ==> providers_in(seq![x]) == seq![p],
        provider_of(x) is None ==> providers_in(seq![x]) == Seq::<ProviderV>::empty(),
{
    assert(seq![x].drop_last() =~= Seq::<JsonV>::empty());
    assert(seq![x].last() == x);
    assert(providers_in(Seq::<JsonV>::empty()) =~= Seq::<ProviderV>::empty());
    assert forall|p: ProviderV| provider_of(x) == Some(p) implies providers_in(seq![x]) == seq![p] by {
        assert(Seq::<ProviderV>::empty().push(p) =~= seq![p]);
    }
}

/// An array of mappings reads as the list of what each element reads as,
/// in order, where every element reads; otherwise it reads as nothing.
pub proof fn lemma_adapter_models_array(items: Seq<JsonV>)
    ensures
        (forall|i: int| 0 <= i < items.len() ==> (#[trigger] adapter_model_of(items[i])) is Some) ==> {
            &&& adapter_models_of(JsonV::Array(items)) is Some
            &&& adapter_models_of(JsonV::Array(items))->0.len() == items.len()
            &&& forall|i: int| 0 <= i < items.len() ==> Some(
                #[trigger] adapter_models_of(JsonV::Array(items))->0[i],
            ) == adapter_model_of(items[i])
        },
        (exists|i: int| 0 <= i < items.len() && (#[trigger] adapter_model_of(items[i])) is None)
            ==> adapter_models_of(JsonV::Array(items)) is None,
{
}

/// An array of provider models reads as the list of what each element reads
/// as, in order, where every element reads; otherwise it reads as nothing.
pub proof fn lemma_provider_models_array(items: Seq<JsonV>)
    ensures
        (forall|i: int| 0 <= i < items.len() ==> (#[trigger] provider_model_of(items[i])) is Some) ==> {
            &&& provider_models_of(JsonV::Array(items)) is Some
            &&& provider_models_of(JsonV::Array(items))->0.len() == items.len()
            &&& forall|i: int| 0 <= i < items.len() ==> Some(
                #[trigger] provider_models_of(JsonV::Array(items))->0[i],
            ) == provider_model_of(items[i])
        },
        (exists|i: int| 0 <= i < items.len() && (#[trigger] provider_model_of(items[i])) is None)
            ==> provider_models_of(JsonV::Array(items)) is None,
{
}

/// An object whose members `sourceModelId`, `provider` and `targetModelId`
/// are strings reads as the mapping of those strings, whatever other members
/// it has; its status is `None` where `status` is missing or `null`, and the
/// string where it is one.
pub proof fn lemma_adapter_model_object(
    j: JsonV,
    source: Seq<char>,
    provider: Seq<char>,
    target: Seq<char>,
)
    requires
        j is Object,
        member(j, "sourceModelId"@) == Some(JsonV::Str(source)),
        member(j, "provider"@) == Some(JsonV::Str(provider)),
        member(j, "targetModelId"@) == Some(JsonV::Str(target)),
    ensures
        (member(j, "status"@) is None || member(j, "status"@) == Some(JsonV::Null)) ==> adapter_model_of(j)
            == Some(AdapterModelV { source_model_id: source, provider, target_model_id: target, status: None }),
        forall|st: Seq<char>|
            member(j, "status"@) == Some(JsonV::Str(st)) ==> adapter_model_of(j) == Some(
                AdapterModelV { source_model_id: source, provider, target_model_id: target, status: Some(st) },
            ),
{
}

/// An object whose members `name` and `type` are strings and whose member
/// `models` reads as a list of mappings reads as that adapter, whatever
/// other members it has; its base URL is `None` where `baseUrl` is missing or
/// `null`, and the string where it is one.
pub proof fn lemma_adapter_object(
    j: JsonV,
    name: Seq<char>,
    adapter_type: Seq<char>,
    models: JsonV,
    ms: Seq<AdapterModelV>,
)
    requires
        j is Object,
        member(j, "name"@) == Some(JsonV::Str(name)),
        member(j, "type"@) == Some(JsonV::Str(adapter_type)),
        member(j, "models"@) == Some(models),
        adapter_models_of(models) == Some(ms),
    ensures
        (member(j, "baseUrl"@) is None || member(j, "baseUrl"@) == Some(JsonV::Null)) ==> adapter_of(j)
            == Some(AdapterV { name, adapter_type, base_url: None, models: ms }),
        forall|u: Seq<char>|
            member(j, "baseUrl"@) == Some(JsonV::Str(u)) ==> adapter_of(j) == Some(
                AdapterV { name, adapter_type, base_url: Some(u), models: ms },
            ),
{
}

/// An object whose member `id` is a string reads as the provider's model of
/// that id, whatever other members it has.
pub proof fn lemma_provider_model_object(j: JsonV, id: Seq<char>)
    requires
        j is Object,
        member(j, "id"@) == Some(JsonV::Str(id)),
    ensures
        provider_model_of(j) == Some(ProviderModelV { id }),
{
}

/// An object whose members `name` and `type` are strings and whose member
/// `models` reads as a list of provider models reads as that provider,
/// whatever other members it has.
pub proof fn lemma_provider_object(
    j: JsonV,
    name: Seq<char>,
    provider_type: Seq<char>,
    models: JsonV,
    ms: Seq<ProviderModelV>,
)
    requires
        j is Object,
        member(j, "name"@) == Some(JsonV::Str(name)),
        member(j, "type"@) == Some(JsonV::Str(provider_type)),
        member(j, "models"@) == Some(models),
        provider_models_of(models) == Some(ms),
    ensures
        provider_of(j) == Some(ProviderV { name, provider_type, models: ms }),
{
}

/// Records may also come as arrays holding one element per field, in the
/// order of the fields: `[sourceModelId, provider, targetModelId, status]`,
/// `[name, type, baseUrl, models]`, `[id]` and `[name, type, models]`. An
/// array of any other length, and any document that is neither an object nor
/// an array, reads as no record.
pub proof fn lemma_array_records(
    s0: Seq<char>,
    s1: Seq<char>,
    s2: Seq<char>,
    x: JsonV,
    ms: Seq<AdapterModelV>,
    ps: Seq<ProviderModelV>,
    items: Seq<JsonV>,
    j: JsonV,
)
    ensures
        adapter_model_of(JsonV::Array(seq![JsonV::Str(s0), JsonV::Str(s1), JsonV::Str(s2), JsonV::Null]))
            == Some(AdapterModelV { source_model_id: s0, provider: s1, target_model_id: s2, status: None }),
        adapter_model_of(JsonV::Array(seq![JsonV::Str(s0), JsonV::Str(s1), JsonV::Str(s2), JsonV::Str(s0)]))
            == Some(AdapterModelV { source_model_id: s0, provider: s1, target_model_id: s2, status: Some(s0) }),
        adapter_models_of(x) == Some(ms) ==> adapter_of(JsonV::Array(seq![JsonV::Str(s0), JsonV::Str(s1), JsonV::Null, x]))
            == Some(AdapterV { name: s0, adapter_type: s1, base_url: None, models: ms }),
        provider_model_of(JsonV::Array(seq![JsonV::Str(s0)])) == Some(ProviderModelV { id: s0 }),
        provider_models_of(x) == Some(ps) ==> provider_of(JsonV::Array(seq![JsonV::Str(s0), JsonV::Str(s1), x]))
            == Some(ProviderV { name: s0, provider_type: s1, models: ps }),
        items.len() != 4 ==> adapter_model_of(JsonV::Array(items)) is None && adapter_of(JsonV::Array(items)) is None,
        items.len() != 1 ==> provider_model_of(JsonV::Array(items)) is None,
        items.len() != 3 ==> provider_of(JsonV::Array(items)) is None,
        !(j is Object) && !(j is Array) ==> adapter_model_of(j) is None && adapter_of(j) is None
            && provider_model_of(j) is None && provider_of(j) is None,
{
}

/// A member whose name the records do not use changes nothing in how an
/// object reads as a mapping, an adapter, a provider's model or a provider.
pub proof fn lemma_other_members_ignored(fields: Seq<(Seq<char>, JsonV)>, k: Seq<char>, v: JsonV)
    requires
        k != "sourceModelId"@,
        k != "provider"@,
        k != "targetModelId"@,
        k != "status"@,
        k != "name"@,
        k != "type"@,
        k != "baseUrl"@,
        k != "models"@,
        k != "id"@,
    ensures
        adapter_model_of(JsonV::Object(fields.push((k, v)))) == adapter_model_of(JsonV::Object(fields)),
        adapter_of(JsonV::Object(fields.push((k, v)))) == adapter_of(JsonV::Object(fields)),
        provider_model_of(JsonV::Object(fields.push((k, v)))) == provider_model_of(JsonV::Object(fields)),
        provider_of(JsonV::Object(fields.push((k, v)))) == provider_of(JsonV::Object(fields)),
{
    lemma_member_push(fields, k, v, "sourceModelId"@);
    lemma_member_push(fields, k, v, "provider"@);
    lemma_member_push(fields, k, v, "targetModelId"@);
    lemma_member_push(fields, k, v, "status"@);
    lemma_member_push(fields, k, v, "name"@);
    lemma_member_push(fields, k, v, "type"@);
    lemma_member_push(fields, k, v, "baseUrl"@);
    lemma_member_push(fields, k, v, "models"@);
    lemma_member_push(fields, k, v, "id"@);
}

} // verus!

//! Provider records and the provider-side rules the sync engine
//! needs: settings validation, model-key normalization for the first
//! client, authentication-type detection for the third, credential
//! extraction, and custom-endpoint bookkeeping. Live-file writes and
//! usage queries are the surrounding application's work.

use vstd::prelude::*;

use crate::app_config::{opt_view, AppType};
use crate::errors::AppError;
use crate::model::{eview, jview, obj_get, obj_remove, obj_set, JsonVal, JVal};
use crate::settings::{CustomEndpoint, SettingsStore};
use crate::strutil;
use crate::validation::nonblank;

verus! {

/// A usage-query script attached to a provider.
pub struct UsageScript {
    pub code: String,
    pub auto_query_interval: Option<u64>,
}

/// Provider metadata beyond the settings snapshot.
pub struct ProviderMeta {
    pub custom_endpoints: Vec<(String, CustomEndpoint)>,
    pub partner_promotion_key: Option<String>,
    pub usage_script: Option<UsageScript>,
}

/// One configured provider for one client.
pub struct Provider {
    pub id: String,
    pub name: String,
    pub settings_config: JsonVal,
    pub website_url: Option<String>,
    pub category: Option<String>,
    pub created_at: Option<i64>,
    pub sort_index: Option<u64>,
    pub notes: Option<String>,
    pub icon: Option<String>,
    pub icon_color: Option<String>,
    pub meta: Option<ProviderMeta>,
}

impl Provider {
    /// A provider with just an id, a name, a settings snapshot and
    /// optional metadata.
    pub fn with_id(id: String, name: String, settings_config: JsonVal, meta: Option<ProviderMeta>)
        -> (r: Provider)
        ensures
            r.id@ == id@,
            r.name@ == name@,
            r.settings_config@ == settings_config@,
            r.category is None && r.created_at is None && r.sort_index is None,
    {
        Provider {
            id,
            name,
            settings_config,
            website_url: None,
            category: None,
            created_at: None,
            sort_index: None,
            notes: None,
            icon: None,
            icon_color: None,
            meta,
        }
    }
}

/// The providers of one client and which of them is current.
pub struct ProviderManager {
    pub providers: Vec<Provider>,
    pub current: String,
}

impl ProviderManager {
    pub open spec fn wf(self) -> bool {
        forall|i: int, j: int|
            0 <= i < j < self.providers@.len() ==> (#[trigger] self.providers@[i]).id@ != (
            #[trigger] self.providers@[j]).id@
    }

    pub open spec fn has(self, id: Seq<char>) -> bool {
        exists|i: int| 0 <= i < self.providers@.len() && (#[trigger] self.providers@[i]).id@ == id
    }

    /// An empty manager with no current provider.
    pub fn new() -> (r: ProviderManager)
        ensures
            r.wf(),
            r.providers@.len() == 0,
            r.current@ == Seq::<char>::empty(),
    {
        ProviderManager { providers: Vec::new(), current: String::new() }
    }

    /// Position of the first provider with this id.
    pub fn find(&self, id: &str) -> (r: Option<usize>)
        ensures
            match r {
                Some(i) => i < self.providers@.len() && self.providers@[i as int].id@ == id@ && (
                forall|j: int| 0 <= j < i ==> (#[trigger] self.providers@[j]).id@ != id@),
                None => !self.has(id@),
            },
    {
        let mut i: usize = 0;
        while i < self.providers.len()
            invariant
                i <= self.providers@.len(),
                forall|j: int| 0 <= j < i ==> (#[trigger] self.providers@[j]).id@ != id@,
            decreases self.providers@.len() - i,
        {
            if strutil::str_eq(self.providers[i].id.as_str(), id) {
                return Some(i);
            }
            i = i + 1;
        }
        None
    }
}

/// Index of the first provider with this id, or -1.
pub open spec fn mgr_idx(ps: Seq<Provider>, id: Seq<char>) -> int
    decreases ps.len(),
{
    if ps.len() == 0 {
        -1
    } else if ps[0].id@ == id {
        0
    } else {
        let r = mgr_idx(ps.drop_first(), id);
        if r < 0 {
            -1
        } else {
            r + 1
        }
    }
}

pub proof fn lemma_mgr_idx_first(ps: Seq<Provider>, id: Seq<char>, i: int)
    requires
        0 <= i < ps.len(),
        ps[i].id@ == id,
        forall|j: int| 0 <= j < i ==> (#[trigger] ps[j]).id@ != id,
    ensures
        mgr_idx(ps, id) == i,
    decreases ps.len(),
{
    if i > 0 {
        assert(ps.drop_first()[i - 1] == ps[i]);
        assert forall|j: int| 0 <= j < i - 1 implies (#[trigger] ps.drop_first()[j]).id@ != id by {
            assert(ps.drop_first()[j] == ps[j + 1]);
        }
        lemma_mgr_idx_first(ps.drop_first(), id, i - 1);
    }
}

/// The endpoint pairs a provider stores (none without metadata).
pub open spec fn endpoints_of(p: Provider) -> Seq<(String, CustomEndpoint)> {
    match p.meta {
        Some(m) => m.custom_endpoints@,
        None => Seq::empty(),
    }
}

/// Two endpoint records carrying the same data.
pub open spec fn same_endpoint(a: CustomEndpoint, b: CustomEndpoint) -> bool {
    a.url@ == b.url@ && a.added_at == b.added_at && a.last_used == b.last_used
}

/// Whether a record carries the data of some stored endpoint.
pub open spec fn from_eps(e: CustomEndpoint, eps: Seq<(String, CustomEndpoint)>) -> bool {
    exists|j: int| 0 <= j < eps.len() && same_endpoint(e, (#[trigger] eps[j]).1)
}

/// Whether some element of the list carries this record's data.
pub open spec fn appears(e: CustomEndpoint, xs: Seq<CustomEndpoint>) -> bool {
    exists|k: int| 0 <= k < xs.len() && same_endpoint(#[trigger] xs[k], e)
}

/// Index of the first endpoint stored under this key, or -1.
pub open spec fn ep_idx(eps: Seq<(String, CustomEndpoint)>, key: Seq<char>) -> int
    decreases eps.len(),
{
    if eps.len() == 0 {
        -1
    } else if eps[0].0@ == key {
        0
    } else {
        let r = ep_idx(eps.drop_first(), key);
        if r < 0 {
            -1
        } else {
            r + 1
        }
    }
}

pub open spec fn ep_has(eps: Seq<(String, CustomEndpoint)>, key: Seq<char>) -> bool {
    ep_idx(eps, key) >= 0
}

pub proof fn lemma_ep_idx_first(eps: Seq<(String, CustomEndpoint)>, key: Seq<char>, i: int)
    requires
        0 <= i < eps.len(),
        eps[i].0@ == key,
        forall|j: int| 0 <= j < i ==> (#[trigger] eps[j]).0@ != key,
    ensures
        ep_idx(eps, key) == i,
    decreases eps.len(),
{
    if i > 0 {
        assert(eps.drop_first()[i - 1] == eps[i]);
        assert forall|j: int| 0 <= j < i - 1 implies (#[trigger] eps.drop_first()[j]).0@ != key by {
            assert(eps.drop_first()[j] == eps[j + 1]);
        }
        lemma_ep_idx_first(eps.drop_first(), key, i - 1);
    }
}

pub proof fn lemma_ep_idx_range(eps: Seq<(String, CustomEndpoint)>, key: Seq<char>)
    ensures
        ep_has(eps, key) ==> 0 <= ep_idx(eps, key) < eps.len() && eps[ep_idx(eps, key)].0@ == key,
        !ep_has(eps, key) ==> forall|i: int|
            0 <= i < eps.len() ==> (#[trigger] eps[i]).0@ != key,
    decreases eps.len(),
{
    if eps.len() > 0 && eps[0].0@ != key {
        lemma_ep_idx_range(eps.drop_first(), key);
        if !ep_has(eps, key) {
            assert forall|i: int| 0 <= i < eps.len() implies (#[trigger] eps[i]).0@ != key by {
                if i > 0 {
                    assert(eps.drop_first()[i - 1] == eps[i]);
                }
            }
        }
    }
}

/// Everything two provider records share apart from their metadata
/// and sort position.
pub open spec fn same_core(a: Provider, b: Provider) -> bool {
    &&& a.id == b.id
    &&& a.name == b.name
    &&& a.settings_config == b.settings_config
    &&& a.website_url == b.website_url
    &&& a.category == b.category
    &&& a.created_at == b.created_at
    &&& a.notes == b.notes
    &&& a.icon == b.icon
    &&& a.icon_color == b.icon_color
}

/// Equal apart from the metadata.
pub open spec fn same_but_meta(a: Provider, b: Provider) -> bool {
    same_core(a, b) && a.sort_index == b.sort_index
}

/// Equal apart from the sort position.
pub open spec fn same_but_sort(a: Provider, b: Provider) -> bool {
    same_core(a, b) && a.meta == b.meta
}

/// A requested ordering change for one provider.
pub struct ProviderSortUpdate {
    pub id: String,
    pub sort_index: u64,
}

/// The position the update list assigns to an id, when it names it:
/// the last update of the id wins.
pub open spec fn last_sort_for(us: Seq<ProviderSortUpdate>, id: Seq<char>) -> Option<u64>
    decreases us.len(),
{
    if us.len() == 0 {
        None
    } else if us.last().id@ == id {
        Some(us.last().sort_index)
    } else {
        last_sort_for(us.drop_last(), id)
    }
}

/// How a third-client provider authenticates.
#[derive(Debug, Clone, Copy, PartialEq, Eq, Structural)]
pub enum GeminiAuthType {
    Packycode,
    GoogleOfficial,
    Generic,
}

pub struct GeminiAuthDetector;

/// Whether the text mentions one of the partner keywords, in any
/// ASCII case.
pub open spec fn has_packycode_keyword(s: Seq<char>) -> bool {
    let l = strutil::lower_spec(s);
    strutil::contains_spec(l, "packycode"@) || strutil::contains_spec(l, "packyapi"@)
        || strutil::contains_spec(l, "packy"@)
}

/// Where the detector looks for the partner keyword.
pub open spec fn packycode_somewhere(p: Provider) -> bool {
    ||| has_packycode_keyword(p.name@)
    ||| (match opt_site(p) {
        Some(site) => has_packycode_keyword(site),
        None => false,
    })
    ||| (match base_url_of(p) {
        Some(b) => has_packycode_keyword(b),
        None => false,
    })
}

pub open spec fn opt_site(p: Provider) -> Option<Seq<char>> {
    opt_view(p.website_url)
}

/// The configured base URL, when the settings carry one under
/// `env.GOOGLE_GEMINI_BASE_URL` as a string.
pub open spec fn base_url_of(p: Provider) -> Option<Seq<char>> {
    match jview(p.settings_config).get("env"@) {
        Some(JVal::Obj(env)) => match crate::model::vobj_get(env, "GOOGLE_GEMINI_BASE_URL"@) {
            Some(JVal::Str(s)) => Some(s),
            _ => None,
        },
        _ => None,
    }
}

pub open spec fn partner_key_of(p: Provider) -> Option<Seq<char>> {
    match p.meta {
        Some(m) => match m.partner_promotion_key {
            Some(k) => Some(k@),
            None => None,
        },
        None => None,
    }
}

/// Whether the provider is the official one: partner key, or a name
/// that is `google` or starts with `google `.
pub open spec fn google_official_spec(p: Provider) -> bool {
    ||| partner_key_of(p) is Some && strutil::lower_spec(partner_key_of(p)->Some_0)
        == "google-official"@
    ||| strutil::lower_spec(p.name@) == "google"@
    ||| strutil::starts_with_spec(strutil::lower_spec(p.name@), "google "@)
}

pub open spec fn packycode_spec(p: Provider) -> bool {
    ||| partner_key_of(p) is Some && strutil::lower_spec(partner_key_of(p)->Some_0) == "packycode"@
    ||| packycode_somewhere(p)
}

/// What the detector answers: the partner key decides first, then the
/// official name shapes, then the keyword scan.
pub open spec fn detect_spec(p: Provider) -> GeminiAuthType {
    if partner_key_of(p) is Some && strutil::lower_spec(partner_key_of(p)->Some_0)
        == "google-official"@ {
        GeminiAuthType::GoogleOfficial
    } else if partner_key_of(p) is Some && strutil::lower_spec(partner_key_of(p)->Some_0)
        == "packycode"@ {
        GeminiAuthType::Packycode
    } else if strutil::lower_spec(p.name@) == "google"@ || strutil::starts_with_spec(
        strutil::lower_spec(p.name@),
        "google "@,
    ) {
        GeminiAuthType::GoogleOfficial
    } else if packycode_somewhere(p) {
        GeminiAuthType::Packycode
    } else {
        GeminiAuthType::Generic
    }
}

fn keyword_scan(text: &str) -> (r: bool)
    ensures
        r == has_packycode_keyword(text@),
{
    let cs = strutil::str_chars(text);
    let lowered = strutil::lower_chars(&cs);
    let k1 = strutil::str_chars("packycode");
    let k2 = strutil::str_chars("packyapi");
    let k3 = strutil::str_chars("packy");
    strutil::chars_contain(&lowered, &k1) || strutil::chars_contain(&lowered, &k2)
        || strutil::chars_contain(&lowered, &k3)
}

fn base_url_read(p: &Provider) -> (r: Option<String>)
    ensures
        match r {
            Some(s) => base_url_of(*p) == Some(s@),
            None => base_url_of(*p) is None,
        },
{
    match &p.settings_config {
        JsonVal::Obj(entries) => {
            proof {
                crate::model::lemma_obj_entries(*entries);
            }
            match obj_get(entries, "env") {
                Some(JsonVal::Obj(env)) => {
                    proof {
                        crate::model::lemma_obj_entries(*env);
                    }
                    match obj_get(env, "GOOGLE_GEMINI_BASE_URL") {
                        Some(JsonVal::Str(s)) => Some(s.clone()),
                        _ => None,
                    }
                },
                _ => None,
            }
        },
        _ => None,
    }
}

impl GeminiAuthDetector {
    /// Classify a third-client provider by its partner key, name,
    /// site and configured base URL.
    pub fn detect_gemini_auth_type(provider: &Provider) -> (r: GeminiAuthType)
        ensures
            r == detect_spec(*provider),
    {
        if let Some(meta) = &provider.meta {
            if let Some(key) = &meta.partner_promotion_key {
                let kc = strutil::str_chars(key.as_str());
                let lowered = strutil::lower_chars(&kc);
                let official = strutil::str_chars("google-official");
                let packy = strutil::str_chars("packycode");
                if strutil::chars_eq(&lowered, &official) {
                    return GeminiAuthType::GoogleOfficial;
                }
                if strutil::chars_eq(&lowered, &packy) {
                    return GeminiAuthType::Packycode;
                }
            }
        }
        let nc = strutil::str_chars(provider.name.as_str());
        let name_lower = strutil::lower_chars(&nc);
        let google = strutil::str_chars("google");
        let google_sp = strutil::str_chars("google ");
        if strutil::chars_eq(&name_lower, &google) || strutil::chars_start_with(
            &name_lower,
            &google_sp,
        ) {
            return GeminiAuthType::GoogleOfficial;
        }
        if Self::contains_packycode_keyword(provider.name.as_str()) {
            return GeminiAuthType::Packycode;
        }
        if let Some(site) = &provider.website_url {
            if Self::contains_packycode_keyword(site.as_str()) {
                return GeminiAuthType::Packycode;
            }
        }
        if let Some(base) = base_url_read(provider) {
            if Self::contains_packycode_keyword(base.as_str()) {
                return GeminiAuthType::Packycode;
            }
        }
        GeminiAuthType::Generic
    }

    /// Whether a text mentions one of the partner keywords.
    pub fn contains_packycode_keyword(value: &str) -> (r: bool)
        ensures
            r == has_packycode_keyword(value@),
    {
        keyword_scan(value)
    }

    /// Whether the provider is the partner one.
    pub fn is_packycode_gemini(provider: &Provider) -> (r: bool)
        ensures
            r == packycode_spec(*provider),
    {
        if let Some(meta) = &provider.meta {
            if let Some(key) = &meta.partner_promotion_key {
                let kc = strutil::str_chars(key.as_str());
                let lowered = strutil::lower_chars(&kc);
                let packy = strutil::str_chars("packycode");
                if strutil::chars_eq(&lowered, &packy) {
                    return true;
                }
            }
        }
        if Self::contains_packycode_keyword(provider.name.as_str()) {
            return true;
        }
        if let Some(site) = &provider.website_url {
            if Self::contains_packycode_keyword(site.as_str()) {
                return true;
            }
        }
        if let Some(base) = base_url_read(provider) {
            if Self::contains_packycode_keyword(base.as_str()) {
                return true;
            }
        }
        false
    }

    /// Whether the provider is the official one.
    pub fn is_google_official_gemini(provider: &Provider) -> (r: bool)
        ensures
            r == google_official_spec(*provider),
    {
        if let Some(meta) = &provider.meta {
            if let Some(key) = &meta.partner_promotion_key {
                let kc = strutil::str_chars(key.as_str());
                let lowered = strutil::lower_chars(&kc);
                let official = strutil::str_chars("google-official");
                if strutil::chars_eq(&lowered, &official) {
                    return true;
                }
            }
        }
        let nc = strutil::str_chars(provider.name.as_str());
        let name_lower = strutil::lower_chars(&nc);
        let google = strutil::str_chars("google");
        let google_sp = strutil::str_chars("google ");
        strutil::chars_eq(&name_lower, &google) || strutil::chars_start_with(
            &name_lower,
            &google_sp,
        )
    }

    /// For the partner provider, make sure the selected security auth
    /// type is the API-key one; report whether settings changed. The
    /// surrounding application persists the settings and the partner
    /// live file when this reports a change.
    pub fn ensure_packycode_security_flag(provider: &Provider, settings: &mut SettingsStore) -> (r:
        bool)
        ensures
            packycode_spec(*provider) ==> final(settings).current.spec_selected_auth() == Some(
                "gemini-api-key"@,
            ),
            !packycode_spec(*provider) ==> *final(settings) == *old(settings) && !r,
    {
        if !Self::is_packycode_gemini(provider) {
            return false;
        }
        settings.ensure_security_auth_selected_type("gemini-api-key")
    }

    /// For the official provider, make sure the selected security
    /// auth type is the personal OAuth one; report whether settings
    /// changed.
    pub fn ensure_google_oauth_security_flag(provider: &Provider, settings: &mut SettingsStore)
        -> (r: bool)
        ensures
            google_official_spec(*provider) ==> final(settings).current.spec_selected_auth()
                == Some("oauth-personal"@),
            !google_official_spec(*provider) ==> *final(settings) == *old(settings) && !r,
    {
        if !Self::is_google_official_gemini(provider) {
            return false;
        }
        settings.ensure_security_auth_selected_type("oauth-personal")
    }
}

pub struct ClientAModelNormalizer;

/// The env object after normalization: the current default-model keys
/// are filled from the old keys when absent, and the legacy
/// small-fast key is dropped.
pub open spec fn norm_env_spec(env: Seq<(Seq<char>, JVal)>) -> Seq<(Seq<char>, JVal)> {
    let model = str_val(env, "ANTHROPIC_MODEL"@);
    let small = str_val(env, "ANTHROPIC_SMALL_FAST_MODEL"@);
    let th = or_else(or_else(str_val(env, "ANTHROPIC_DEFAULT_HAIKU_MODEL"@), small), model);
    let ts = or_else(or_else(str_val(env, "ANTHROPIC_DEFAULT_SONNET_MODEL"@), model), small);
    let to = or_else(or_else(str_val(env, "ANTHROPIC_DEFAULT_OPUS_MODEL"@), model), small);
    let e1 = fill(env, "ANTHROPIC_DEFAULT_HAIKU_MODEL"@, th);
    let e2 = fill(e1, "ANTHROPIC_DEFAULT_SONNET_MODEL"@, ts);
    let e3 = fill(e2, "ANTHROPIC_DEFAULT_OPUS_MODEL"@, to);
    crate::model::vobj_remove(e3, "ANTHROPIC_SMALL_FAST_MODEL"@)
}

pub open spec fn str_val(env: Seq<(Seq<char>, JVal)>, key: Seq<char>) -> Option<Seq<char>> {
    match crate::model::vobj_get(env, key) {
        Some(JVal::Str(s)) => Some(s),
        _ => None,
    }
}

pub open spec fn or_else(a: Option<Seq<char>>, b: Option<Seq<char>>) -> Option<Seq<char>> {
    match a {
        Some(v) => Some(v),
        None => b,
    }
}

/// Insert the target under the key only when the key is absent and a
/// target exists.
pub open spec fn fill(env: Seq<(Seq<char>, JVal)>, key: Seq<char>, target: Option<Seq<char>>)
    -> Seq<(Seq<char>, JVal)> {
    if !crate::model::vobj_has(env, key) && target is Some {
        crate::model::vobj_set(env, key, JVal::Str(target->Some_0))
    } else {
        env
    }
}

/// Whether normalization changes anything.
pub open spec fn norm_changes(env: Seq<(Seq<char>, JVal)>) -> bool {
    ||| !crate::model::vobj_has(env, "ANTHROPIC_DEFAULT_HAIKU_MODEL"@) && or_else(
        or_else(
            str_val(env, "ANTHROPIC_DEFAULT_HAIKU_MODEL"@),
            str_val(env, "ANTHROPIC_SMALL_FAST_MODEL"@),
        ),
        str_val(env, "ANTHROPIC_MODEL"@),
    ) is Some
    ||| !crate::model::vobj_has(env, "ANTHROPIC_DEFAULT_SONNET_MODEL"@) && or_else(
        or_else(
            str_val(env, "ANTHROPIC_DEFAULT_SONNET_MODEL"@),
            str_val(env, "ANTHROPIC_MODEL"@),
        ),
        str_val(env, "ANTHROPIC_SMALL_FAST_MODEL"@),
    ) is Some
    ||| !crate::model::vobj_has(env, "ANTHROPIC_DEFAULT_OPUS_MODEL"@) && or_else(
        or_else(str_val(env, "ANTHROPIC_DEFAULT_OPUS_MODEL"@), str_val(env, "ANTHROPIC_MODEL"@)),
        str_val(env, "ANTHROPIC_SMALL_FAST_MODEL"@),
    ) is Some
    ||| crate::model::vobj_has(env, "ANTHROPIC_SMALL_FAST_MODEL"@)
}

fn read_str(env: &Vec<(String, JsonVal)>, key: &str) -> (r: Option<String>)
    ensures
        match r {
            Some(s) => str_val(eview(env@), key@) == Some(s@),
            None => str_val(eview(env@), key@) is None,
        },
{
    match obj_get(env, key) {
        Some(JsonVal::Str(s)) => Some(s.clone()),
        _ => None,
    }
}

fn has_key(env: &Vec<(String, JsonVal)>, key: &str) -> (r: bool)
    ensures
        r == crate::model::vobj_has(eview(env@), key@),
{
    proof {
        crate::model::lemma_vobj_idx_range(eview(env@), key@);
    }
    let mut i: usize = 0;
    while i < env.len()
        invariant
            i <= env@.len(),
            forall|j: int| 0 <= j < i ==> (#[trigger] env@[j]).0@ != key@,
        decreases env@.len() - i,
    {
        if strutil::str_eq(env[i].0.as_str(), key) {
            proof {
                crate::model::lemma_vobj_idx_first(eview(env@), key@, i as int);
            }
            return true;
        }
        i = i + 1;
    }
    proof {
        if crate::model::vobj_has(eview(env@), key@) {
            let k = crate::model::vobj_idx(eview(env@), key@);
            assert(eview(env@)[k].0 == env@[k].0@);
        }
    }
    false
}

fn or_else_exec(a: Option<String>, b: Option<String>) -> (r: Option<String>)
    ensures
        opt_view(r) == or_else(opt_view(a), opt_view(b)),
{
    match a {
        Some(v) => Some(v),
        None => b,
    }
}

fn fill_exec(env: &mut Vec<(String, JsonVal)>, key: &str, target: &Option<String>)
    ensures
        eview(final(env)@) == fill(eview(old(env)@), key@, opt_view(*target)),
{
    let present = has_key(env, key);
    if !present {
        if let Some(t) = target {
            let key_owned = strutil::chars_string(&strutil::str_chars(key));
            proof {
                assert(key_owned@ == key@);
            }
            obj_set(env, key_owned, JsonVal::Str(t.clone()));
            return ;
        }
    }
}

impl ClientAModelNormalizer {
    /// Rewrite the legacy model keys inside `env` to the current
    /// per-tier default keys, dropping the legacy small-fast key;
    /// report whether the value changed. A settings value without an
    /// `env` object is left alone.
    pub fn normalize_client_a_models_in_value(settings: &mut JsonVal) -> (changed: bool)
        ensures
            ({
                let v0 = jview(*old(settings));
                match v0.get("env"@) {
                    Some(JVal::Obj(env)) => {
                        &&& jview(*final(settings)) == JVal::Obj(
                            crate::model::vobj_set(
                                v0.entries(),
                                "env"@,
                                JVal::Obj(norm_env_spec(env)),
                            ),
                        )
                        &&& changed == norm_changes(env)
                    },
                    _ => *final(settings) == *old(settings) && !changed,
                }
            }),
    {
        let env_entries: Vec<(String, JsonVal)> = match settings {
            JsonVal::Obj(entries) => {
                proof {
                    crate::model::lemma_obj_entries(*entries);
                }
                match obj_get(entries, "env") {
                    Some(JsonVal::Obj(env)) => {
                        proof {
                            crate::model::lemma_obj_entries(*env);
                        }
                        crate::model::clone_entries(env)
                    },
                    _ => {
                        return false;
                    },
                }
            },
            _ => {
                return false;
            },
        };
        let ghost env0 = eview(env_entries@);
        let mut env = env_entries;
        let model = read_str(&env, "ANTHROPIC_MODEL");
        let small = read_str(&env, "ANTHROPIC_SMALL_FAST_MODEL");
        let cur_h = read_str(&env, "ANTHROPIC_DEFAULT_HAIKU_MODEL");
        let cur_s = read_str(&env, "ANTHROPIC_DEFAULT_SONNET_MODEL");
        let cur_o = read_str(&env, "ANTHROPIC_DEFAULT_OPUS_MODEL");
        let th = or_else_exec(cur_h, or_else_exec(clone_opt(&small), clone_opt(&model)));
        let ts = or_else_exec(cur_s, or_else_exec(clone_opt(&model), clone_opt(&small)));
        let to = or_else_exec(cur_o, or_else_exec(clone_opt(&model), clone_opt(&small)));
        let mut changed = false;
        let had_h = has_key(&env, "ANTHROPIC_DEFAULT_HAIKU_MODEL");
        let had_s_key = has_key(&env, "ANTHROPIC_DEFAULT_SONNET_MODEL");
        let had_o = has_key(&env, "ANTHROPIC_DEFAULT_OPUS_MODEL");
        let had_small = has_key(&env, "ANTHROPIC_SMALL_FAST_MODEL");
        if !had_h && th.is_some() {
            changed = true;
        }
        if !had_s_key && ts.is_some() {
            changed = true;
        }
        if !had_o && to.is_some() {
            changed = true;
        }
        if had_small {
            changed = true;
        }
        fill_exec(&mut env, "ANTHROPIC_DEFAULT_HAIKU_MODEL", &th);
        fill_exec(&mut env, "ANTHROPIC_DEFAULT_SONNET_MODEL", &ts);
        fill_exec(&mut env, "ANTHROPIC_DEFAULT_OPUS_MODEL", &to);
        obj_remove(&mut env, "ANTHROPIC_SMALL_FAST_MODEL");
        proof {
            distinct_model_keys();
            assert(eview(env@) == norm_env_spec(env0)) by {
                distinct_model_keys();
                assert(or_else(or_else(str_val(env0, "ANTHROPIC_DEFAULT_HAIKU_MODEL"@), str_val(env0, "ANTHROPIC_SMALL_FAST_MODEL"@)), str_val(env0, "ANTHROPIC_MODEL"@)) == opt_view(th));
                lemma_fill_reads(env0, "ANTHROPIC_DEFAULT_HAIKU_MODEL"@, opt_view(th), "ANTHROPIC_DEFAULT_SONNET_MODEL"@);
                lemma_fill_reads(env0, "ANTHROPIC_DEFAULT_HAIKU_MODEL"@, opt_view(th), "ANTHROPIC_MODEL"@);
                lemma_fill_reads(env0, "ANTHROPIC_DEFAULT_HAIKU_MODEL"@, opt_view(th), "ANTHROPIC_SMALL_FAST_MODEL"@);
                lemma_fill_reads(env0, "ANTHROPIC_DEFAULT_HAIKU_MODEL"@, opt_view(th), "ANTHROPIC_DEFAULT_OPUS_MODEL"@);
                lemma_fill_reads(fill(env0, "ANTHROPIC_DEFAULT_HAIKU_MODEL"@, opt_view(th)), "ANTHROPIC_DEFAULT_SONNET_MODEL"@, opt_view(ts), "ANTHROPIC_DEFAULT_OPUS_MODEL"@);
                lemma_fill_reads(fill(env0, "ANTHROPIC_DEFAULT_HAIKU_MODEL"@, opt_view(th)), "ANTHROPIC_DEFAULT_SONNET_MODEL"@, opt_view(ts), "ANTHROPIC_MODEL"@);
                lemma_fill_reads(fill(env0, "ANTHROPIC_DEFAULT_HAIKU_MODEL"@, opt_view(th)), "ANTHROPIC_DEFAULT_SONNET_MODEL"@, opt_view(ts), "ANTHROPIC_SMALL_FAST_MODEL"@);
            }
        }
        let mut new_settings = match settings {
            JsonVal::Obj(entries) => {
                proof {
                    crate::model::lemma_obj_entries(*entries);
                }
                crate::model::clone_entries(entries)
            },
            _ => Vec::new(),
        };
        proof {
            crate::model::lemma_obj_entries(env);
        }
        obj_set(&mut new_settings, "env".to_owned(), JsonVal::Obj(env));
        proof {
            crate::model::lemma_obj_entries(new_settings);
        }
        *settings = JsonVal::Obj(new_settings);
        changed
    }

    /// Apply the normalization only for the first client; only the
    /// settings snapshot can change, and it becomes exactly the
    /// normalized value.
    pub fn normalize_provider_if_client_a(app_type: &AppType, provider: &mut Provider)
        ensures
            *app_type != AppType::ClientA ==> *final(provider) == *old(provider),
            final(provider).id == old(provider).id,
            final(provider).name == old(provider).name,
            final(provider).meta == old(provider).meta,
            final(provider).website_url == old(provider).website_url,
            final(provider).category == old(provider).category,
            final(provider).created_at == old(provider).created_at,
            final(provider).sort_index == old(provider).sort_index,
            final(provider).notes == old(provider).notes,
            final(provider).icon == old(provider).icon,
            final(provider).icon_color == old(provider).icon_color,
            final(provider).settings_config@ == normalized_settings(
                *app_type,
                old(provider).settings_config@,
            ),
    {
        if let AppType::ClientA = app_type {
            let mut v = provider.settings_config.clone();
            let changed = Self::normalize_client_a_models_in_value(&mut v);
            if changed {
                provider.settings_config = v;
            }
        }
    }
}


/// The five model keys are pairwise distinct.
proof fn distinct_model_keys()
    ensures
        "ANTHROPIC_MODEL"@ != "ANTHROPIC_SMALL_FAST_MODEL"@,
        "ANTHROPIC_MODEL"@ != "ANTHROPIC_DEFAULT_HAIKU_MODEL"@,
        "ANTHROPIC_MODEL"@ != "ANTHROPIC_DEFAULT_SONNET_MODEL"@,
        "ANTHROPIC_MODEL"@ != "ANTHROPIC_DEFAULT_OPUS_MODEL"@,
        "ANTHROPIC_SMALL_FAST_MODEL"@ != "ANTHROPIC_DEFAULT_HAIKU_MODEL"@,
        "ANTHROPIC_SMALL_FAST_MODEL"@ != "ANTHROPIC_DEFAULT_SONNET_MODEL"@,
        "ANTHROPIC_SMALL_FAST_MODEL"@ != "ANTHROPIC_DEFAULT_OPUS_MODEL"@,
        "ANTHROPIC_DEFAULT_HAIKU_MODEL"@ != "ANTHROPIC_DEFAULT_SONNET_MODEL"@,
        "ANTHROPIC_DEFAULT_HAIKU_MODEL"@ != "ANTHROPIC_DEFAULT_OPUS_MODEL"@,
        "ANTHROPIC_DEFAULT_SONNET_MODEL"@ != "ANTHROPIC_DEFAULT_OPUS_MODEL"@,
{
    reveal_strlit("ANTHROPIC_MODEL");
    reveal_strlit("ANTHROPIC_SMALL_FAST_MODEL");
    reveal_strlit("ANTHROPIC_DEFAULT_HAIKU_MODEL");
    reveal_strlit("ANTHROPIC_DEFAULT_SONNET_MODEL");
    reveal_strlit("ANTHROPIC_DEFAULT_OPUS_MODEL");
    assert("ANTHROPIC_MODEL"@.len() == 15);
    assert("ANTHROPIC_SMALL_FAST_MODEL"@.len() == 26);
    assert("ANTHROPIC_DEFAULT_HAIKU_MODEL"@.len() == 29);
    assert("ANTHROPIC_DEFAULT_SONNET_MODEL"@.len() == 30);
    assert("ANTHROPIC_DEFAULT_OPUS_MODEL"@.len() == 28);
}

/// The settings snapshot after first-client normalization: the `env`
/// object rewritten when the rewrite changes anything, the value kept
/// as it is otherwise.
pub open spec fn normalized_settings(app: AppType, v: JVal) -> JVal {
    if app != AppType::ClientA {
        v
    } else {
        match v.get("env"@) {
            Some(JVal::Obj(env)) => if norm_changes(env) {
                JVal::Obj(
                    crate::model::vobj_set(v.entries(), "env"@, JVal::Obj(norm_env_spec(env))),
                )
            } else {
                v
            },
            _ => v,
        }
    }
}

/// Filling one key leaves every other key's string reading as it was.
proof fn lemma_fill_reads(
    env: Seq<(Seq<char>, JVal)>,
    key: Seq<char>,
    target: Option<Seq<char>>,
    other: Seq<char>,
)
    requires
        other != key,
    ensures
        str_val(fill(env, key, target), other) == str_val(env, other),
        crate::model::vobj_has(fill(env, key, target), other) == crate::model::vobj_has(
            env,
            other,
        ),
{
    if !crate::model::vobj_has(env, key) && target is Some {
        let upd = crate::model::vobj_set(env, key, JVal::Str(target->Some_0));
        crate::model::lemma_vobj_idx_range(env, key);
        crate::model::lemma_vobj_idx_range(env, other);
        crate::model::lemma_vobj_idx_range(upd, other);
        if crate::model::vobj_has(env, other) {
            let i = crate::model::vobj_idx(env, other);
            assert(upd[i] == env[i]);
            assert forall|j: int| 0 <= j < i implies (#[trigger] upd[j]).0 != other by {
                assert(upd[j] == env[j]);
            }
            crate::model::lemma_vobj_idx_first(upd, other, i);
        } else {
            if crate::model::vobj_has(upd, other) {
                let i = crate::model::vobj_idx(upd, other);
                if i < env.len() {
                    assert(upd[i] == env[i]);
                }
            }
        }
    }
}

fn clone_opt(o: &Option<String>) -> (r: Option<String>)
    ensures
        opt_view(r) == opt_view(*o),
{
    match o {
        Some(s) => Some(s.clone()),
        None => None,
    }
}


/// What the partner-provider regular expression captures from a TOML
/// settings text: the first quoted base URL, if any.
pub uninterp spec fn base_url_capture_of(s: Seq<char>) -> Option<Seq<char>>;

/// Relies on regex::Regex::captures with the fixed pattern
/// base_url\s*=\s*["']([^"']+)["']: the capture depends on the text
/// alone.
#[verifier::external_body]
fn capture_base_url(text: &str) -> (r: Option<String>)
    ensures
        match r {
            Some(s) => base_url_capture_of(text@) == Some(s@),
            None => base_url_capture_of(text@) is None,
        },
{
    let re = match regex::Regex::new("base_url\\s*=\\s*[\"']([^\"']+)[\"']") {
        Ok(re) => re,
        Err(_) => {
            return None;
        },
    };
    match re.captures(text) {
        Some(caps) => caps.get(1).map(|m| m.as_str().to_string()),
        None => None,
    }
}

pub struct CredentialsExtractor;

/// The string under `env.<key>` of the settings, when present.
pub open spec fn env_str_of(v: JVal, key: Seq<char>) -> Option<Seq<char>> {
    match v.get("env"@) {
        Some(JVal::Obj(env)) => str_val(env, key),
        _ => None,
    }
}

fn env_str_read(v: &JsonVal, key: &str) -> (r: Option<String>)
    ensures
        match r {
            Some(s) => env_str_of(jview(*v), key@) == Some(s@),
            None => env_str_of(jview(*v), key@) is None,
        },
{
    match v {
        JsonVal::Obj(entries) => {
            proof {
                crate::model::lemma_obj_entries(*entries);
            }
            match obj_get(entries, "env") {
                Some(JsonVal::Obj(env)) => {
                    proof {
                        crate::model::lemma_obj_entries(*env);
                    }
                    read_str(env, key)
                },
                _ => None,
            }
        },
        _ => None,
    }
}

impl CredentialsExtractor {
    /// The API key and base URL a provider's settings carry, per
    /// client. The first client reads its env keys, the second its
    /// auth object and the base URL captured from its TOML text, the
    /// third its env keys with the public default base URL.
    pub fn extract_credentials(provider: &Provider, app_type: &AppType) -> (r: Result<
        (String, String),
        AppError,
    >)
        ensures
            match (r, *app_type) {
                (Ok(pair), AppType::ClientA) => {
                    &&& (env_str_of(jview(provider.settings_config), "ANTHROPIC_AUTH_TOKEN"@)
                        == Some(pair.0@) || (env_str_of(
                        jview(provider.settings_config),
                        "ANTHROPIC_AUTH_TOKEN"@,
                    ) is None && env_str_of(
                        jview(provider.settings_config),
                        "ANTHROPIC_API_KEY"@,
                    ) == Some(pair.0@)))
                    &&& env_str_of(jview(provider.settings_config), "ANTHROPIC_BASE_URL"@) == Some(
                        pair.1@,
                    )
                },
                (Ok(pair), AppType::Gemini) => {
                    &&& env_str_of(jview(provider.settings_config), "GEMINI_API_KEY"@) == Some(
                        pair.0@,
                    )
                    &&& (env_str_of(
                        jview(provider.settings_config),
                        "GOOGLE_GEMINI_BASE_URL"@,
                    ) == Some(pair.1@) || (env_str_of(
                        jview(provider.settings_config),
                        "GOOGLE_GEMINI_BASE_URL"@,
                    ) is None && pair.1@ == "https://generativelanguage.googleapis.com"@))
                },
                (Ok(_), AppType::Codex) => true,
                (Err(e), _) => e is Localized,
            },
    {
        match app_type {
            AppType::ClientA => {
                let token = env_str_read(&provider.settings_config, "ANTHROPIC_AUTH_TOKEN");
                let key = match token {
                    Some(t) => t,
                    None => {
                        match env_str_read(&provider.settings_config, "ANTHROPIC_API_KEY") {
                            Some(k) => k,
                            None => {
                                return Err(
                                    AppError::Localized(
                                        "provider.client_a.api_key.missing".to_owned(),
                                        "\u{7f3a}\u{5c11} API Key".to_owned(),
                                        "API key is missing".to_owned(),
                                    ),
                                );
                            },
                        }
                    },
                };
                let base = match env_str_read(&provider.settings_config, "ANTHROPIC_BASE_URL") {
                    Some(b) => b,
                    None => {
                        return Err(
                            AppError::Localized(
                                "provider.client_a.base_url.missing".to_owned(),
                                "\u{7f3a}\u{5c11} ANTHROPIC_BASE_URL \u{914d}\u{7f6e}".to_owned(),
                                "Missing ANTHROPIC_BASE_URL configuration".to_owned(),
                            ),
                        );
                    },
                };
                Ok((key, base))
            },
            AppType::Codex => {
                let auth_key: Option<String> = match &provider.settings_config {
                    JsonVal::Obj(entries) => {
                        proof {
                            crate::model::lemma_obj_entries(*entries);
                        }
                        match obj_get(entries, "auth") {
                            Some(JsonVal::Obj(auth)) => {
                                proof {
                                    crate::model::lemma_obj_entries(*auth);
                                }
                                read_str(auth, "OPENAI_API_KEY")
                            },
                            _ => None,
                        }
                    },
                    _ => None,
                };
                let key = match auth_key {
                    Some(k) => k,
                    None => {
                        return Err(
                            AppError::Localized(
                                "provider.codex.api_key.missing".to_owned(),
                                "\u{7f3a}\u{5c11} API Key".to_owned(),
                                "API key is missing".to_owned(),
                            ),
                        );
                    },
                };
                let config_text: Option<String> = match &provider.settings_config {
                    JsonVal::Obj(entries) => {
                        proof {
                            crate::model::lemma_obj_entries(*entries);
                        }
                        read_str(entries, "config")
                    },
                    _ => None,
                };
                let base = match &config_text {
                    Some(cfg) => match capture_base_url(cfg.as_str()) {
                        Some(b) => b,
                        None => {
                            return Err(
                                AppError::Localized(
                                    "provider.codex.base_url.missing".to_owned(),
                                    "\u{914d}\u{7f6e}\u{4e2d}\u{7f3a}\u{5c11} base_url".to_owned(),
                                    "base_url is missing from the configuration text".to_owned(),
                                ),
                            );
                        },
                    },
                    None => {
                        return Err(
                            AppError::Localized(
                                "provider.codex.base_url.missing".to_owned(),
                                "\u{914d}\u{7f6e}\u{4e2d}\u{7f3a}\u{5c11} base_url".to_owned(),
                                "base_url is missing from the configuration text".to_owned(),
                            ),
                        );
                    },
                };
                Ok((key, base))
            },
            AppType::Gemini => {
                let key = match env_str_read(&provider.settings_config, "GEMINI_API_KEY") {
                    Some(k) => k,
                    None => {
                        return Err(
                            AppError::Localized(
                                "gemini.missing_api_key".to_owned(),
                                "\u{7f3a}\u{5c11} GEMINI_API_KEY".to_owned(),
                                "Missing GEMINI_API_KEY".to_owned(),
                            ),
                        );
                    },
                };
                let base = match env_str_read(&provider.settings_config, "GOOGLE_GEMINI_BASE_URL") {
                    Some(b) => b,
                    None => "https://generativelanguage.googleapis.com".to_owned(),
                };
                Ok((key, base))
            },
        }
    }
}

pub struct ProviderValidator;

/// What the validator accepts, per client: the first and third
/// clients' settings must be JSON objects; the second's must also
/// carry an `auth` object and, when a `config` field exists, it must
/// be null or a string of valid TOML. Any attached usage script must
/// keep its automatic query interval within one day.
pub open spec fn settings_ok(app: AppType, sv: JVal, meta: Option<ProviderMeta>) -> bool {
    &&& sv is Obj
    &&& (app == AppType::Codex ==> {
        &&& (match sv.get("auth"@) {
            Some(a) => a is Obj,
            None => false,
        })
        &&& (match sv.get("config"@) {
            Some(JVal::Str(s)) => crate::tomlio::toml_doc_of(s) is Some,
            Some(JVal::Null) => true,
            Some(_) => false,
            None => true,
        })
    })
    &&& (match meta {
        Some(m) => match m.usage_script {
            Some(script) => match script.auto_query_interval {
                Some(n) => n <= 1440,
                None => true,
            },
            None => true,
        },
        None => true,
    })
}

/// The same, read off a provider record.
pub open spec fn valid_provider_settings(app: AppType, p: Provider) -> bool {
    settings_ok(app, jview(p.settings_config), p.meta)
}

impl ProviderValidator {
    /// Accept exactly the settings `valid_provider_settings` allows.
    pub fn validate_provider_settings(app_type: &AppType, provider: &Provider) -> (r: Result<
        (),
        AppError,
    >)
        ensures
            r is Ok <==> valid_provider_settings(*app_type, *provider),
            r is Err ==> r->Err_0 is Localized,
    {
        match app_type {
            AppType::ClientA => {
                match &provider.settings_config {
                    JsonVal::Obj(_) => {},
                    _ => {
                        return Err(
                            AppError::Localized(
                                "provider.client_a.settings.not_object".to_owned(),
                                "ClientA \u{914d}\u{7f6e}\u{5fc5}\u{987b}\u{662f} JSON \u{5bf9}\u{8c61}".to_owned(),
                                "ClientA configuration must be a JSON object".to_owned(),
                            ),
                        );
                    },
                }
            },
            AppType::Codex => {
                let entries = match &provider.settings_config {
                    JsonVal::Obj(entries) => entries,
                    _ => {
                        return Err(
                            AppError::Localized(
                                "provider.codex.settings.not_object".to_owned(),
                                "Codex \u{914d}\u{7f6e}\u{5fc5}\u{987b}\u{662f} JSON \u{5bf9}\u{8c61}".to_owned(),
                                "Codex configuration must be a JSON object".to_owned(),
                            ),
                        );
                    },
                };
                proof {
                    crate::model::lemma_obj_entries(*entries);
                }
                let auth_ok = match obj_get(entries, "auth") {
                    Some(JsonVal::Obj(_)) => true,
                    _ => false,
                };
                if !auth_ok {
                    return Err(
                        AppError::Localized(
                            "provider.codex.auth.missing".to_owned(),
                            "\u{4f9b}\u{5e94}\u{5546}\u{7f3a}\u{5c11} auth \u{914d}\u{7f6e}".to_owned(),
                            "The provider is missing an auth object".to_owned(),
                        ),
                    );
                }
                match obj_get(entries, "config") {
                    Some(JsonVal::Str(cfg)) => {
                        if crate::tomlio::parse_toml_table(cfg.as_str()).is_err() {
                            return Err(
                                AppError::Localized(
                                    "provider.codex.config.invalid".to_owned(),
                                    "Codex config \u{6587}\u{672c}\u{4e0d}\u{662f}\u{5408}\u{6cd5}\u{7684} TOML".to_owned(),
                                    "The Codex config text is not valid TOML".to_owned(),
                                ),
                            );
                        }
                    },
                    Some(JsonVal::Null) => {},
                    Some(_) => {
                        return Err(
                            AppError::Localized(
                                "provider.codex.config.invalid_type".to_owned(),
                                "Codex config \u{5b57}\u{6bb5}\u{5fc5}\u{987b}\u{662f}\u{5b57}\u{7b26}\u{4e32}".to_owned(),
                                "The Codex config field must be a string".to_owned(),
                            ),
                        );
                    },
                    None => {},
                }
            },
            AppType::Gemini => {
                match &provider.settings_config {
                    JsonVal::Obj(_) => {},
                    _ => {
                        return Err(
                            AppError::Localized(
                                "provider.gemini.settings.not_object".to_owned(),
                                "Gemini \u{914d}\u{7f6e}\u{5fc5}\u{987b}\u{662f} JSON \u{5bf9}\u{8c61}".to_owned(),
                                "Gemini configuration must be a JSON object".to_owned(),
                            ),
                        );
                    },
                }
            },
        }
        if let Some(meta) = &provider.meta {
            if let Some(script) = &meta.usage_script {
                if let Err(e) = Self::validate_usage_script(script) {
                    return Err(e);
                }
            }
        }
        Ok(())
    }

    /// A usage script's automatic query interval may not exceed one
    /// day in minutes.
    pub fn validate_usage_script(script: &UsageScript) -> (r: Result<(), AppError>)
        ensures
            r is Ok <==> (match script.auto_query_interval {
                Some(n) => n <= 1440,
                None => true,
            }),
            r is Err ==> r->Err_0 is Localized,
    {
        if let Some(interval) = script.auto_query_interval {
            if interval > 1440 {
                return Err(
                    AppError::Localized(
                        "usage_script.interval_too_large".to_owned(),
                        "\u{81ea}\u{52a8}\u{67e5}\u{8be2}\u{95f4}\u{9694}\u{4e0d}\u{80fd}\u{8d85}\u{8fc7} 1440 \u{5206}\u{949f}".to_owned(),
                        "The auto query interval cannot exceed 1440 minutes (24 hours)".to_owned(),
                    ),
                );
            }
        }
        Ok(())
    }
}


pub struct EndpointManager;

/// Position of the first endpoint stored under this key.
fn ep_find(eps: &Vec<(String, CustomEndpoint)>, key: &str) -> (r: Option<usize>)
    ensures
        match r {
            Some(j) => j < eps@.len() && eps@[j as int].0@ == key@ && ep_idx(eps@, key@)
                == j as int,
            None => !ep_has(eps@, key@),
        },
{
    let mut j: usize = 0;
    while j < eps.len()
        invariant
            j <= eps@.len(),
            forall|k: int| 0 <= k < j ==> (#[trigger] eps@[k]).0@ != key@,
        decreases eps@.len() - j,
    {
        if strutil::str_eq(eps[j].0.as_str(), key) {
            proof {
                lemma_ep_idx_first(eps@, key@, j as int);
            }
            return Some(j);
        }
        j = j + 1;
    }
    proof {
        lemma_ep_idx_range(eps@, key@);
        if ep_has(eps@, key@) {
            let w = ep_idx(eps@, key@);
            assert(eps@[w].0@ == key@);
        }
    }
    None
}

/// A URL normalized for endpoint bookkeeping: trimmed, trailing
/// slashes dropped.
pub open spec fn norm_url(s: Seq<char>) -> Seq<char> {
    strutil::trim_end_char_spec(strutil::trim_spec(s), '/')
}

fn norm_url_exec(url: &str) -> (r: String)
    ensures
        r@ == norm_url(url@),
{
    let cs = strutil::str_chars(url);
    let t = strutil::trim_chars(&cs);
    let e = strutil::trim_end_chars(&t, '/');
    strutil::chars_string(&e)
}

impl EndpointManager {
    /// The provider's remembered endpoints, newest first by the time
    /// they were added; an unknown provider or one without metadata
    /// has none. Every stored endpoint appears, and nothing else.
    #[verifier::rlimit(100)]
    pub fn get_custom_endpoints(mgr: &ProviderManager, provider_id: &str) -> (r: Vec<
        CustomEndpoint,
    >)
        ensures
            !mgr.has(provider_id@) ==> r@.len() == 0,
            forall|i: int, j: int| 0 <= i < j < r@.len() ==> (#[trigger] r@[i]).added_at >= (
            #[trigger] r@[j]).added_at,
            mgr.has(provider_id@) ==> {
                let eps = endpoints_of(mgr.providers@[mgr_idx(mgr.providers@, provider_id@)]);
                &&& r@.len() == eps.len()
                &&& forall|k: int| 0 <= k < r@.len() ==> from_eps(#[trigger] r@[k], eps)
                &&& forall|j: int| 0 <= j < eps.len() ==> appears((#[trigger] eps[j]).1, r@)
            },
    {
        let idx = match mgr.find(provider_id) {
            Some(i) => i,
            None => {
                return Vec::new();
            },
        };
        proof {
            lemma_mgr_idx_first(mgr.providers@, provider_id@, idx as int);
        }
        let ghost eps = endpoints_of(mgr.providers@[idx as int]);
        let meta = match &mgr.providers[idx].meta {
            Some(m) => m,
            None => {
                return Vec::new();
            },
        };
        let mut remaining: Vec<CustomEndpoint> = Vec::new();
        let mut i: usize = 0;
        while i < meta.custom_endpoints.len()
            invariant
                eps == meta.custom_endpoints@,
                i <= eps.len(),
                remaining@.len() == i,
                forall|k: int|
                    0 <= k < i ==> same_endpoint(#[trigger] remaining@[k], eps[k].1),
            decreases meta.custom_endpoints@.len() - i,
        {
            remaining.push(meta.custom_endpoints[i].1.clone());
            i = i + 1;
        }
        let ghost total = eps.len();
        let mut out: Vec<CustomEndpoint> = Vec::new();
        proof {
            assert(remaining@.len() == eps.len());
            assert forall|k: int| 0 <= k < remaining@.len() implies from_eps(
                #[trigger] remaining@[k],
                eps,
            ) by {
                assert(same_endpoint(remaining@[k], eps[k].1));
            }
            assert forall|j: int| 0 <= j < eps.len() implies appears((#[trigger] eps[j]).1, out@)
                || appears(eps[j].1, remaining@) by {
                assert(same_endpoint(remaining@[j], eps[j].1));
            }
        }
        while remaining.len() > 0
            invariant
                out@.len() + remaining@.len() == total,
                forall|a: int, b: int|
                    0 <= a < b < out@.len() ==> (#[trigger] out@[a]).added_at >= (
                    #[trigger] out@[b]).added_at,
                forall|a: int, b: int|
                    0 <= a < out@.len() && 0 <= b < remaining@.len() ==> (#[trigger] out@[a]).added_at
                        >= (#[trigger] remaining@[b]).added_at,
                forall|k: int| 0 <= k < out@.len() ==> from_eps(#[trigger] out@[k], eps),
                forall|k: int| 0 <= k < remaining@.len() ==> from_eps(#[trigger] remaining@[k], eps),
                forall|j: int|
                    0 <= j < eps.len() ==> appears((#[trigger] eps[j]).1, out@) || appears(
                        eps[j].1,
                        remaining@,
                    ),
            decreases remaining@.len(),
        {
            let mut best: usize = 0;
            let mut k: usize = 1;
            while k < remaining.len()
                invariant
                    best < k <= remaining@.len() || (best == 0 && k <= remaining@.len()),
                    best < remaining@.len(),
                    forall|j: int|
                        0 <= j < k ==> remaining@[best as int].added_at >= (
                        #[trigger] remaining@[j]).added_at,
                decreases remaining@.len() - k,
            {
                if remaining[k].added_at > remaining[best].added_at {
                    best = k;
                }
                k = k + 1;
            }
            let ghost rem_before = remaining@;
            let ghost out_before = out@;
            let picked = remaining.remove(best);
            out.push(picked);
            proof {
                assert forall|j: int| 0 <= j < eps.len() implies appears(
                    (#[trigger] eps[j]).1,
                    out@,
                ) || appears(eps[j].1, remaining@) by {
                    if appears(eps[j].1, out_before) {
                        let k0 = choose|k: int|
                            0 <= k < out_before.len() && same_endpoint(
                                #[trigger] out_before[k],
                                eps[j].1,
                            );
                        assert(out@[k0] == out_before[k0]);
                        assert(appears(eps[j].1, out@));
                    } else {
                        let k0 = choose|k: int|
                            0 <= k < rem_before.len() && same_endpoint(
                                #[trigger] rem_before[k],
                                eps[j].1,
                            );
                        if k0 == best {
                            assert(out@[out@.len() - 1] == rem_before[best as int]);
                            assert(appears(eps[j].1, out@));
                        } else if k0 < best {
                            assert(remaining@[k0] == rem_before[k0]);
                            assert(appears(eps[j].1, remaining@));
                        } else {
                            assert(remaining@[k0 - 1] == rem_before[k0]);
                            assert(appears(eps[j].1, remaining@));
                        }
                    }
                }
                assert forall|k: int| 0 <= k < remaining@.len() implies from_eps(
                    #[trigger] remaining@[k],
                    eps,
                ) by {
                    if k < best {
                        assert(remaining@[k] == rem_before[k]);
                    } else {
                        assert(remaining@[k] == rem_before[k + 1]);
                    }
                }
                assert forall|k: int| 0 <= k < out@.len() implies from_eps(#[trigger] out@[k], eps)
                    by {
                    if k < out_before.len() {
                        assert(out@[k] == out_before[k]);
                    } else {
                        assert(out@[k] == rem_before[best as int]);
                    }
                }
            }
        }
        out
    }

    /// Remember a new endpoint for the provider, keyed by its
    /// normalized URL; a blank URL is rejected, an unknown provider
    /// ignored, and an already-remembered URL kept as it is. The
    /// provider gains metadata when it had none.
    pub fn add_custom_endpoint(
        mgr: &mut ProviderManager,
        provider_id: &str,
        url: &str,
        now: i64,
    ) -> (r: Result<(), AppError>)
        ensures
            r is Err ==> r->Err_0 is Localized && norm_url(url@).len() == 0 && *final(mgr) == *old(
                mgr,
            ),
            r is Ok ==> norm_url(url@).len() > 0,
            r is Ok && !old(mgr).has(provider_id@) ==> *final(mgr) == *old(mgr),
            r is Ok && old(mgr).has(provider_id@) ==> ({
                let i = mgr_idx(old(mgr).providers@, provider_id@);
                let before = endpoints_of(old(mgr).providers@[i]);
                let after = endpoints_of(final(mgr).providers@[i]);
                &&& final(mgr).providers@.len() == old(mgr).providers@.len()
                &&& final(mgr).current == old(mgr).current
                &&& forall|k: int|
                    0 <= k < old(mgr).providers@.len() && k != i
                        ==> #[trigger] final(mgr).providers@[k] == old(mgr).providers@[k]
                &&& same_but_meta(final(mgr).providers@[i], old(mgr).providers@[i])
                &&& ep_has(after, norm_url(url@))
                &&& (ep_has(before, norm_url(url@)) ==> after == before)
                &&& (!ep_has(before, norm_url(url@)) ==> after.len() == before.len() + 1
                    && after.take(before.len() as int) == before && after.last().0@ == norm_url(
                    url@,
                ) && after.last().1.url@ == norm_url(url@) && after.last().1.added_at == now
                    && after.last().1.last_used is None)
            }),
    {
        let normalized = norm_url_exec(url);
        if normalized.as_str().is_empty() {
            return Err(
                AppError::Localized(
                    "provider.endpoint.url_required".to_owned(),
                    "URL \u{4e0d}\u{80fd}\u{4e3a}\u{7a7a}".to_owned(),
                    "URL cannot be empty".to_owned(),
                ),
            );
        }
        let idx = match mgr.find(provider_id) {
            Some(i) => i,
            None => {
                return Ok(());
            },
        };
        proof {
            lemma_mgr_idx_first(mgr.providers@, provider_id@, idx as int);
        }
        let ghost orig = mgr.providers@[idx as int];
        let has_meta = mgr.providers[idx].meta.is_some();
        if !has_meta {
            mgr.providers[idx].meta = Some(
                ProviderMeta {
                    custom_endpoints: Vec::new(),
                    partner_promotion_key: None,
                    usage_script: None,
                },
            );
        }
        proof {
            assert(endpoints_of(mgr.providers@[idx as int]) =~= endpoints_of(orig));
        }
        let url_copy = normalized.clone();
        let entry = CustomEndpoint { url: normalized, added_at: now, last_used: None };
        let ghost before = endpoints_of(mgr.providers@[idx as int]);
        match &mut mgr.providers[idx].meta {
            Some(meta) => {
                let mut j: usize = 0;
                let mut found = false;
                while j < meta.custom_endpoints.len() && !found
                    invariant
                        before == meta.custom_endpoints@,
                        j <= meta.custom_endpoints@.len(),
                        !found ==> forall|k: int|
                            0 <= k < j ==> (#[trigger] meta.custom_endpoints@[k]).0@
                                != url_copy@,
                        found ==> j < meta.custom_endpoints@.len()
                            && meta.custom_endpoints@[j as int].0@ == url_copy@ && (forall|k: int|
                            0 <= k < j ==> (#[trigger] meta.custom_endpoints@[k]).0@ != url_copy@),
                    decreases meta.custom_endpoints@.len() - j + (if found {
                        0int
                    } else {
                        1int
                    }),
                {
                    if strutil::str_eq(
                        meta.custom_endpoints[j].0.as_str(),
                        url_copy.as_str(),
                    ) {
                        found = true;
                    } else {
                        j = j + 1;
                    }
                }
                if !found {
                    proof {
                        lemma_ep_idx_range(before, url_copy@);
                        if ep_has(before, url_copy@) {
                            let w = ep_idx(before, url_copy@);
                            assert(before[w].0@ == url_copy@);
                        }
                    }
                    let ghost pushed_key = url_copy@;
                    meta.custom_endpoints.push((url_copy, entry));
                    proof {
                        assert(meta.custom_endpoints@.take(before.len() as int) =~= before);
                        assert forall|k: int| 0 <= k < before.len() implies (
                        #[trigger] meta.custom_endpoints@[k]).0@ != pushed_key by {
                            assert(meta.custom_endpoints@[k] == before[k]);
                        }
                        assert(meta.custom_endpoints@.last().0@ == pushed_key);
                        lemma_ep_idx_first(
                            meta.custom_endpoints@,
                            pushed_key,
                            before.len() as int,
                        );
                    }
                } else {
                    proof {
                        lemma_ep_idx_first(before, url_copy@, j as int);
                    }
                }
            },
            None => {},
        }
        Ok(())
    }

    /// Forget the endpoint stored under this normalized URL, if
    /// remembered: the first entry with that key leaves, and nothing
    /// else changes.
    pub fn remove_custom_endpoint(mgr: &mut ProviderManager, provider_id: &str, url: &str)
        ensures
            !old(mgr).has(provider_id@) ==> *final(mgr) == *old(mgr),
            old(mgr).has(provider_id@) ==> ({
                let i = mgr_idx(old(mgr).providers@, provider_id@);
                let before = endpoints_of(old(mgr).providers@[i]);
                let after = endpoints_of(final(mgr).providers@[i]);
                &&& final(mgr).providers@.len() == old(mgr).providers@.len()
                &&& final(mgr).current == old(mgr).current
                &&& forall|k: int|
                    0 <= k < old(mgr).providers@.len() && k != i
                        ==> #[trigger] final(mgr).providers@[k] == old(mgr).providers@[k]
                &&& same_but_meta(final(mgr).providers@[i], old(mgr).providers@[i])
                &&& (ep_has(before, norm_url(url@)) ==> after == before.remove(
                    ep_idx(before, norm_url(url@)),
                ))
                &&& (!ep_has(before, norm_url(url@)) ==> *final(mgr) == *old(mgr))
            }),
    {
        let normalized = norm_url_exec(url);
        let idx = match mgr.find(provider_id) {
            Some(i) => i,
            None => {
                return ;
            },
        };
        proof {
            lemma_mgr_idx_first(mgr.providers@, provider_id@, idx as int);
        }
        let ghost before = endpoints_of(mgr.providers@[idx as int]);
        let pos: Option<usize> = match &mgr.providers[idx].meta {
            Some(meta) => ep_find(&meta.custom_endpoints, normalized.as_str()),
            None => None,
        };
        proof {
            if mgr.providers@[idx as int].meta is None {
                assert(before =~= Seq::<(String, CustomEndpoint)>::empty());
                lemma_ep_idx_range(before, normalized@);
            }
        }
        match pos {
            Some(j) => {
                match &mut mgr.providers[idx].meta {
                    Some(meta) => {
                        meta.custom_endpoints.remove(j);
                    },
                    None => {},
                }
            },
            None => {},
        }
    }

    /// Stamp the endpoint stored under this normalized URL as last
    /// used now; the first entry with that key changes only its
    /// last-used time, and nothing else changes.
    pub fn update_endpoint_last_used(
        mgr: &mut ProviderManager,
        provider_id: &str,
        url: &str,
        now: i64,
    )
        ensures
            !old(mgr).has(provider_id@) ==> *final(mgr) == *old(mgr),
            old(mgr).has(provider_id@) ==> ({
                let i = mgr_idx(old(mgr).providers@, provider_id@);
                let before = endpoints_of(old(mgr).providers@[i]);
                let after = endpoints_of(final(mgr).providers@[i]);
                &&& final(mgr).providers@.len() == old(mgr).providers@.len()
                &&& final(mgr).current == old(mgr).current
                &&& forall|k: int|
                    0 <= k < old(mgr).providers@.len() && k != i
                        ==> #[trigger] final(mgr).providers@[k] == old(mgr).providers@[k]
                &&& same_but_meta(final(mgr).providers@[i], old(mgr).providers@[i])
                &&& (ep_has(before, norm_url(url@)) ==> ({
                    let w = ep_idx(before, norm_url(url@));
                    &&& after.len() == before.len()
                    &&& forall|k: int| 0 <= k < before.len() && k != w ==> #[trigger] after[k]
                        == before[k]
                    &&& after[w].0 == before[w].0
                    &&& after[w].1.url == before[w].1.url
                    &&& after[w].1.added_at == before[w].1.added_at
                    &&& after[w].1.last_used == Some(now)
                }))
                &&& (!ep_has(before, norm_url(url@)) ==> *final(mgr) == *old(mgr))
            }),
    {
        let normalized = norm_url_exec(url);
        let idx = match mgr.find(provider_id) {
            Some(i) => i,
            None => {
                return ;
            },
        };
        proof {
            lemma_mgr_idx_first(mgr.providers@, provider_id@, idx as int);
        }
        let ghost before = endpoints_of(mgr.providers@[idx as int]);
        let pos: Option<usize> = match &mgr.providers[idx].meta {
            Some(meta) => ep_find(&meta.custom_endpoints, normalized.as_str()),
            None => None,
        };
        proof {
            if mgr.providers@[idx as int].meta is None {
                assert(before =~= Seq::<(String, CustomEndpoint)>::empty());
                lemma_ep_idx_range(before, normalized@);
            }
        }
        match pos {
            Some(j) => {
                match &mut mgr.providers[idx].meta {
                    Some(meta) => {
                        meta.custom_endpoints[j].1.last_used = Some(now);
                    },
                    None => {},
                }
            },
            None => {},
        }
    }
}

pub struct ProviderService;

/// What the stored record looks like after adding or updating `given`
/// for `app`: every field the caller supplied, with the settings
/// snapshot normalized.
pub open spec fn stored_as(stored: Provider, given: Provider, app: AppType) -> bool {
    &&& stored.id == given.id
    &&& stored.name == given.name
    &&& stored.meta == given.meta
    &&& stored.website_url == given.website_url
    &&& stored.category == given.category
    &&& stored.created_at == given.created_at
    &&& stored.sort_index == given.sort_index
    &&& stored.notes == given.notes
    &&& stored.icon == given.icon
    &&& stored.icon_color == given.icon_color
    &&& stored.settings_config@ == normalized_settings(app, given.settings_config@)
}

impl ProviderService {
    /// The current provider id, empty when none is selected.
    pub fn current(mgr: &ProviderManager) -> (r: String)
        ensures
            r@ == mgr.current@,
    {
        mgr.current.clone()
    }

    /// Add a provider: its settings are normalized for the first
    /// client, validated, and stored; the first provider ever added
    /// becomes current. The stored record replaces the first record
    /// with the same id, and succeeds exactly when the normalized
    /// settings validate.
    pub fn add(mgr: &mut ProviderManager, app_type: &AppType, provider: Provider) -> (r: Result<
        bool,
        AppError,
    >)
        requires
            old(mgr).wf(),
        ensures
            final(mgr).wf(),
            r is Ok <==> settings_ok(
                *app_type,
                normalized_settings(*app_type, provider.settings_config@),
                provider.meta,
            ),
            r is Err ==> r->Err_0 is Localized && *final(mgr) == *old(mgr),
            r is Ok ==> exists|i: int|
                0 <= i < final(mgr).providers@.len() && stored_as(
                    #[trigger] final(mgr).providers@[i],
                    provider,
                    *app_type,
                ),
            r is Ok ==> final(mgr).has(provider.id@),
            r is Ok ==> (if old(mgr).current@.len() == 0 {
                final(mgr).current@ == provider.id@
            } else {
                final(mgr).current == old(mgr).current
            }),
    {
        let mut provider = provider;
        ClientAModelNormalizer::normalize_provider_if_client_a(app_type, &mut provider);
        if let Err(e) = ProviderValidator::validate_provider_settings(app_type, &provider) {
            return Err(e);
        }
        let had_current = !mgr.current.as_str().is_empty();
        let id_copy = provider.id.clone();
        let ghost pid = provider.id@;
        let ghost stored = provider;
        let ghost orig = mgr.providers@;
        match mgr.find(provider.id.as_str()) {
            Some(i) => {
                mgr.providers[i] = provider;
                proof {
                    assert(mgr.providers@[i as int] == stored);
                    assert(mgr.providers@[i as int].id@ == pid);
                    assert forall|a: int, b: int|
                        0 <= a < b < mgr.providers@.len() implies (
                    #[trigger] mgr.providers@[a]).id@ != (#[trigger] mgr.providers@[b]).id@ by {
                        assert(orig[a].id@ != orig[b].id@);
                        if a != i {
                            assert(mgr.providers@[a] == orig[a]);
                        }
                        if b != i {
                            assert(mgr.providers@[b] == orig[b]);
                        }
                    }
                }
            },
            None => {
                mgr.providers.push(provider);
                proof {
                    assert(mgr.providers@[mgr.providers@.len() - 1] == stored);
                    assert(mgr.providers@[mgr.providers@.len() - 1].id@ == pid);
                    assert forall|a: int, b: int|
                        0 <= a < b < mgr.providers@.len() implies (
                    #[trigger] mgr.providers@[a]).id@ != (#[trigger] mgr.providers@[b]).id@ by {
                        if b < orig.len() {
                            assert(mgr.providers@[a] == orig[a]);
                            assert(mgr.providers@[b] == orig[b]);
                        } else {
                            assert(mgr.providers@[a] == orig[a]);
                        }
                    }
                }
            },
        }
        if !had_current {
            mgr.current = id_copy;
        }
        Ok(true)
    }

    /// Update a provider in place, with the same normalization and
    /// validation as adding; the current selection is untouched. The
    /// caller re-exports the live snapshot when the updated provider
    /// is the current one.
    pub fn update(mgr: &mut ProviderManager, app_type: &AppType, provider: Provider) -> (r: Result<
        bool,
        AppError,
    >)
        requires
            old(mgr).wf(),
        ensures
            final(mgr).wf(),
            r is Ok <==> settings_ok(
                *app_type,
                normalized_settings(*app_type, provider.settings_config@),
                provider.meta,
            ),
            r is Err ==> r->Err_0 is Localized && *final(mgr) == *old(mgr),
            r is Ok ==> exists|i: int|
                0 <= i < final(mgr).providers@.len() && stored_as(
                    #[trigger] final(mgr).providers@[i],
                    provider,
                    *app_type,
                ),
            r is Ok ==> final(mgr).has(provider.id@),
            final(mgr).current == old(mgr).current,
    {
        let mut provider = provider;
        ClientAModelNormalizer::normalize_provider_if_client_a(app_type, &mut provider);
        if let Err(e) = ProviderValidator::validate_provider_settings(app_type, &provider) {
            return Err(e);
        }
        let ghost pid = provider.id@;
        let ghost stored = provider;
        let ghost orig = mgr.providers@;
        match mgr.find(provider.id.as_str()) {
            Some(i) => {
                mgr.providers[i] = provider;
                proof {
                    assert(mgr.providers@[i as int] == stored);
                    assert(mgr.providers@[i as int].id@ == pid);
                    assert forall|a: int, b: int|
                        0 <= a < b < mgr.providers@.len() implies (
                    #[trigger] mgr.providers@[a]).id@ != (#[trigger] mgr.providers@[b]).id@ by {
                        assert(orig[a].id@ != orig[b].id@);
                        if a != i {
                            assert(mgr.providers@[a] == orig[a]);
                        }
                        if b != i {
                            assert(mgr.providers@[b] == orig[b]);
                        }
                    }
                }
            },
            None => {
                mgr.providers.push(provider);
                proof {
                    assert(mgr.providers@[mgr.providers@.len() - 1] == stored);
                    assert(mgr.providers@[mgr.providers@.len() - 1].id@ == pid);
                    assert forall|a: int, b: int|
                        0 <= a < b < mgr.providers@.len() implies (
                    #[trigger] mgr.providers@[a]).id@ != (#[trigger] mgr.providers@[b]).id@ by {
                        if b < orig.len() {
                            assert(mgr.providers@[a] == orig[a]);
                            assert(mgr.providers@[b] == orig[b]);
                        } else {
                            assert(mgr.providers@[a] == orig[a]);
                        }
                    }
                }
            },
        }
        Ok(true)
    }

    /// Record requested sort positions for the named providers: each
    /// provider an update names gets that position (the last update
    /// of an id wins), unknown ids are ignored, and nothing but sort
    /// positions can change.
    pub fn update_sort_order(mgr: &mut ProviderManager, updates: &Vec<ProviderSortUpdate>) -> (r:
        bool)
        requires
            old(mgr).wf(),
        ensures
            r,
            final(mgr).wf(),
            final(mgr).providers@.len() == old(mgr).providers@.len(),
            final(mgr).current == old(mgr).current,
            forall|j: int|
                0 <= j < old(mgr).providers@.len() ==> same_but_sort(
                    #[trigger] final(mgr).providers@[j],
                    old(mgr).providers@[j],
                ),
            forall|j: int|
                0 <= j < old(mgr).providers@.len()
                    ==> (#[trigger] final(mgr).providers@[j]).sort_index == (match last_sort_for(
                    updates@,
                    old(mgr).providers@[j].id@,
                ) {
                    Some(v) => Some(v),
                    None => old(mgr).providers@[j].sort_index,
                }),
    {
        let mut u: usize = 0;
        while u < updates.len()
            invariant
                u <= updates@.len(),
                old(mgr).wf(),
                mgr.providers@.len() == old(mgr).providers@.len(),
                mgr.current == old(mgr).current,
                forall|j: int|
                    0 <= j < old(mgr).providers@.len() ==> same_but_sort(
                        #[trigger] mgr.providers@[j],
                        old(mgr).providers@[j],
                    ),
                forall|j: int|
                    0 <= j < old(mgr).providers@.len() ==> (#[trigger] mgr.providers@[j]).sort_index
                        == (match last_sort_for(updates@.take(u as int), old(
                        mgr,
                    ).providers@[j].id@) {
                        Some(v) => Some(v),
                        None => old(mgr).providers@[j].sort_index,
                    }),
            decreases updates@.len() - u,
        {
            let ghost before = mgr.providers@;
            let found = mgr.find(updates[u].id.as_str());
            match found {
                Some(i) => {
                    mgr.providers[i].sort_index = Some(updates[u].sort_index);
                },
                None => {},
            }
            proof {
                assert(updates@.take(u + 1).drop_last() =~= updates@.take(u as int));
                assert(updates@.take(u + 1).last() == updates@[u as int]);
                assert forall|j: int| 0 <= j < old(mgr).providers@.len() implies (
                #[trigger] mgr.providers@[j]).sort_index == (match last_sort_for(
                    updates@.take(u + 1),
                    old(mgr).providers@[j].id@,
                ) {
                    Some(v) => Some(v),
                    None => old(mgr).providers@[j].sort_index,
                }) by {
                    let pid = old(mgr).providers@[j].id@;
                    match found {
                        Some(i) => {
                            assert(before[i as int].id@ == updates@[u as int].id@);
                            assert(before[j].id@ == pid);
                            if j == i {
                                assert(pid == updates@[u as int].id@);
                            } else {
                                assert(pid != updates@[u as int].id@);
                                assert(mgr.providers@[j] == before[j]);
                            }
                        },
                        None => {
                            assert(!ProviderManager { providers: mgr.providers, current: mgr.current }.has(updates@[u as int].id@)) by {
                                assert(mgr.providers@ == before);
                            }
                            assert(pid != updates@[u as int].id@);
                        },
                    }
                }
            }
            u = u + 1;
        }
        proof {
            assert(updates@.take(updates@.len() as int) =~= updates@);
            assert forall|a: int, b: int|
                0 <= a < b < mgr.providers@.len() implies (#[trigger] mgr.providers@[a]).id@ != (
            #[trigger] mgr.providers@[b]).id@ by {
                assert(mgr.providers@[a].id == old(mgr).providers@[a].id);
                assert(mgr.providers@[b].id == old(mgr).providers@[b].id);
            }
        }
        true
    }

    /// Remove a provider; the one currently in use cannot be removed.
    /// On success the named row is gone and everything else stays.
    pub fn delete(mgr: &mut ProviderManager, id: &str) -> (r: Result<(), AppError>)
        requires
            old(mgr).wf(),
        ensures
            final(mgr).wf(),
            match r {
                Ok(_) => {
                    &&& id@ != old(mgr).current@
                    &&& !final(mgr).has(id@)
                    &&& final(mgr).current == old(mgr).current
                    &&& (old(mgr).has(id@) ==> final(mgr).providers@ == old(
                        mgr,
                    ).providers@.remove(mgr_idx(old(mgr).providers@, id@)))
                    &&& (!old(mgr).has(id@) ==> *final(mgr) == *old(mgr))
                },
                Err(e) => e is Message && id@ == old(mgr).current@ && *final(mgr) == *old(mgr),
            },
    {
        if strutil::str_eq(mgr.current.as_str(), id) {
            return Err(
                AppError::Message(
                    "\u{65e0}\u{6cd5}\u{5220}\u{9664}\u{5f53}\u{524d}\u{6b63}\u{5728}\u{4f7f}\u{7528}\u{7684}\u{4f9b}\u{5e94}\u{5546}".to_owned(),
                ),
            );
        }
        let ghost orig = mgr.providers@;
        match mgr.find(id) {
            Some(i) => {
                proof {
                    lemma_mgr_idx_first(orig, id@, i as int);
                }
                mgr.providers.remove(i);
                proof {
                    assert forall|a: int, b: int|
                        0 <= a < b < mgr.providers@.len() implies (
                    #[trigger] mgr.providers@[a]).id@ != (#[trigger] mgr.providers@[b]).id@ by {
                        let oa: int = if a < i {
                            a
                        } else {
                            a + 1
                        };
                        let ob: int = if b < i {
                            b
                        } else {
                            b + 1
                        };
                        assert(mgr.providers@[a] == orig[oa]);
                        assert(mgr.providers@[b] == orig[ob]);
                    }
                    assert forall|k: int| 0 <= k < mgr.providers@.len() implies (
                    #[trigger] mgr.providers@[k]).id@ != id@ by {
                        let ok: int = if k < i {
                            k
                        } else {
                            k + 1
                        };
                        assert(mgr.providers@[k] == orig[ok]);
                        if ok != i {
                            if ok < i {
                                assert(orig[ok].id@ != orig[i as int].id@);
                            } else {
                                assert(orig[i as int].id@ != orig[ok].id@);
                            }
                        }
                    }
                }
            },
            None => {},
        }
        Ok(())
    }

    /// Make the named provider current; an unknown id is refused and
    /// nothing changes. The caller then writes the provider's live
    /// snapshot and re-syncs the enabled servers.
    pub fn switch(mgr: &mut ProviderManager, id: &str) -> (r: Result<(), AppError>)
        ensures
            match r {
                Ok(_) => old(mgr).has(id@) && final(mgr).current@ == id@ && final(mgr).providers@
                    == old(mgr).providers@,
                Err(e) => e is Message && !old(mgr).has(id@) && *final(mgr) == *old(mgr),
            },
    {
        match mgr.find(id) {
            Some(_) => {
                let cs = strutil::str_chars(id);
                mgr.current = strutil::chars_string(&cs);
                Ok(())
            },
            None => {
                let mut msg = "\u{4f9b}\u{5e94}\u{5546} ".to_owned();
                let idc = strutil::str_chars(id);
                let ids = strutil::chars_string(&idc);
                msg.append(ids.as_str());
                msg.append(" \u{4e0d}\u{5b58}\u{5728}");
                Err(AppError::Message(msg))
            },
        }
    }
}

/// Network latency probing and usage querying run in the surrounding
/// application; the marker stands for that work's owner.
pub struct UsageQueryExecutor;

} // verus!

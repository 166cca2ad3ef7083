//! Client identities and per-server application flags.

use vstd::prelude::*;

use crate::errors::AppError;
use crate::strutil;

verus! {

/// One of the three supported clients.
#[derive(Debug, Clone, Copy, PartialEq, Eq, Structural)]
pub enum AppType {
    ClientA,
    Codex,
    Gemini,
}

impl AppType {
    pub fn as_str(&self) -> (r: &'static str)
        ensures
            r@ == self.as_str_spec(),
    {
        proof {
            reveal_strlit("client_a");
            reveal_strlit("codex");
            reveal_strlit("gemini");
        }
        match self {
            AppType::ClientA => "client_a",
            AppType::Codex => "codex",
            AppType::Gemini => "gemini",
        }
    }

    pub open spec fn as_str_spec(self) -> Seq<char> {
        match self {
            AppType::ClientA => "client_a"@,
            AppType::Codex => "codex"@,
            AppType::Gemini => "gemini"@,
        }
    }

    /// Which client a user-supplied identifier names: the identifier is
    /// trimmed and ASCII-lowercased, then must match one of the three.
    pub open spec fn parse_spec(s: Seq<char>) -> Option<AppType> {
        let n = strutil::lower_spec(strutil::trim_spec(s));
        if n == "client_a"@ {
            Some(AppType::ClientA)
        } else if n == "codex"@ {
            Some(AppType::Codex)
        } else if n == "gemini"@ {
            Some(AppType::Gemini)
        } else {
            None
        }
    }
}

impl core::str::FromStr for AppType {
    type Err = AppError;

    /// Accepts `client_a`, `codex` and `gemini`, case-insensitively and
    /// ignoring surrounding whitespace; anything else is rejected with
    /// a localized message.
    fn from_str(s: &str) -> (r: Result<AppType, AppError>) {
        parse_app_type(s)
    }
}

/// The worker behind `AppType::from_str`, with the full contract.
pub fn parse_app_type(s: &str) -> (r: Result<AppType, AppError>)
    ensures
        match r {
            Ok(t) => AppType::parse_spec(s@) == Some(t),
            Err(e) => AppType::parse_spec(s@) is None && e is Localized,
        },
{
    let cs = strutil::str_chars(s);
    let t = strutil::trim_chars(&cs);
    let n = strutil::lower_chars(&t);
    let client_a = strutil::str_chars("client_a");
    let codex = strutil::str_chars("codex");
    let gemini = strutil::str_chars("gemini");
    if strutil::chars_eq(&n, &client_a) {
        Ok(AppType::ClientA)
    } else if strutil::chars_eq(&n, &codex) {
        Ok(AppType::Codex)
    } else if strutil::chars_eq(&n, &gemini) {
        Ok(AppType::Gemini)
    } else {
        let shown = strutil::chars_string(&n);
        let mut zh = String::new();
        zh.append("\u{4e0d}\u{652f}\u{6301}\u{7684}\u{5e94}\u{7528}\u{6807}\u{8bc6}: '");
        zh.append(shown.as_str());
        zh.append("'\u{3002}\u{53ef}\u{9009}\u{503c}: client_a, codex, gemini\u{3002}");
        let mut en = String::new();
        en.append("Unsupported app id: '");
        en.append(shown.as_str());
        en.append("'. Allowed: client_a, codex, gemini.");
        let mut key = String::new();
        key.append("unsupported_app");
        Err(AppError::Localized(key, zh, en))
    }
}

/// Which clients a canonical server is projected into.
#[derive(Debug, Clone, Copy, PartialEq, Eq, Structural)]
pub struct McpApps {
    pub client_a: bool,
    pub codex: bool,
    pub gemini: bool,
}

impl Default for McpApps {
    /// All flags off.
    fn default() -> (r: Self)
        ensures
            r == (McpApps { client_a: false, codex: false, gemini: false }),
    {
        McpApps { client_a: false, codex: false, gemini: false }
    }
}

impl McpApps {
    pub open spec fn spec_enabled_for(self, app: AppType) -> bool {
        match app {
            AppType::ClientA => self.client_a,
            AppType::Codex => self.codex,
            AppType::Gemini => self.gemini,
        }
    }

    /// Whether this server is projected into the given client.
    pub fn is_enabled_for(&self, app: &AppType) -> (r: bool)
        ensures
            r == self.spec_enabled_for(*app),
    {
        match app {
            AppType::ClientA => self.client_a,
            AppType::Codex => self.codex,
            AppType::Gemini => self.gemini,
        }
    }

    pub open spec fn spec_set_enabled_for(self, app: AppType, enabled: bool) -> McpApps {
        match app {
            AppType::ClientA => McpApps { client_a: enabled, ..self },
            AppType::Codex => McpApps { codex: enabled, ..self },
            AppType::Gemini => McpApps { gemini: enabled, ..self },
        }
    }

    /// Set exactly one client's flag; the other two are untouched.
    pub fn set_enabled_for(&mut self, app: &AppType, enabled: bool)
        ensures
            *final(self) == old(self).spec_set_enabled_for(*app, enabled),
    {
        match app {
            AppType::ClientA => {
                self.client_a = enabled;
            },
            AppType::Codex => {
                self.codex = enabled;
            },
            AppType::Gemini => {
                self.gemini = enabled;
            },
        }
    }

    pub open spec fn enabled_apps_spec(self) -> Seq<AppType> {
        (if self.client_a {
            seq![AppType::ClientA]
        } else {
            Seq::empty()
        }) + (if self.codex {
            seq![AppType::Codex]
        } else {
            Seq::empty()
        }) + (if self.gemini {
            seq![AppType::Gemini]
        } else {
            Seq::empty()
        })
    }

    /// The clients whose flag is on, in the fixed client_a, codex, gemini order.
    pub fn enabled_apps(&self) -> (r: Vec<AppType>)
        ensures
            r@ == self.enabled_apps_spec(),
    {
        let mut apps: Vec<AppType> = Vec::new();
        if self.client_a {
            apps.push(AppType::ClientA);
        }
        if self.codex {
            apps.push(AppType::Codex);
        }
        if self.gemini {
            apps.push(AppType::Gemini);
        }
        proof {
            assert(apps@ =~= self.enabled_apps_spec());
        }
        apps
    }

    /// Whether no client is enabled.
    pub fn is_empty(&self) -> (r: bool)
        ensures
            r == (!self.client_a && !self.codex && !self.gemini),
    {
        !self.client_a && !self.codex && !self.gemini
    }
}


/// Mathematical view of a canonical server record.
pub struct ServerView {
    pub id: Seq<char>,
    pub name: Seq<char>,
    pub server: crate::model::JVal,
    pub apps: McpApps,
    pub description: Option<Seq<char>>,
    pub homepage: Option<Seq<char>>,
    pub docs: Option<Seq<char>>,
    pub tags: Seq<Seq<char>>,
}

/// A canonical server record: one entry of the unified store.
pub struct McpServer {
    pub id: String,
    pub name: String,
    pub server: crate::model::JsonVal,
    pub apps: McpApps,
    pub description: Option<String>,
    pub homepage: Option<String>,
    pub docs: Option<String>,
    pub tags: Vec<String>,
}

pub open spec fn opt_view(o: Option<String>) -> Option<Seq<char>> {
    match o {
        Some(s) => Some(s@),
        None => None,
    }
}

pub open spec fn tags_view(tags: Seq<String>) -> Seq<Seq<char>> {
    Seq::new(tags.len(), |i: int| tags[i]@)
}

impl View for McpServer {
    type V = ServerView;

    open spec fn view(&self) -> ServerView {
        ServerView {
            id: self.id@,
            name: self.name@,
            server: self.server@,
            apps: self.apps,
            description: opt_view(self.description),
            homepage: opt_view(self.homepage),
            docs: opt_view(self.docs),
            tags: tags_view(self.tags@),
        }
    }
}

fn clone_opt_string(o: &Option<String>) -> (r: Option<String>)
    ensures
        opt_view(r) == opt_view(*o),
{
    match o {
        Some(s) => Some(s.clone()),
        None => None,
    }
}

fn clone_tags(tags: &Vec<String>) -> (r: Vec<String>)
    ensures
        tags_view(r@) == tags_view(tags@),
{
    let r = tags.clone();
    proof {
        assert forall|i: int| 0 <= i < r@.len() implies r@[i]@ == tags@[i]@ by {
            assert(cloned::<String>(tags@[i], r@[i]));
        }
        assert(tags_view(r@) =~= tags_view(tags@));
    }
    r
}

impl Clone for McpServer {
    /// Deep copy; the view is preserved exactly.
    fn clone(&self) -> (r: Self)
        ensures
            r@ == self@,
    {
        McpServer {
            id: self.id.clone(),
            name: self.name.clone(),
            server: self.server.clone(),
            apps: self.apps,
            description: clone_opt_string(&self.description),
            homepage: clone_opt_string(&self.homepage),
            docs: clone_opt_string(&self.docs),
            tags: clone_tags(&self.tags),
        }
    }
}


/// A legacy per-client server map: loose JSON objects by id, read
/// only during the one-time migration into the unified store.
pub struct McpConfig {
    pub servers: Vec<(String, crate::model::JsonVal)>,
}

impl McpConfig {
    /// An empty per-client map.
    pub fn new() -> (r: McpConfig)
        ensures
            r.servers@.len() == 0,
    {
        McpConfig { servers: Vec::new() }
    }

    /// Whether the map holds no entry.
    pub fn is_empty(&self) -> (r: bool)
        ensures
            r == (self.servers@.len() == 0),
    {
        self.servers.len() == 0
    }
}

/// The server configuration root: the unified store once migrated,
/// beside the legacy per-client maps kept only for that migration.
pub struct McpRoot {
    pub servers: Option<Vec<McpServer>>,
    pub client_a: McpConfig,
    pub codex: McpConfig,
    pub gemini: McpConfig,
}

/// One prompt as stored per client.
pub struct Prompt {
    pub id: String,
    pub name: String,
    pub content: String,
    pub description: Option<String>,
    pub enabled: bool,
    pub created_at: Option<i64>,
    pub updated_at: Option<i64>,
}

/// One client's prompts, by id.
pub struct PromptConfig {
    pub prompts: Vec<(String, Prompt)>,
}

/// The prompts of all three clients.
pub struct PromptRoot {
    pub client_a: PromptConfig,
    pub codex: PromptConfig,
    pub gemini: PromptConfig,
}

/// A free-form configuration snippet per client.
pub struct CommonConfigSnippets {
    pub client_a: Option<String>,
    pub codex: Option<String>,
    pub gemini: Option<String>,
}

impl CommonConfigSnippets {
    /// The snippet of one client.
    pub fn get(&self, app: &AppType) -> (r: Option<&String>)
        ensures
            match r {
                Some(s) => self.spec_get(*app) == Some(s@),
                None => self.spec_get(*app) is None,
            },
    {
        let slot = match app {
            AppType::ClientA => &self.client_a,
            AppType::Codex => &self.codex,
            AppType::Gemini => &self.gemini,
        };
        match slot {
            Some(s) => Some(s),
            None => None,
        }
    }

    pub open spec fn spec_get(self, app: AppType) -> Option<Seq<char>> {
        let slot = match app {
            AppType::ClientA => self.client_a,
            AppType::Codex => self.codex,
            AppType::Gemini => self.gemini,
        };
        opt_view(slot)
    }

    /// Replace the snippet of one client; the other two are kept.
    pub fn set(&mut self, app: &AppType, snippet: Option<String>)
        ensures
            final(self).spec_get(*app) == opt_view(snippet),
            forall|other: AppType|
                other != *app ==> #[trigger] final(self).spec_get(other) == old(self).spec_get(
                    other,
                ),
    {
        match app {
            AppType::ClientA => {
                self.client_a = snippet;
            },
            AppType::Codex => {
                self.codex = snippet;
            },
            AppType::Gemini => {
                self.gemini = snippet;
            },
        }
    }
}

/// A client's live MCP file status, as the application reports it.
pub struct McpStatus {
    pub user_config_path: String,
    pub user_config_exists: bool,
    pub server_count: usize,
}

/// The whole persisted multi-client configuration.
pub struct MultiAppConfig {
    pub version: u32,
    pub apps: Vec<(String, crate::provider::ProviderManager)>,
    pub mcp: McpRoot,
    pub prompts: PromptRoot,
    pub skills: crate::skills::SkillStore,
    pub common_config_snippets: CommonConfigSnippets,
    pub client_a_common_config_snippet: Option<String>,
}

/// Pairwise-distinct ids among unified records.
pub open spec fn unified_wf(ss: Seq<McpServer>) -> bool {
    forall|i: int, j: int|
        0 <= i < j < ss.len() ==> (#[trigger] ss[i])@.id != (#[trigger] ss[j])@.id
}


/// Whether a legacy entry counts as enabled: an `enabled` boolean
/// when present, enabled otherwise.
pub open spec fn legacy_enabled(entry: crate::model::JVal) -> bool {
    match entry.get("enabled"@) {
        Some(crate::model::JVal::Bool(b)) => b,
        _ => true,
    }
}

/// The string elements of a legacy tags array.
pub open spec fn tag_strs(a: Seq<crate::model::JVal>) -> Seq<Seq<char>>
    decreases a.len(),
{
    if a.len() == 0 {
        Seq::empty()
    } else {
        tag_strs(a.drop_last()) + (match a.last() {
            crate::model::JVal::Str(s) => seq![s],
            _ => Seq::empty(),
        })
    }
}

/// The unified record a legacy entry becomes when its id is first
/// seen: the entry supplies the name, definition, descriptive fields
/// and tags, and only the originating client's flag carries the
/// entry's enabled state.
pub open spec fn legacy_record(id: Seq<char>, entry: crate::model::JVal, app: AppType)
    -> ServerView {
    ServerView {
        id: id,
        name: match entry.str_of("name"@) {
            Some(n) => n,
            None => id,
        },
        server: match entry.get("server"@) {
            Some(v) => v,
            None => crate::model::JVal::Obj(Seq::empty()),
        },
        apps: (McpApps { client_a: false, codex: false, gemini: false }).spec_set_enabled_for(
            app,
            legacy_enabled(entry),
        ),
        description: entry.str_of("description"@),
        homepage: entry.str_of("homepage"@),
        docs: entry.str_of("docs"@),
        tags: match entry.get("tags"@) {
            Some(crate::model::JVal::Arr(a)) => tag_strs(a),
            _ => Seq::empty(),
        },
    }
}

/// One step of the legacy merge: a known id only gets this client's
/// flag set to the entry's enabled state; a new id becomes a full
/// record.
pub open spec fn legacy_step(
    m: Map<Seq<char>, ServerView>,
    id: Seq<char>,
    entry: crate::model::JVal,
    app: AppType,
) -> Map<Seq<char>, ServerView> {
    if m.dom().contains(id) {
        m.insert(
            id,
            ServerView { apps: m[id].apps.spec_set_enabled_for(app, legacy_enabled(entry)), ..m[id] },
        )
    } else {
        m.insert(id, legacy_record(id, entry, app))
    }
}

pub open spec fn legacy_fold(
    m: Map<Seq<char>, ServerView>,
    entries: Seq<(Seq<char>, crate::model::JVal)>,
    app: AppType,
) -> Map<Seq<char>, ServerView>
    decreases entries.len(),
{
    if entries.len() == 0 {
        m
    } else {
        legacy_step(
            legacy_fold(m, entries.drop_last(), app),
            entries.last().0,
            entries.last().1,
            app,
        )
    }
}

/// The map the migrated store denotes.
pub open spec fn migrated_map(config: MultiAppConfig) -> Map<Seq<char>, ServerView> {
    legacy_fold(
        legacy_fold(
            legacy_fold(
                Map::empty(),
                crate::model::eview(config.mcp.client_a.servers@),
                AppType::ClientA,
            ),
            crate::model::eview(config.mcp.codex.servers@),
            AppType::Codex,
        ),
        crate::model::eview(config.mcp.gemini.servers@),
        AppType::Gemini,
    )
}

/// Whether a parsed configuration file is the unsupported first
/// layout: a providers object and a current string at top level, and
/// no apps key.
pub open spec fn is_v1_spec(v: crate::model::JVal) -> bool {
    &&& v is Obj
    &&& (match v.get("providers"@) {
        Some(p) => p is Obj,
        None => false,
    })
    &&& (match v.get("current"@) {
        Some(c) => c is Str,
        None => false,
    })
    &&& !crate::model::vobj_has(v.entries(), "apps"@)
}

/// Recognise the unsupported first configuration layout.
pub fn detect_v1(value: &crate::model::JsonVal) -> (r: bool)
    ensures
        r == is_v1_spec(value@),
{
    let entries = match value {
        crate::model::JsonVal::Obj(entries) => entries,
        _ => {
            return false;
        },
    };
    proof {
        crate::model::lemma_obj_entries(*entries);
    }
    let has_providers = match crate::model::obj_get(entries, "providers") {
        Some(crate::model::JsonVal::Obj(_)) => true,
        _ => false,
    };
    let has_current = match crate::model::obj_get(entries, "current") {
        Some(crate::model::JsonVal::Str(_)) => true,
        _ => false,
    };
    let mut has_apps = false;
    let mut i: usize = 0;
    while i < entries.len()
        invariant
            i <= entries@.len(),
            has_apps == exists|j: int| 0 <= j < i && (#[trigger] entries@[j]).0@ == "apps"@,
        decreases entries@.len() - i,
    {
        if strutil::str_eq(entries[i].0.as_str(), "apps") {
            has_apps = true;
        }
        i = i + 1;
    }
    proof {
        assert(forall|j: int|
            0 <= j < entries@.len() ==> (#[trigger] crate::model::eview(entries@)[j]).0
                == entries@[j].0@);
        crate::model::lemma_vobj_idx_range(crate::model::eview(entries@), "apps"@);
        if has_apps {
            let j = choose|j: int| 0 <= j < entries@.len() && (#[trigger] entries@[j]).0@
                == "apps"@;
            assert(crate::model::eview(entries@)[j].0 == "apps"@);
        } else {
            if crate::model::vobj_has(crate::model::eview(entries@), "apps"@) {
                let k = crate::model::vobj_idx(crate::model::eview(entries@), "apps"@);
                assert(entries@[k].0@ == "apps"@);
            }
        }
    }
    has_providers && has_current && !has_apps
}

impl MultiAppConfig {
    /// The legacy map of one client.
    pub fn mcp_for(&self, app: &AppType) -> (r: &McpConfig)
        ensures
            match *app {
                AppType::ClientA => r == &self.mcp.client_a,
                AppType::Codex => r == &self.mcp.codex,
                AppType::Gemini => r == &self.mcp.gemini,
            },
    {
        match app {
            AppType::ClientA => &self.mcp.client_a,
            AppType::Codex => &self.mcp.codex,
            AppType::Gemini => &self.mcp.gemini,
        }
    }

    /// Move the legacy per-client maps into the unified store: each
    /// id becomes one record, flagged for the clients whose maps
    /// listed it (an entry without an `enabled` boolean counts as
    /// enabled); the first client to mention an id supplies its
    /// definition and descriptive fields. A store already migrated is
    /// left alone and reported as such.
    pub fn migrate_mcp_to_unified(&mut self) -> (r: Result<bool, crate::errors::AppError>)
        ensures
            match r {
                Ok(migrated) => {
                    &&& migrated == (old(self).mcp.servers is None)
                    &&& final(self).mcp.servers is Some
                    &&& !migrated ==> *final(self) == *old(self)
                    &&& migrated ==> unified_wf((final(self).mcp.servers->Some_0)@)
                    &&& migrated ==> crate::sync::store_map(
                        crate::store::CanonicalStore { servers: final(self).mcp.servers->Some_0 },
                    ) == migrated_map(*old(self))
                    &&& migrated ==> final(self).mcp.client_a.servers@.len() == 0
                        && final(self).mcp.codex.servers@.len() == 0
                        && final(self).mcp.gemini.servers@.len() == 0
                },
                Err(_) => false,
            },
    {
        if self.mcp.servers.is_some() {
            proof {
                match self.mcp.servers {
                    Some(_) => {},
                    None => {
                        assert(false);
                    },
                }
            }
            return Ok(false);
        }
        let mut unified = crate::store::CanonicalStore::new();
        proof {
            assert(crate::sync::store_map(unified) =~= Map::<Seq<char>, ServerView>::empty());
        }
        merge_legacy(&mut unified, &self.mcp.client_a, &AppType::ClientA);
        merge_legacy(&mut unified, &self.mcp.codex, &AppType::Codex);
        merge_legacy(&mut unified, &self.mcp.gemini, &AppType::Gemini);
        self.mcp.servers = Some(unified.servers);
        self.mcp.client_a = McpConfig::new();
        self.mcp.codex = McpConfig::new();
        self.mcp.gemini = McpConfig::new();
        Ok(true)
    }
}

/// Whether one legacy entry counts as enabled.
fn legacy_enabled_exec(entry: &crate::model::JsonVal) -> (r: bool)
    ensures
        r == legacy_enabled(entry@),
{
    match entry {
        crate::model::JsonVal::Obj(obj_entries) => {
            proof {
                crate::model::lemma_obj_entries(*obj_entries);
            }
            match crate::model::obj_get(obj_entries, "enabled") {
                Some(crate::model::JsonVal::Bool(b)) => *b,
                _ => true,
            }
        },
        _ => true,
    }
}

/// Build the unified record for a first-seen legacy entry.
#[verifier::spinoff_prover]
#[verifier::rlimit(100)]
fn legacy_record_exec(id: &String, entry: &crate::model::JsonVal, app: &AppType) -> (r: McpServer)
    ensures
        r@ == legacy_record(id@, entry@, *app),
{
    let enabled = legacy_enabled_exec(entry);
    let mut apps = McpApps { client_a: false, codex: false, gemini: false };
    apps.set_enabled_for(app, enabled);
    match entry {
        crate::model::JsonVal::Obj(obj_entries) => {
            proof {
                crate::model::lemma_obj_entries(*obj_entries);
            }
            let name = match crate::model::obj_get(obj_entries, "name") {
                Some(crate::model::JsonVal::Str(s)) => s.clone(),
                _ => id.clone(),
            };
            let server = match crate::model::obj_get(obj_entries, "server") {
                Some(v) => v.clone(),
                None => {
                    let empty: Vec<(String, crate::model::JsonVal)> = Vec::new();
                    proof {
                        crate::model::lemma_obj_entries(empty);
                        assert(crate::model::eview(empty@) =~= Seq::<
                            (Seq<char>, crate::model::JVal),
                        >::empty());
                    }
                    crate::model::JsonVal::Obj(empty)
                },
            };
            let description = match crate::model::obj_get(obj_entries, "description") {
                Some(crate::model::JsonVal::Str(s)) => Some(s.clone()),
                _ => None,
            };
            let homepage = match crate::model::obj_get(obj_entries, "homepage") {
                Some(crate::model::JsonVal::Str(s)) => Some(s.clone()),
                _ => None,
            };
            let docs = match crate::model::obj_get(obj_entries, "docs") {
                Some(crate::model::JsonVal::Str(s)) => Some(s.clone()),
                _ => None,
            };
            let tags = match crate::model::obj_get(obj_entries, "tags") {
                Some(crate::model::JsonVal::Arr(items)) => {
                    proof {
                        crate::model::lemma_arr_elems(*items);
                    }
                    collect_tag_strs(items)
                },
                _ => Vec::new(),
            };
            let record = McpServer {
                id: id.clone(),
                name,
                server,
                apps,
                description,
                homepage,
                docs,
                tags,
            };
            proof {
                assert(crate::model::eview(Seq::<(String, crate::model::JsonVal)>::empty())
                    =~= Seq::<(Seq<char>, crate::model::JVal)>::empty());
                assert(tags_view(Seq::<String>::empty()) =~= Seq::<Seq<char>>::empty());
                let ghost whole = record@ == legacy_record(id@, entry@, *app);
                assert(whole);
            }
            record
        },
        _ => {
            let empty: Vec<(String, crate::model::JsonVal)> = Vec::new();
            proof {
                crate::model::lemma_obj_entries(empty);
                assert(crate::model::eview(empty@) =~= Seq::<
                    (Seq<char>, crate::model::JVal),
                >::empty());
                assert(tags_view(Seq::<String>::empty()) =~= Seq::<Seq<char>>::empty());
            }
            let record = McpServer {
                id: id.clone(),
                name: id.clone(),
                server: crate::model::JsonVal::Obj(empty),
                apps,
                description: None,
                homepage: None,
                docs: None,
                tags: Vec::new(),
            };
            record
        },
    }
}

/// Fold one legacy map into the unified store being built.
fn merge_legacy(unified: &mut crate::store::CanonicalStore, legacy: &McpConfig, app: &AppType)
    requires
        old(unified).wf(),
    ensures
        final(unified).wf(),
        crate::sync::store_map(*final(unified)) == legacy_fold(
            crate::sync::store_map(*old(unified)),
            crate::model::eview(legacy.servers@),
            *app,
        ),
{
    let ghost m0 = crate::sync::store_map(*old(unified));
    let ghost ev = crate::model::eview(legacy.servers@);
    let mut i: usize = 0;
    while i < legacy.servers.len()
        invariant
            unified.wf(),
            ev == crate::model::eview(legacy.servers@),
            legacy.servers@.len() == ev.len(),
            i <= ev.len(),
            crate::sync::store_map(*unified) == legacy_fold(m0, ev.take(i as int), *app),
        decreases legacy.servers@.len() - i,
    {
        let ghost pre = crate::sync::store_map(*unified);
        let id = &legacy.servers[i].0;
        let entry = &legacy.servers[i].1;
        proof {
            assert(ev[i as int].0 == id@);
            assert(ev[i as int].1 == crate::model::jview(*entry));
        }
        let enabled = legacy_enabled_exec(entry);
        match unified.apps_of(id.as_str()) {
            Some(_) => {
                unified.toggle_app(id.as_str(), app, enabled);
                proof {
                    assert(crate::sync::store_map(*unified) =~= legacy_step(
                        pre,
                        ev[i as int].0,
                        ev[i as int].1,
                        *app,
                    ));
                }
            },
            None => {
                let record = legacy_record_exec(id, entry, app);
                push_unique(unified, record);
                proof {
                    assert(crate::sync::store_map(*unified) =~= legacy_step(
                        pre,
                        ev[i as int].0,
                        ev[i as int].1,
                        *app,
                    ));
                }
            },
        }
        proof {
            assert(ev.take(i + 1).drop_last() =~= ev.take(i as int));
            assert(ev.take(i + 1).last() == ev[i as int]);
        }
        i = i + 1;
    }
    proof {
        assert(ev.take(ev.len() as int) =~= ev);
    }
}

/// Insert a record known to be new.
fn push_unique(unified: &mut crate::store::CanonicalStore, record: McpServer)
    requires
        old(unified).wf(),
        !old(unified).has(record@.id),
    ensures
        final(unified).wf(),
        final(unified).has(record@.id),
        final(unified).get(record@.id) == record@,
        forall|other: Seq<char>|
            other != record@.id ==> (#[trigger] final(unified).has(other)) == old(unified).has(
                other,
            ) && (final(unified).has(other) ==> final(unified).get(other) == old(unified).get(
                other,
            )),
{
    let ghost orig = unified.servers@;
    let ghost before = *unified;
    unified.servers.push(record);
    proof {
        assert forall|a: int, b: int|
            0 <= a < b < unified.servers@.len() implies (#[trigger] unified.servers@[a])@.id != (
        #[trigger] unified.servers@[b])@.id by {
            if b < orig.len() {
                assert(unified.servers@[a] == orig[a]);
                assert(unified.servers@[b] == orig[b]);
            } else {
                assert(unified.servers@[a] == orig[a]);
            }
        }
        crate::store::lemma_get_at(*unified, orig.len() as int);
        assert forall|other: Seq<char>| other != record@.id implies (#[trigger] unified.has(other))
            == before.has(other) && (unified.has(other) ==> unified.get(other) == before.get(
            other,
        )) by {
            crate::store::lemma_has_get_push(before, *unified, other);
        }
    }
}

/// The string elements of a tags array.
fn collect_tag_strs(items: &Vec<crate::model::JsonVal>) -> (r: Vec<String>)
    ensures
        tags_view(r@) == tag_strs(crate::model::aview(items@)),
{
    let ghost av = crate::model::aview(items@);
    let mut r: Vec<String> = Vec::new();
    let mut i: usize = 0;
    while i < items.len()
        invariant
            av == crate::model::aview(items@),
            i <= items@.len(),
            tags_view(r@) == tag_strs(av.take(i as int)),
        decreases items@.len() - i,
    {
        match &items[i] {
            crate::model::JsonVal::Str(s) => {
                r.push(s.clone());
            },
            _ => {},
        }
        proof {
            assert(av.take(i + 1).drop_last() =~= av.take(i as int));
            assert(av.take(i + 1).last() == av[i as int]);
            assert(tags_view(r@) =~= tag_strs(av.take(i + 1)));
        }
        i = i + 1;
    }
    proof {
        assert(av.take(av.len() as int) =~= av);
    }
    r
}

} // verus!

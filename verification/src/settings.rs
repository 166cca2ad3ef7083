//! Application settings: the in-memory store and its normalization
//! rules. Reading and writing the backing file or database row is the
//! surrounding application's work; it hands complete settings values
//! in and out.

use vstd::prelude::*;

use crate::strutil::{self, trim_spec};

verus! {

/// One remembered custom endpoint.
pub struct CustomEndpoint {
    pub url: String,
    pub added_at: i64,
    pub last_used: Option<i64>,
}

impl Clone for CustomEndpoint {
    /// Copy; the fields are preserved.
    fn clone(&self) -> (r: Self)
        ensures
            r.url@ == self.url@,
            r.added_at == self.added_at,
            r.last_used == self.last_used,
    {
        CustomEndpoint {
            url: self.url.clone(),
            added_at: self.added_at,
            last_used: self.last_used,
        }
    }
}

pub struct SecurityAuthSettings {
    pub selected_type: Option<String>,
}

pub struct SecuritySettings {
    pub auth: Option<SecurityAuthSettings>,
}

/// The application settings, with optional per-client directory
/// overrides.
pub struct AppSettings {
    pub show_in_tray: bool,
    pub minimize_to_tray_on_close: bool,
    pub enable_client_a_plugin_integration: bool,
    pub client_a_config_dir: Option<String>,
    pub codex_config_dir: Option<String>,
    pub gemini_config_dir: Option<String>,
    pub language: Option<String>,
    pub launch_on_startup: bool,
    pub security: Option<SecuritySettings>,
    pub custom_endpoints_client_a: Vec<(String, CustomEndpoint)>,
    pub custom_endpoints_codex: Vec<(String, CustomEndpoint)>,
}

pub fn default_show_in_tray() -> (r: bool)
    ensures
        r,
{
    true
}

pub fn default_minimize_to_tray_on_close() -> (r: bool)
    ensures
        r,
{
    true
}

impl Default for AppSettings {
    /// Tray shown and minimized-to on close; nothing else set.
    fn default() -> (r: Self)
        ensures
            r.show_in_tray && r.minimize_to_tray_on_close,
            !r.enable_client_a_plugin_integration && !r.launch_on_startup,
            r.client_a_config_dir is None && r.codex_config_dir is None && r.gemini_config_dir
                is None && r.language is None && r.security is None,
    {
        AppSettings {
            show_in_tray: true,
            minimize_to_tray_on_close: true,
            enable_client_a_plugin_integration: false,
            client_a_config_dir: None,
            codex_config_dir: None,
            gemini_config_dir: None,
            language: None,
            launch_on_startup: false,
            security: None,
            custom_endpoints_client_a: Vec::new(),
            custom_endpoints_codex: Vec::new(),
        }
    }
}

/// A path override survives normalization exactly when something
/// other than whitespace remains; the kept value is the trimmed text.
pub open spec fn norm_dir(o: Option<Seq<char>>) -> Option<Seq<char>> {
    match o {
        Some(s) => if trim_spec(s).len() > 0 {
            Some(trim_spec(s))
        } else {
            None
        },
        None => None,
    }
}

/// The language survives only as exactly `en` or `zh` after trimming.
pub open spec fn norm_lang(o: Option<Seq<char>>) -> Option<Seq<char>> {
    match o {
        Some(s) => if trim_spec(s) == "en"@ || trim_spec(s) == "zh"@ {
            Some(trim_spec(s))
        } else {
            None
        },
        None => None,
    }
}

fn norm_dir_exec(o: &Option<String>) -> (r: Option<String>)
    ensures
        crate::app_config::opt_view(r) == norm_dir(crate::app_config::opt_view(*o)),
{
    match o {
        Some(s) => {
            let t = strutil::trim_str(s.as_str());
            if t.as_str().is_empty() {
                None
            } else {
                Some(t)
            }
        },
        None => None,
    }
}

fn norm_lang_exec(o: &Option<String>) -> (r: Option<String>)
    ensures
        crate::app_config::opt_view(r) == norm_lang(crate::app_config::opt_view(*o)),
{
    match o {
        Some(s) => {
            let t = strutil::trim_str(s.as_str());
            if strutil::str_eq(t.as_str(), "en") || strutil::str_eq(t.as_str(), "zh") {
                Some(t)
            } else {
                None
            }
        },
        None => None,
    }
}

impl AppSettings {
    /// Blank directory overrides drop away, kept ones are trimmed,
    /// and the language must be one of the two supported tags.
    pub fn normalize_paths(&mut self)
        ensures
            crate::app_config::opt_view(final(self).client_a_config_dir) == norm_dir(
                crate::app_config::opt_view(old(self).client_a_config_dir),
            ),
            crate::app_config::opt_view(final(self).codex_config_dir) == norm_dir(
                crate::app_config::opt_view(old(self).codex_config_dir),
            ),
            crate::app_config::opt_view(final(self).gemini_config_dir) == norm_dir(
                crate::app_config::opt_view(old(self).gemini_config_dir),
            ),
            crate::app_config::opt_view(final(self).language) == norm_lang(
                crate::app_config::opt_view(old(self).language),
            ),
            final(self).show_in_tray == old(self).show_in_tray,
            final(self).minimize_to_tray_on_close == old(self).minimize_to_tray_on_close,
            final(self).launch_on_startup == old(self).launch_on_startup,
    {
        self.client_a_config_dir = norm_dir_exec(&self.client_a_config_dir);
        self.codex_config_dir = norm_dir_exec(&self.codex_config_dir);
        self.gemini_config_dir = norm_dir_exec(&self.gemini_config_dir);
        self.language = norm_lang_exec(&self.language);
    }

    /// The selected security auth type, when one is set.
    pub fn selected_auth_type(&self) -> (r: Option<&String>)
        ensures
            match r {
                Some(s) => self.spec_selected_auth() == Some(s@),
                None => self.spec_selected_auth() is None,
            },
    {
        match &self.security {
            Some(sec) => match &sec.auth {
                Some(auth) => match &auth.selected_type {
                    Some(t) => Some(t),
                    None => None,
                },
                None => None,
            },
            None => None,
        }
    }

    pub open spec fn spec_selected_auth(self) -> Option<Seq<char>> {
        match self.security {
            Some(sec) => match sec.auth {
                Some(auth) => match auth.selected_type {
                    Some(t) => Some(t@),
                    None => None,
                },
                None => None,
            },
            None => None,
        }
    }
}


/// Expand a leading `~` in an override path to the home directory:
/// `~` alone becomes home, `~/rest` and `~\rest` join onto it, and
/// anything else is kept as written.
pub open spec fn resolve_override_spec(raw: Seq<char>, home: Seq<char>) -> Seq<char> {
    if raw == "~"@ {
        home
    } else if strutil::starts_with_spec(raw, "~/"@) {
        home + "/"@ + raw.skip(2)
    } else if strutil::starts_with_spec(raw, "~\\"@) {
        home + "/"@ + raw.skip(2)
    } else {
        raw
    }
}

/// Expand a leading `~` in an override path to the home directory.
pub fn resolve_override_path(raw: &str, home: &str) -> (r: String)
    ensures
        r@ == resolve_override_spec(raw@, home@),
{
    let rc = strutil::str_chars(raw);
    let tilde = strutil::str_chars("~");
    if strutil::chars_eq(&rc, &tilde) {
        let hc = strutil::str_chars(home);
        return strutil::chars_string(&hc);
    }
    let slash_prefix = strutil::str_chars("~/");
    let back_prefix = strutil::str_chars("~\\");
    proof {
        reveal_strlit("~");
        reveal_strlit("~/");
        reveal_strlit("~\\");
        assert("~/"@.len() == 2);
        assert("~\\"@.len() == 2);
    }
    if strutil::chars_start_with(&rc, &slash_prefix) || strutil::chars_start_with(
        &rc,
        &back_prefix,
    ) {
        let mut out = strutil::str_chars(home);
        out.push('/');
        let mut i: usize = 2;
        let ghost base = out@;
        proof {
            assert(out@ =~= base + rc@.subrange(2, 2));
        }
        while i < rc.len()
            invariant
                2 <= i <= rc@.len(),
                out@ == base + rc@.subrange(2, i as int),
            decreases rc@.len() - i,
        {
            out.push(rc[i]);
            proof {
                assert(out@ =~= base + rc@.subrange(2, i + 1));
            }
            i = i + 1;
        }
        proof {
            reveal_strlit("/");
            assert("/"@.len() == 1);
            assert(out@ =~= home@ + "/"@ + raw@.skip(2));
        }
        return strutil::chars_string(&out);
    }
    strutil::chars_string(&rc)
}

/// The settings held in memory for the process, updated as a whole.
pub struct SettingsStore {
    pub current: AppSettings,
}

impl SettingsStore {
    /// Wrap loaded settings, normalized.
    pub fn load_initial_settings(mut loaded: AppSettings) -> (r: SettingsStore)
        ensures
            crate::app_config::opt_view(r.current.language) == norm_lang(
                crate::app_config::opt_view(loaded.language),
            ),
    {
        loaded.normalize_paths();
        SettingsStore { current: loaded }
    }

    /// The settings as currently held.
    pub fn get_settings(&self) -> (r: &AppSettings)
        ensures
            *r == self.current,
    {
        &self.current
    }

    /// Replace the settings with a normalized copy of the given ones.
    pub fn update_settings(&mut self, mut new_settings: AppSettings)
        ensures
            crate::app_config::opt_view(final(self).current.language) == norm_lang(
                crate::app_config::opt_view(new_settings.language),
            ),
            crate::app_config::opt_view(final(self).current.client_a_config_dir) == norm_dir(
                crate::app_config::opt_view(new_settings.client_a_config_dir),
            ),
    {
        new_settings.normalize_paths();
        self.current = new_settings;
    }

    /// Reload from freshly read settings, as after an import.
    pub fn reload_settings(&mut self, fresh: AppSettings)
        ensures
            crate::app_config::opt_view(final(self).current.language) == norm_lang(
                crate::app_config::opt_view(fresh.language),
            ),
    {
        let next = SettingsStore::load_initial_settings(fresh);
        self.current = next.current;
    }

    /// Make sure the selected security auth type is this one; report
    /// whether anything had to change. No other settings field moves.
    pub fn ensure_security_auth_selected_type(&mut self, selected_type: &str) -> (r: bool)
        ensures
            final(self).current.spec_selected_auth() == Some(selected_type@),
            r == !(old(self).current.spec_selected_auth() == Some(selected_type@)),
            !r ==> *final(self) == *old(self),
            final(self).current.show_in_tray == old(self).current.show_in_tray,
            final(self).current.minimize_to_tray_on_close == old(
                self,
            ).current.minimize_to_tray_on_close,
            final(self).current.enable_client_a_plugin_integration == old(
                self,
            ).current.enable_client_a_plugin_integration,
            final(self).current.client_a_config_dir == old(self).current.client_a_config_dir,
            final(self).current.codex_config_dir == old(self).current.codex_config_dir,
            final(self).current.gemini_config_dir == old(self).current.gemini_config_dir,
            final(self).current.language == old(self).current.language,
            final(self).current.launch_on_startup == old(self).current.launch_on_startup,
            final(self).current.custom_endpoints_client_a == old(
                self,
            ).current.custom_endpoints_client_a,
            final(self).current.custom_endpoints_codex == old(self).current.custom_endpoints_codex,
    {
        let already = match self.current.selected_auth_type() {
            Some(t) => strutil::str_eq(t.as_str(), selected_type),
            None => false,
        };
        if already {
            return false;
        }
        let cs = strutil::str_chars(selected_type);
        let owned = strutil::chars_string(&cs);
        self.current.security = Some(
            SecuritySettings { auth: Some(SecurityAuthSettings { selected_type: Some(owned) }) },
        );
        true
    }

    /// The trimmed client_a directory override, when one is set.
    pub fn get_client_a_override_dir(&self) -> (r: Option<&String>)
        ensures
            match r {
                Some(d) => crate::app_config::opt_view(self.current.client_a_config_dir) == Some(d@),
                None => self.current.client_a_config_dir is None,
            },
    {
        match &self.current.client_a_config_dir {
            Some(d) => Some(d),
            None => None,
        }
    }

    pub fn get_codex_override_dir(&self) -> (r: Option<&String>)
        ensures
            match r {
                Some(d) => crate::app_config::opt_view(self.current.codex_config_dir) == Some(d@),
                None => self.current.codex_config_dir is None,
            },
    {
        match &self.current.codex_config_dir {
            Some(d) => Some(d),
            None => None,
        }
    }

    pub fn get_gemini_override_dir(&self) -> (r: Option<&String>)
        ensures
            match r {
                Some(d) => crate::app_config::opt_view(self.current.gemini_config_dir) == Some(d@),
                None => self.current.gemini_config_dir is None,
            },
    {
        match &self.current.gemini_config_dir {
            Some(d) => Some(d),
            None => None,
        }
    }
}

} // verus!

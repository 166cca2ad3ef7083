//! Path resolution for the clients' and the application's own files.
//!
//! Paths are plain `/`-separated strings; the surrounding application
//! resolves the home directory and any configured override and passes
//! them in, and checks which files exist where a choice depends on it.

use vstd::prelude::*;

use crate::strutil::{self, trim_spec};

verus! {

/// The last `/`-separated segment of a directory path, trimmed; none
/// for a root-like path.
pub open spec fn file_name_spec(dir: Seq<char>) -> Seq<char> {
    let i = strutil::char_idx(dir.reverse(), '/');
    if i < 0 {
        trim_spec(dir)
    } else {
        trim_spec(dir.skip(dir.len() - i))
    }
}

/// The parent part, up to and without the last separator.
pub open spec fn parent_spec(dir: Seq<char>) -> Seq<char> {
    let i = strutil::char_idx(dir.reverse(), '/');
    if i < 0 {
        Seq::empty()
    } else {
        dir.take(dir.len() - i - 1)
    }
}

/// The sibling `<dir name>.json` of an override directory, when the
/// directory has a usable name.
pub open spec fn derive_spec(dir: Seq<char>) -> Option<Seq<char>> {
    let name = file_name_spec(dir);
    if name.len() == 0 {
        None
    } else {
        Some(join_spec(parent_spec(dir), name + ".json"@))
    }
}

/// Join a parent and a file name with one separator; a bare name for
/// an empty parent, and no doubled separator under a root parent.
pub open spec fn join_spec(parent: Seq<char>, name: Seq<char>) -> Seq<char> {
    if parent.len() == 0 {
        name
    } else if parent.last() == '/' {
        parent + name
    } else {
        parent + "/"@ + name
    }
}

/// Find the last separator of a path.
fn last_sep(cs: &Vec<char>) -> (r: Option<usize>)
    ensures
        match r {
            Some(i) => i < cs@.len() && cs@[i as int] == '/' && (forall|j: int|
                i < j < cs@.len() ==> cs@[j] != '/') && strutil::char_idx(cs@.reverse(), '/')
                == cs@.len() - 1 - i,
            None => strutil::char_idx(cs@.reverse(), '/') < 0,
        },
{
    let mut i: usize = cs.len();
    while i > 0
        invariant
            i <= cs@.len(),
            forall|j: int| i <= j < cs@.len() ==> cs@[j] != '/',
        decreases i,
    {
        i = i - 1;
        if cs[i] == '/' {
            proof {
                let rev = cs@.reverse();
                assert(rev[cs@.len() - 1 - i] == cs@[i as int]);
                assert forall|j: int| 0 <= j < cs@.len() - 1 - i implies rev[j] != '/' by {
                    assert(rev[j] == cs@[cs@.len() - 1 - j]);
                }
                strutil::lemma_char_idx_first(rev, '/', cs@.len() - 1 - i);
            }
            return Some(i);
        }
    }
    proof {
        let rev = cs@.reverse();
        strutil::lemma_char_idx(rev, '/');
        if strutil::char_idx(rev, '/') >= 0 {
            let k = strutil::char_idx(rev, '/');
            assert(rev[k] == cs@[cs@.len() - 1 - k]);
        }
    }
    None
}

/// Derive the live MCP file that sits beside an override directory:
/// the directory's own name plus a `.json` suffix, in the directory's
/// parent. A root-like or blank-named directory yields nothing.
pub fn derive_mcp_path_from_override(dir: &str) -> (r: Option<String>)
    ensures
        match r {
            Some(p) => derive_spec(dir@) == Some(p@),
            None => derive_spec(dir@) is None,
        },
{
    let cs = strutil::str_chars(dir);
    let sep = last_sep(&cs);
    let (parent, raw_name): (Vec<char>, Vec<char>) = match sep {
        Some(i) => {
            let mut p: Vec<char> = Vec::new();
            let mut k: usize = 0;
            while k < i
                invariant
                    k <= i < cs@.len(),
                    p@ == cs@.take(k as int),
                decreases i - k,
            {
                p.push(cs[k]);
                proof {
                    assert(p@ =~= cs@.take(k + 1));
                }
                k = k + 1;
            }
            let mut n: Vec<char> = Vec::new();
            let mut m: usize = i + 1;
            while m < cs.len()
                invariant
                    i < m <= cs@.len(),
                    n@ == cs@.subrange(i + 1, m as int),
                decreases cs@.len() - m,
            {
                n.push(cs[m]);
                proof {
                    assert(n@ =~= cs@.subrange(i + 1, m + 1));
                }
                m = m + 1;
            }
            (p, n)
        },
        None => {
            let mut n: Vec<char> = Vec::new();
            let mut m: usize = 0;
            while m < cs.len()
                invariant
                    m <= cs@.len(),
                    n@ == cs@.take(m as int),
                decreases cs@.len() - m,
            {
                n.push(cs[m]);
                proof {
                    assert(n@ =~= cs@.take(m + 1));
                }
                m = m + 1;
            }
            (Vec::new(), n)
        },
    };
    proof {
        match sep {
            Some(i) => {
                assert(raw_name@ =~= cs@.skip(i + 1));
                assert(cs@.skip(i + 1) =~= cs@.skip(
                    cs@.len() - strutil::char_idx(cs@.reverse(), '/'),
                ));
                assert(parent@ =~= parent_spec(cs@));
            },
            None => {
                assert(raw_name@ =~= cs@.take(cs@.len() as int));
                assert(raw_name@ =~= cs@);
            },
        }
    }
    let name = strutil::trim_chars(&raw_name);
    if name.len() == 0 {
        return None;
    }
    let mut full = name;
    let suffix = strutil::str_chars(".json");
    let mut s: usize = 0;
    while s < suffix.len()
        invariant
            s <= suffix@.len(),
            full@ == trim_spec(file_arg_spec(sep, cs@)) + suffix@.take(s as int),
            suffix@ == ".json"@,
        decreases suffix@.len() - s,
    {
        full.push(suffix[s]);
        proof {
            assert(full@ =~= trim_spec(file_arg_spec(sep, cs@)) + suffix@.take(s + 1));
        }
        s = s + 1;
    }
    proof {
        assert(suffix@.take(suffix@.len() as int) =~= suffix@);
    }
    let joined: String = if parent.len() == 0 {
        strutil::chars_string(&full)
    } else {
        let last = parent[parent.len() - 1];
        let mut out = parent;
        if last != '/' {
            out.push('/');
        }
        let mut f: usize = 0;
        let ghost base = out@;
        while f < full.len()
            invariant
                f <= full@.len(),
                out@ == base + full@.take(f as int),
            decreases full@.len() - f,
        {
            out.push(full[f]);
            proof {
                assert(out@ =~= base + full@.take(f + 1));
            }
            f = f + 1;
        }
        proof {
            assert(full@.take(full@.len() as int) =~= full@);
        }
        strutil::chars_string(&out)
    };
    proof {
        reveal_strlit("/");
        assert("/"@.len() == 1);
        assert(joined@ =~= join_spec(parent_spec(cs@), file_name_spec(cs@) + ".json"@));
    }
    Some(joined)
}

/// What the name was trimmed from, by branch.
pub open spec fn file_arg_spec(sep: Option<usize>, cs: Seq<char>) -> Seq<char> {
    match sep {
        Some(i) => cs.skip(i + 1),
        None => cs,
    }
}

/// Characters unsafe in a file name become `-`; ASCII letters are
/// lowered.
pub open spec fn sanitize_char(c: char) -> char {
    if c == '<' || c == '>' || c == ':' || c == '"' || c == '/' || c == '\\' || c == '|' || c == '?'
        || c == '*' {
        '-'
    } else {
        strutil::lower_char(c)
    }
}

pub open spec fn sanitize_spec(s: Seq<char>) -> Seq<char> {
    Seq::new(s.len(), |i: int| sanitize_char(s[i]))
}

/// Make a provider name safe for use in a file name.
pub fn sanitize_provider_name(name: &str) -> (r: String)
    ensures
        r@ == sanitize_spec(name@),
{
    let cs = strutil::str_chars(name);
    let mut out: Vec<char> = Vec::new();
    let mut i: usize = 0;
    while i < cs.len()
        invariant
            cs@ == name@,
            i <= cs@.len(),
            out@.len() == i,
            forall|j: int| 0 <= j < i ==> #[trigger] out@[j] == sanitize_char(cs@[j]),
        decreases cs@.len() - i,
    {
        let c = cs[i];
        if c == '<' || c == '>' || c == ':' || c == '"' || c == '/' || c == '\\' || c == '|' || c
            == '?' || c == '*' {
            out.push('-');
        } else if 'A' <= c && c <= 'Z' {
            out.push(((c as u8) + 32) as char);
        } else {
            out.push(c);
        }
        i = i + 1;
    }
    proof {
        assert(out@ =~= sanitize_spec(name@));
    }
    strutil::chars_string(&out)
}

/// Append one path segment under a directory.
fn join_under(dir: &str, name: &str) -> (r: String)
    ensures
        r@ == join_spec(dir@, name@),
{
    let cs = strutil::str_chars(dir);
    if cs.len() == 0 {
        let n = strutil::str_chars(name);
        return strutil::chars_string(&n);
    }
    let mut out = cs;
    if out[out.len() - 1] != '/' {
        out.push('/');
    }
    let n = strutil::str_chars(name);
    let ghost base = out@;
    let mut i: usize = 0;
    while i < n.len()
        invariant
            i <= n@.len(),
            out@ == base + n@.take(i as int),
        decreases n@.len() - i,
    {
        out.push(n[i]);
        proof {
            assert(out@ =~= base + n@.take(i + 1));
        }
        i = i + 1;
    }
    proof {
        reveal_strlit("/");
        assert("/"@.len() == 1);
        assert(n@.take(n@.len() as int) =~= n@);
        assert(out@ =~= join_spec(dir@, name@));
    }
    strutil::chars_string(&out)
}

/// The default live MCP file path under the home directory.
pub fn get_default_client_a_mcp_path(home: &str) -> (r: String)
    ensures
        r@ == join_spec(home@, ".client_a.json"@),
{
    join_under(home, ".client_a.json")
}

/// This client's configuration directory: the configured override
/// when one is set, the hidden directory under home otherwise.
pub fn get_client_a_config_dir(home: &str, override_dir: Option<&str>) -> (r: String)
    ensures
        match override_dir {
            Some(d) => r@ == d@,
            None => r@ == join_spec(home@, ".client_a"@),
        },
{
    match override_dir {
        Some(d) => {
            let cs = strutil::str_chars(d);
            strutil::chars_string(&cs)
        },
        None => join_under(home, ".client_a"),
    }
}

/// The live MCP file path: derived beside the override directory when
/// one is set and usable, the default under home otherwise.
pub fn get_client_a_mcp_path(home: &str, override_dir: Option<&str>) -> (r: String)
    ensures
        match override_dir {
            Some(d) => match derive_spec(d@) {
                Some(p) => r@ == p,
                None => r@ == join_spec(home@, ".client_a.json"@),
            },
            None => r@ == join_spec(home@, ".client_a.json"@),
        },
{
    if let Some(d) = override_dir {
        if let Some(p) = derive_mcp_path_from_override(d) {
            return p;
        }
    }
    get_default_client_a_mcp_path(home)
}

/// The main settings file inside the client's configuration
/// directory: the standard name when it exists or nothing exists yet,
/// the legacy name only while only the legacy file exists.
pub fn get_client_a_settings_path(dir: &str, settings_exists: bool, legacy_exists: bool) -> (r:
    String)
    ensures
        (settings_exists || !legacy_exists) ==> r@ == join_spec(dir@, "settings.json"@),
        (!settings_exists && legacy_exists) ==> r@ == join_spec(dir@, "client_a.json"@),
{
    if settings_exists {
        join_under(dir, "settings.json")
    } else if legacy_exists {
        join_under(dir, "client_a.json")
    } else {
        join_under(dir, "settings.json")
    }
}

/// The application's own configuration directory.
pub fn get_app_config_dir(home: &str, override_dir: Option<&str>) -> (r: String)
    ensures
        match override_dir {
            Some(d) => r@ == d@,
            None => r@ == join_spec(home@, ".cli-hub"@),
        },
{
    match override_dir {
        Some(d) => {
            let cs = strutil::str_chars(d);
            strutil::chars_string(&cs)
        },
        None => join_under(home, ".cli-hub"),
    }
}

/// The application's own configuration file.
pub fn get_app_config_path(home: &str, override_dir: Option<&str>) -> (r: String)
    ensures
        match override_dir {
            Some(d) => r@ == join_spec(d@, "config.json"@),
            None => r@ == join_spec(join_spec(home@, ".cli-hub"@), "config.json"@),
        },
{
    let dir = get_app_config_dir(home, override_dir);
    join_under(dir.as_str(), "config.json")
}

/// Where one provider's settings snapshot lives: a sanitized name
/// (the display name when given, the id otherwise) under the client's
/// configuration directory.
pub fn get_provider_config_path(client_a_dir: &str, provider_id: &str, provider_name: Option<&str>)
    -> (r: String)
    ensures
        ({
            let base = match provider_name {
                Some(n) => sanitize_spec(n@),
                None => sanitize_spec(provider_id@),
            };
            r@ == join_spec(client_a_dir@, "settings-"@ + base + ".json"@)
        }),
{
    let base = match provider_name {
        Some(n) => sanitize_provider_name(n),
        None => sanitize_provider_name(provider_id),
    };
    let mut file = "settings-".to_owned();
    file.append(base.as_str());
    file.append(".json");
    join_under(client_a_dir, file.as_str())
}

/// Whether the client's settings file is present, and where.
pub struct ConfigStatus {
    pub exists: bool,
    pub path: String,
}

/// Report the resolved settings path together with its existence, as
/// the surrounding application observed it.
pub fn get_client_a_config_status(settings_path: &str, exists: bool) -> (r: ConfigStatus)
    ensures
        r.exists == exists,
        r.path@ == settings_path@,
{
    let cs = strutil::str_chars(settings_path);
    ConfigStatus { exists: exists, path: strutil::chars_string(&cs) }
}

} // verus!

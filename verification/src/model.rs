//! The in-memory data model: password entries, groups, history snapshots,
//! and the application configuration, together with their mathematical
//! views.

use vstd::prelude::*;
use vstd::string::*;

verus! {

/// One prior snapshot of an entry's mutable text.
#[derive(Debug, Clone)]
pub struct PasswordHistory {
    pub timestamp: i64,
    pub password: Option<String>,
    pub username: Option<String>,
    pub notes: Option<String>,
}

#[verifier::ext_equal]
pub struct PasswordHistoryV {
    pub timestamp: i64,
    pub password: Option<Seq<char>>,
    pub username: Option<Seq<char>>,
    pub notes: Option<Seq<char>>,
}

pub open spec fn opt_str_view(o: Option<String>) -> Option<Seq<char>> {
    match o {
        Option::Some(s) => Option::Some(s@),
        Option::None => Option::None,
    }
}

pub open spec fn strs_views(v: Seq<String>) -> Seq<Seq<char>> {
    v.map_values(|s: String| s@)
}

pub open spec fn opt_strs_view(o: Option<Vec<String>>) -> Option<Seq<Seq<char>>> {
    match o {
        Option::Some(v) => Option::Some(strs_views(v@)),
        Option::None => Option::None,
    }
}

impl View for PasswordHistory {
    type V = PasswordHistoryV;

    open spec fn view(&self) -> PasswordHistoryV {
        PasswordHistoryV {
            timestamp: self.timestamp,
            password: opt_str_view(self.password),
            username: opt_str_view(self.username),
            notes: opt_str_view(self.notes),
        }
    }
}

/// One stored credential.  The identifier is globally unique and stable
/// across edits; `updated_at` never precedes `created_at` for entries the
/// engine itself stamps.
#[derive(Debug, Clone)]
pub struct PasswordEntry {
    pub id: String,
    pub title: String,
    pub username: String,
    pub password: String,
    pub url: Option<Vec<String>>,
    pub notes: String,
    pub totp_secret: Option<String>,
    pub icon_id: Option<String>,
    pub tags: Option<Vec<String>>,
    pub group_id: Option<String>,
    pub sort_order: Option<i64>,
    pub created_at: i64,
    pub updated_at: i64,
    pub history: Option<Vec<PasswordHistory>>,
}

#[verifier::ext_equal]
pub struct PasswordEntryV {
    pub id: Seq<char>,
    pub title: Seq<char>,
    pub username: Seq<char>,
    pub password: Seq<char>,
    pub url: Option<Seq<Seq<char>>>,
    pub notes: Seq<char>,
    pub totp_secret: Option<Seq<char>>,
    pub icon_id: Option<Seq<char>>,
    pub tags: Option<Seq<Seq<char>>>,
    pub group_id: Option<Seq<char>>,
    pub sort_order: Option<i64>,
    pub created_at: i64,
    pub updated_at: i64,
    pub history: Option<Seq<PasswordHistoryV>>,
}

pub open spec fn history_views(v: Seq<PasswordHistory>) -> Seq<PasswordHistoryV> {
    v.map_values(|h: PasswordHistory| h@)
}

pub open spec fn opt_history_view(o: Option<Vec<PasswordHistory>>) -> Option<
    Seq<PasswordHistoryV>,
> {
    match o {
        Option::Some(v) => Option::Some(history_views(v@)),
        Option::None => Option::None,
    }
}


impl View for PasswordEntry {
    type V = PasswordEntryV;

    open spec fn view(&self) -> PasswordEntryV {
        PasswordEntryV {
            id: self.id@,
            title: self.title@,
            username: self.username@,
            password: self.password@,
            url: opt_strs_view(self.url),
            notes: self.notes@,
            totp_secret: opt_str_view(self.totp_secret),
            icon_id: opt_str_view(self.icon_id),
            tags: opt_strs_view(self.tags),
            group_id: opt_str_view(self.group_id),
            sort_order: self.sort_order,
            created_at: self.created_at,
            updated_at: self.updated_at,
            history: opt_history_view(self.history),
        }
    }
}

/// One named group of entries.  Group identifiers are unique within a
/// vault.
#[derive(Debug, Clone)]
pub struct PasswordGroup {
    pub id: String,
    pub name: String,
    pub icon: String,
    pub color: Option<String>,
    pub sort_order: i64,
    pub created_at: i64,
}

#[verifier::ext_equal]
pub struct PasswordGroupV {
    pub id: Seq<char>,
    pub name: Seq<char>,
    pub icon: Seq<char>,
    pub color: Option<Seq<char>>,
    pub sort_order: i64,
    pub created_at: i64,
}

impl View for PasswordGroup {
    type V = PasswordGroupV;

    open spec fn view(&self) -> PasswordGroupV {
        PasswordGroupV {
            id: self.id@,
            name: self.name@,
            icon: self.icon@,
            color: opt_str_view(self.color),
            sort_order: self.sort_order,
            created_at: self.created_at,
        }
    }
}

// ------------------------------------------------------------------
// View-preserving duplication
// ------------------------------------------------------------------

pub fn clone_opt_string(o: &Option<String>) -> (r: Option<String>)
    ensures
        opt_str_view(r) == opt_str_view(*o),
{
    match o {
        Option::Some(s) => Option::Some(s.clone()),
        Option::None => Option::None,
    }
}

pub proof fn lemma_strs_views_push(a: Seq<String>, x: String)
    ensures
        strs_views(a.push(x)) == strs_views(a).push(x@),
{
    assert(strs_views(a.push(x)) =~= strs_views(a).push(x@));
}

pub fn clone_string_vec(v: &Vec<String>) -> (r: Vec<String>)
    ensures
        strs_views(r@) == strs_views(v@),
{
    let mut r: Vec<String> = Vec::new();
    let mut i: usize = 0;
    while i < v.len()
        invariant
            i <= v.len(),
            r@.len() == i,
            strs_views(r@) == strs_views(v@.take(i as int)),
        decreases v.len() - i,
    {
        let ghost old_rv = r@;
        let x = v[i].clone();
        proof {
            lemma_strs_views_push(old_rv, x);
            lemma_strs_views_push(v@.take(i as int), x);
            assert(v@.take(i + 1) =~= v@.take(i as int).push(v@[i as int]));
        }
        r.push(x);
        i = i + 1;
    }
    proof {
        assert(v@.take(v@.len() as int) =~= v@);
    }
    r
}

pub fn clone_opt_string_vec(o: &Option<Vec<String>>) -> (r: Option<Vec<String>>)
    ensures
        opt_strs_view(r) == opt_strs_view(*o),
{
    match o {
        Option::Some(v) => Option::Some(clone_string_vec(v)),
        Option::None => Option::None,
    }
}

impl PasswordHistory {
    /// A copy whose view is the same.
    pub fn duplicate(&self) -> (r: PasswordHistory)
        ensures
            r@ == self@,
    {
        PasswordHistory {
            timestamp: self.timestamp,
            password: clone_opt_string(&self.password),
            username: clone_opt_string(&self.username),
            notes: clone_opt_string(&self.notes),
        }
    }
}

pub proof fn lemma_history_views_push(a: Seq<PasswordHistory>, x: PasswordHistory)
    ensures
        history_views(a.push(x)) == history_views(a).push(x@),
{
    assert(history_views(a.push(x)) =~= history_views(a).push(x@));
}

pub fn clone_opt_history(o: &Option<Vec<PasswordHistory>>) -> (r: Option<Vec<PasswordHistory>>)
    ensures
        opt_history_view(r) == opt_history_view(*o),
{
    match o {
        Option::Some(v) => {
            let mut c: Vec<PasswordHistory> = Vec::new();
            let mut i: usize = 0;
            while i < v.len()
                invariant
                    i <= v.len(),
                    c@.len() == i,
                    history_views(c@) == history_views(v@.take(i as int)),
                decreases v.len() - i,
            {
                let ghost old_cv = c@;
                let x = v[i].duplicate();
                proof {
                    lemma_history_views_push(old_cv, x);
                    lemma_history_views_push(v@.take(i as int), x);
                    assert(v@.take(i + 1) =~= v@.take(i as int).push(v@[i as int]));
                    assert(x@ == v@[i as int]@);
                }
                c.push(x);
                i = i + 1;
            }
            proof {
                assert(v@.take(v@.len() as int) =~= v@);
            }
            Option::Some(c)
        },
        Option::None => Option::None,
    }
}

impl PasswordEntry {
    /// A copy whose view is the same.
    pub fn duplicate(&self) -> (r: PasswordEntry)
        ensures
            r@ == self@,
    {
        PasswordEntry {
            id: self.id.clone(),
            title: self.title.clone(),
            username: self.username.clone(),
            password: self.password.clone(),
            url: clone_opt_string_vec(&self.url),
            notes: self.notes.clone(),
            totp_secret: clone_opt_string(&self.totp_secret),
            icon_id: clone_opt_string(&self.icon_id),
            tags: clone_opt_string_vec(&self.tags),
            group_id: clone_opt_string(&self.group_id),
            sort_order: self.sort_order,
            created_at: self.created_at,
            updated_at: self.updated_at,
            history: clone_opt_history(&self.history),
        }
    }
}

impl PasswordGroup {
    /// A copy whose view is the same.
    pub fn duplicate(&self) -> (r: PasswordGroup)
        ensures
            r@ == self@,
    {
        PasswordGroup {
            id: self.id.clone(),
            name: self.name.clone(),
            icon: self.icon.clone(),
            color: clone_opt_string(&self.color),
            sort_order: self.sort_order,
            created_at: self.created_at,
        }
    }
}

// ------------------------------------------------------------------
// Application configuration
// ------------------------------------------------------------------

/// The application-level settings the engine is handed.  An unparsable
/// stored configuration falls back to these defaults at the boundary.
#[derive(Debug, Clone)]
pub struct AppConfig {
    pub db_path: Option<String>,
    pub theme: Option<String>,
    pub language: Option<String>,
    pub auto_lock_timeout: Option<u64>,
}

#[verifier::ext_equal]
pub struct AppConfigV {
    pub db_path: Option<Seq<char>>,
    pub theme: Option<Seq<char>>,
    pub language: Option<Seq<char>>,
    pub auto_lock_timeout: Option<u64>,
}

impl View for AppConfig {
    type V = AppConfigV;

    open spec fn view(&self) -> AppConfigV {
        AppConfigV {
            db_path: opt_str_view(self.db_path),
            theme: opt_str_view(self.theme),
            language: opt_str_view(self.language),
            auto_lock_timeout: self.auto_lock_timeout,
        }
    }
}

impl Default for AppConfig {
    /// No stored database path, the default theme, the default language,
    /// and auto-lock disabled.
    fn default() -> (r: AppConfig)
        ensures
            r@.db_path is None,
            r@.theme == Option::Some("default"@),
            r@.language == Option::Some("zh-CN"@),
            r@.auto_lock_timeout == Option::Some(0u64),
    {
        AppConfig {
            db_path: Option::None,
            theme: Option::Some(String::from_str("default")),
            language: Option::Some(String::from_str("zh-CN")),
            auto_lock_timeout: Option::Some(0),
        }
    }
}

impl AppConfig {
    /// A copy whose view is the same.
    pub fn duplicate(&self) -> (r: AppConfig)
        ensures
            r@ == self@,
    {
        AppConfig {
            db_path: clone_opt_string(&self.db_path),
            theme: clone_opt_string(&self.theme),
            language: clone_opt_string(&self.language),
            auto_lock_timeout: self.auto_lock_timeout,
        }
    }
}

/// Remembers where the configuration document lives.
#[derive(Debug, Clone)]
pub struct ConfigManager {
    pub config_path: String,
}

impl ConfigManager {
    /// A manager for the configuration document at `config_path`.
    pub fn new(config_path: String) -> (r: ConfigManager)
        ensures
            r.config_path@ == config_path@,
    {
        ConfigManager { config_path }
    }

    /// The path of the configuration document.
    pub fn get_config_path(&self) -> (r: String)
        ensures
            r@ == self.config_path@,
    {
        self.config_path.clone()
    }
}

pub open spec fn entry_views(v: Seq<PasswordEntry>) -> Seq<PasswordEntryV> {
    v.map_values(|e: PasswordEntry| e@)
}

pub open spec fn group_views(v: Seq<PasswordGroup>) -> Seq<PasswordGroupV> {
    v.map_values(|g: PasswordGroup| g@)
}

} // verus!

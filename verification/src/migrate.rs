//! Migration of the legacy JSON storage layout into a fresh vault.  The
//! legacy shapes tolerate absent optional fields; every legacy entry is
//! re-homed into its resolved group, falling back to the root when the
//! referenced group is unknown or absent.

use vstd::prelude::*;
use vstd::string::*;
use crate::errors::VaultError;
use crate::crypto::{decrypt_legacy_data, derive_legacy_key, legacy_decrypt_result, legacy_salt};
use crate::crypto::argon2_of;
use crate::model::{
    clone_opt_string, clone_opt_string_vec, opt_str_view, opt_strs_view, strs_views,
    PasswordEntry, PasswordEntryV, PasswordGroup, PasswordGroupV,
};
use crate::record::string_eq_str;
use crate::vault::{wf, Vault};

verus! {

/// A group as an older export wrote it: decorative fields may be absent.
#[derive(Debug)]
pub struct LegacyPasswordGroup {
    pub id: String,
    pub name: String,
    pub icon: Option<String>,
    pub color: Option<String>,
    pub sort_order: Option<i64>,
    pub created_at: Option<i64>,
}

#[verifier::ext_equal]
pub struct LegacyPasswordGroupV {
    pub id: Seq<char>,
    pub name: Seq<char>,
    pub icon: Option<Seq<char>>,
    pub color: Option<Seq<char>>,
    pub sort_order: Option<i64>,
    pub created_at: Option<i64>,
}

impl View for LegacyPasswordGroup {
    type V = LegacyPasswordGroupV;

    open spec fn view(&self) -> LegacyPasswordGroupV {
        LegacyPasswordGroupV {
            id: self.id@,
            name: self.name@,
            icon: opt_str_view(self.icon),
            color: opt_str_view(self.color),
            sort_order: self.sort_order,
            created_at: self.created_at,
        }
    }
}

/// An entry as an older export wrote it.
#[derive(Debug)]
pub struct LegacyPasswordEntry {
    pub id: String,
    pub title: String,
    pub username: String,
    pub password: String,
    pub url: Option<Vec<String>>,
    pub notes: Option<String>,
    pub totp_secret: Option<String>,
    pub tags: Option<Vec<String>>,
    pub group_id: Option<String>,
    pub sort_order: Option<i64>,
    pub created_at: Option<i64>,
    pub updated_at: Option<i64>,
}

#[verifier::ext_equal]
pub struct LegacyPasswordEntryV {
    pub id: Seq<char>,
    pub title: Seq<char>,
    pub username: Seq<char>,
    pub password: Seq<char>,
    pub url: Option<Seq<Seq<char>>>,
    pub notes: Option<Seq<char>>,
    pub totp_secret: Option<Seq<char>>,
    pub tags: Option<Seq<Seq<char>>>,
    pub group_id: Option<Seq<char>>,
    pub sort_order: Option<i64>,
    pub created_at: Option<i64>,
    pub updated_at: Option<i64>,
}

impl View for LegacyPasswordEntry {
    type V = LegacyPasswordEntryV;

    open spec fn view(&self) -> LegacyPasswordEntryV {
        LegacyPasswordEntryV {
            id: self.id@,
            title: self.title@,
            username: self.username@,
            password: self.password@,
            url: opt_strs_view(self.url),
            notes: opt_str_view(self.notes),
            totp_secret: opt_str_view(self.totp_secret),
            tags: opt_strs_view(self.tags),
            group_id: opt_str_view(self.group_id),
            sort_order: self.sort_order,
            created_at: self.created_at,
            updated_at: self.updated_at,
        }
    }
}

/// A whole parsed legacy file: its groups and entries.
#[derive(Debug)]
pub struct LegacyDocument {
    pub groups: Vec<LegacyPasswordGroup>,
    pub entries: Vec<LegacyPasswordEntry>,
}

/// A migrated group: absent decorative fields become the defaults, an
/// absent creation time becomes `now`.
pub open spec fn group_from_legacy(g: LegacyPasswordGroupV, now: i64) -> PasswordGroupV {
    PasswordGroupV {
        id: g.id,
        name: g.name,
        icon: match g.icon {
            Option::Some(ic) => ic,
            Option::None => "📁"@,
        },
        color: g.color,
        sort_order: match g.sort_order {
            Option::Some(n) => n,
            Option::None => 0,
        },
        created_at: match g.created_at {
            Option::Some(t) => t,
            Option::None => now,
        },
    }
}

pub open spec fn legacy_has_group(gs: Seq<LegacyPasswordGroupV>, id: Seq<char>) -> bool {
    exists|i: int| 0 <= i < gs.len() && (#[trigger] gs[i]).id == id
}

/// A migrated entry: absent text becomes empty, absent times become
/// `now`, no icon or history carries over, and the group reference is
/// kept exactly when it names a migrated group.
pub open spec fn entry_from_legacy(
    e: LegacyPasswordEntryV,
    gs: Seq<LegacyPasswordGroupV>,
    now: i64,
) -> PasswordEntryV {
    PasswordEntryV {
        id: e.id,
        title: e.title,
        username: e.username,
        password: e.password,
        url: e.url,
        notes: match e.notes {
            Option::Some(n) => n,
            Option::None => Seq::<char>::empty(),
        },
        totp_secret: e.totp_secret,
        icon_id: Option::None,
        tags: e.tags,
        group_id: match e.group_id {
            Option::Some(g) => if legacy_has_group(gs, g) {
                Option::Some(g)
            } else {
                Option::None
            },
            Option::None => Option::None,
        },
        sort_order: e.sort_order,
        created_at: match e.created_at {
            Option::Some(t) => t,
            Option::None => now,
        },
        updated_at: match e.updated_at {
            Option::Some(t) => t,
            Option::None => now,
        },
        history: Option::None,
    }
}

pub open spec fn legacy_group_views(v: Seq<LegacyPasswordGroup>) -> Seq<LegacyPasswordGroupV> {
    v.map_values(|g: LegacyPasswordGroup| g@)
}

fn legacy_find_group(gs: &Vec<LegacyPasswordGroup>, id: &str) -> (r: bool)
    ensures
        r == legacy_has_group(legacy_group_views(gs@), id@),
{
    let ghost gv = legacy_group_views(gs@);
    let mut i: usize = 0;
    while i < gs.len()
        invariant
            i <= gs@.len(),
            gv == legacy_group_views(gs@),
            forall|j: int| 0 <= j < i ==> (#[trigger] gv[j]).id != id@,
        decreases gs@.len() - i,
    {
        if string_eq_str(&gs[i].id, id) {
            assert(gv[i as int].id == id@);
            return true;
        }
        i = i + 1;
    }
    false
}

/// Rebuilds a vault from a parsed legacy document: exactly one group per
/// legacy group and one entry per legacy entry, every entry re-homed into
/// its resolved group or the root.  When the legacy identifiers are
/// unique, the result is a well-formed vault.
pub fn migrate_tree(doc: &LegacyDocument, now: i64) -> (v: Vault)
    ensures
        v@.groups.len() == doc.groups@.len(),
        forall|i: int|
            0 <= i < doc.groups@.len() ==> v@.groups[i] == group_from_legacy(
                (#[trigger] doc.groups@[i])@,
                now,
            ),
        v@.entries.len() == doc.entries@.len(),
        forall|i: int|
            0 <= i < doc.entries@.len() ==> v@.entries[i] == entry_from_legacy(
                (#[trigger] doc.entries@[i])@,
                legacy_group_views(doc.groups@),
                now,
            ),
        ({
            let gv = v@.groups;
            let ev = v@.entries;
            ((forall|i: int, j: int|
                0 <= i < j < gv.len() ==> (#[trigger] gv[i]).id != (#[trigger] gv[j]).id)
                && (forall|i: int, j: int|
                0 <= i < j < ev.len() ==> (#[trigger] ev[i]).id != (#[trigger] ev[j]).id)) ==> wf(
                v@,
            )
        }),
{
    let ghost lgv = legacy_group_views(doc.groups@);
    let mut groups: Vec<PasswordGroup> = Vec::new();
    let mut i: usize = 0;
    while i < doc.groups.len()
        invariant
            i <= doc.groups@.len(),
            groups@.len() == i,
            forall|j: int|
                0 <= j < i ==> (#[trigger] groups@[j])@ == group_from_legacy(
                    doc.groups@[j]@,
                    now,
                ),
        decreases doc.groups@.len() - i,
    {
        let lg = &doc.groups[i];
        let g = PasswordGroup {
            id: lg.id.clone(),
            name: lg.name.clone(),
            icon: match &lg.icon {
                Option::Some(ic) => ic.clone(),
                Option::None => String::from_str("📁"),
            },
            color: clone_opt_string(&lg.color),
            sort_order: match lg.sort_order {
                Option::Some(n) => n,
                Option::None => 0,
            },
            created_at: match lg.created_at {
                Option::Some(t) => t,
                Option::None => now,
            },
        };
        groups.push(g);
        i = i + 1;
    }
    let mut entries: Vec<PasswordEntry> = Vec::new();
    let mut j: usize = 0;
    while j < doc.entries.len()
        invariant
            j <= doc.entries@.len(),
            entries@.len() == j,
            lgv == legacy_group_views(doc.groups@),
            forall|t: int|
                0 <= t < j ==> (#[trigger] entries@[t])@ == entry_from_legacy(
                    doc.entries@[t]@,
                    lgv,
                    now,
                ),
        decreases doc.entries@.len() - j,
    {
        let le = &doc.entries[j];
        let resolved: Option<String> = match &le.group_id {
            Option::Some(g) => if legacy_find_group(&doc.groups, g.as_str()) {
                Option::Some(g.clone())
            } else {
                Option::None
            },
            Option::None => Option::None,
        };
        let e = PasswordEntry {
            id: le.id.clone(),
            title: le.title.clone(),
            username: le.username.clone(),
            password: le.password.clone(),
            url: clone_opt_string_vec(&le.url),
            notes: match &le.notes {
                Option::Some(n) => n.clone(),
                Option::None => String::new(),
            },
            totp_secret: clone_opt_string(&le.totp_secret),
            icon_id: Option::None,
            tags: clone_opt_string_vec(&le.tags),
            group_id: resolved,
            sort_order: le.sort_order,
            created_at: match le.created_at {
                Option::Some(t) => t,
                Option::None => now,
            },
            updated_at: match le.updated_at {
                Option::Some(t) => t,
                Option::None => now,
            },
            history: Option::None,
        };
        proof {
            assert(e@ =~~= entry_from_legacy(doc.entries@[j as int]@, lgv, now));
        }
        entries.push(e);
        j = j + 1;
    }
    let v = Vault { groups, entries };
    proof {
        let gv = v@.groups;
        let ev = v@.entries;
        if (forall|a: int, b: int|
            0 <= a < b < gv.len() ==> (#[trigger] gv[a]).id != (#[trigger] gv[b]).id) && (
        forall|a: int, b: int|
            0 <= a < b < ev.len() ==> (#[trigger] ev[a]).id != (#[trigger] ev[b]).id) {
            assert forall|t: int|
                0 <= t < ev.len() && (#[trigger] ev[t]).group_id is Some implies
                crate::vault::has_group(v@, ev[t].group_id->0) by {
                let g = ev[t].group_id->0;
                assert(legacy_has_group(lgv, g));
                let w = choose|w: int| 0 <= w < lgv.len() && (#[trigger] lgv[w]).id == g;
                assert(gv[w].id == g);
            }
        }
    }
    v
}

/// The shape decision on a legacy file: content carrying an encrypted
/// blob must also carry its nonce and is decrypted; anything else is
/// already-plaintext content.
pub fn resolve_legacy_envelope(encrypted_data: Option<String>, nonce: Option<String>) -> (r:
    Result<Option<(String, String)>, VaultError>)
    ensures
        encrypted_data is None ==> (r matches Ok(o) && o is None),
        (encrypted_data is Some && nonce is Some) ==> (r matches Ok(o) && o matches Some(p)
            && p.0@ == encrypted_data->0@ && p.1@ == nonce->0@),
        encrypted_data is Some && nonce is None ==> r == Result::<
            Option<(String, String)>,
            VaultError,
        >::Err(VaultError::MissingNonce),
{
    match encrypted_data {
        Option::Some(d) => match nonce {
            Option::Some(n) => Result::Ok(Option::Some((d, n))),
            Option::None => Result::Err(VaultError::MissingNonce),
        },
        Option::None => Result::Ok(Option::None),
    }
}

/// Decrypts the encrypted blob of a legacy file with the key derived
/// from the master passphrase.
pub fn decrypt_legacy_envelope(encrypted: &str, nonce: &str, master_password: &str) -> (r: Result<
    String,
    VaultError,
>)
    requires
        master_password@.len() <= 0x3fff_ffff,
    ensures
        ({
            let key = argon2_of(
                vstd::utf8::encode_utf8(master_password@),
                vstd::utf8::encode_utf8(legacy_salt()),
            );
            match r {
                Result::Ok(s) => legacy_decrypt_result(encrypted@, nonce@, key) == Result::<
                    Seq<char>,
                    VaultError,
                >::Ok(s@),
                Result::Err(e) => legacy_decrypt_result(encrypted@, nonce@, key) == Result::<
                    Seq<char>,
                    VaultError,
                >::Err(e),
            }
        }),
{
    let key = derive_legacy_key(master_password);
    decrypt_legacy_data(encrypted, nonce, key.as_slice())
}

/// Whether a migration is due: the current container is absent while the
/// legacy file is present.
pub fn should_migrate(container_exists: bool, legacy_exists: bool) -> (r: bool)
    ensures
        r == (!container_exists && legacy_exists),
{
    !container_exists && legacy_exists
}

} // verus!

//! The container codec: the lossless mapping between the entry/group model
//! and the record shape of the container format.  Data with no first-class
//! slot in a record — the one-time-password secret, the icon marker, extra
//! URLs, tags, and the explicit sort key — travels in named custom fields;
//! every write of such a field removes any prior field of that name first.
//! Reading substitutes the current time for the creation and update
//! timestamps and default decorative metadata for groups: the documented
//! lossy fields of the format.

use vstd::prelude::*;
use vstd::string::*;
use crate::model::{
    clone_opt_string, opt_str_view, strs_views, PasswordEntry, PasswordEntryV, PasswordGroup,
    PasswordGroupV,
};
use crate::model::lemma_strs_views_push;
use crate::record::{
    fields_views, lookup_field, string_eq_str, without_key, Container, ContainerV, FieldKv,
    GroupRecord, GroupRecordV, Record, RecordV,
};
use crate::record::{lemma_without_key_absent, lemma_lookup_push};
use crate::strutil::{clean_parts, clean_split, join_parts, join_with};
use crate::numtext::{dec_str_i64, i64_to_string, lemma_parse_of_dec_str, parse_i64, spec_parse_i64};

verus! {

pub open spec fn k_totp() -> Seq<char> {
    "TimeOtp-Secret-Base32"@
}

pub open spec fn k_totp_legacy() -> Seq<char> {
    "TOTP_SECRET"@
}

pub open spec fn k_icon() -> Seq<char> {
    "IconId"@
}

pub open spec fn k_addurls() -> Seq<char> {
    "AdditionalURLs"@
}

pub open spec fn k_notes() -> Seq<char> {
    "Notes"@
}

pub open spec fn k_sort() -> Seq<char> {
    "SORT_ORDER"@
}

pub open spec fn k_tags() -> Seq<char> {
    "Tags"@
}

/// The seven key names are pairwise distinct.
pub proof fn lemma_keys_distinct()
    ensures
        k_totp().len() == 21,
        k_totp_legacy().len() == 11,
        k_icon().len() == 6,
        k_addurls().len() == 14,
        k_notes().len() == 5,
        k_sort().len() == 10,
        k_tags().len() == 4,
{
    reveal_strlit("TimeOtp-Secret-Base32");
    reveal_strlit("TOTP_SECRET");
    reveal_strlit("IconId");
    reveal_strlit("AdditionalURLs");
    reveal_strlit("Notes");
    reveal_strlit("SORT_ORDER");
    reveal_strlit("Tags");
}

// ------------------------------------------------------------------
// Entry -> record
// ------------------------------------------------------------------

pub open spec fn step_totp(e: PasswordEntryV) -> Seq<(Seq<char>, Seq<char>)> {
    match e.totp_secret {
        Option::Some(t) => Seq::<(Seq<char>, Seq<char>)>::empty().push((k_totp(), t)),
        Option::None => Seq::<(Seq<char>, Seq<char>)>::empty(),
    }
}

pub open spec fn step_icon(e: PasswordEntryV) -> Seq<(Seq<char>, Seq<char>)> {
    match e.icon_id {
        Option::Some(ic) => step_totp(e).push((k_icon(), ic)),
        Option::None => step_totp(e),
    }
}

pub open spec fn step_addurls(e: PasswordEntryV) -> Seq<(Seq<char>, Seq<char>)> {
    match e.url {
        Option::Some(us) => if us.len() > 1 {
            step_icon(e).push((k_addurls(), join_parts(us.drop_first(), '\n')))
        } else {
            step_icon(e)
        },
        Option::None => step_icon(e),
    }
}

pub open spec fn step_notes(e: PasswordEntryV) -> Seq<(Seq<char>, Seq<char>)> {
    if e.notes.len() > 0 {
        step_addurls(e).push((k_notes(), e.notes))
    } else {
        step_addurls(e)
    }
}

pub open spec fn step_sort(e: PasswordEntryV) -> Seq<(Seq<char>, Seq<char>)> {
    match e.sort_order {
        Option::Some(n) => step_notes(e).push((k_sort(), dec_str_i64(n as int))),
        Option::None => step_notes(e),
    }
}

/// The custom fields a record carries for the entry, in writing order.
pub open spec fn fields_of_entry(e: PasswordEntryV) -> Seq<(Seq<char>, Seq<char>)> {
    match e.tags {
        Option::Some(ts) => if ts.len() > 0 {
            step_sort(e).push((k_tags(), join_parts(ts, ',')))
        } else {
            step_sort(e)
        },
        Option::None => step_sort(e),
    }
}

/// The record the codec writes for an entry.
pub open spec fn record_of_entry(e: PasswordEntryV) -> RecordV {
    RecordV {
        uuid: e.id,
        title: e.title,
        username: e.username,
        password: e.password,
        url: match e.url {
            Option::Some(us) => if us.len() > 0 {
                us[0]
            } else {
                Seq::<char>::empty()
            },
            Option::None => Seq::<char>::empty(),
        },
        fields: fields_of_entry(e),
        group_uuid: e.group_id,
    }
}

/// Maps an entry to its container record.
pub fn entry_to_record(e: &PasswordEntry) -> (r: Record)
    ensures
        r@ == record_of_entry(e@),
{
    proof {
        lemma_keys_distinct();
    }
    let url: String = match &e.url {
        Option::Some(us) => if us.len() > 0 {
            us[0].clone()
        } else {
            String::new()
        },
        Option::None => String::new(),
    };
    let mut r = Record {
        uuid: e.id.clone(),
        title: e.title.clone(),
        username: e.username.clone(),
        password: e.password.clone(),
        url,
        fields: Vec::new(),
        group_uuid: clone_opt_string(&e.group_id),
    };
    proof {
        assert(fields_views(r.fields@) =~= Seq::<(Seq<char>, Seq<char>)>::empty());
    }
    // One-time-password secret: drop the legacy name, then overwrite the
    // standard name.
    r.remove_field("TOTP_SECRET");
    proof {
        lemma_without_key_absent(Seq::<(Seq<char>, Seq<char>)>::empty(), k_totp_legacy());
    }
    r.remove_field("TimeOtp-Secret-Base32");
    proof {
        lemma_without_key_absent(Seq::<(Seq<char>, Seq<char>)>::empty(), k_totp());
    }
    match &e.totp_secret {
        Option::Some(t) => {
            proof {
                lemma_without_key_absent(r@.fields, k_totp());
            }
            r.set_field("TimeOtp-Secret-Base32", t.clone());
        },
        Option::None => {},
    }
    assert(r@.fields == step_totp(e@));
    // Icon marker.
    proof {
        assert(forall|i: int|
            0 <= i < r@.fields.len() ==> (#[trigger] r@.fields[i]).0 != k_icon());
        lemma_without_key_absent(r@.fields, k_icon());
    }
    r.remove_field("IconId");
    match &e.icon_id {
        Option::Some(ic) => {
            proof {
                lemma_without_key_absent(r@.fields, k_icon());
            }
            r.set_field("IconId", ic.clone());
        },
        Option::None => {},
    }
    assert(r@.fields == step_icon(e@));
    // Extra URLs beyond the first, newline-joined.
    proof {
        assert(forall|i: int|
            0 <= i < r@.fields.len() ==> (#[trigger] r@.fields[i]).0 != k_addurls());
        lemma_without_key_absent(r@.fields, k_addurls());
    }
    r.remove_field("AdditionalURLs");
    match &e.url {
        Option::Some(us) => {
            if us.len() > 1 {
                let mut rest: Vec<String> = Vec::new();
                let mut i: usize = 1;
                while i < us.len()
                    invariant
                        1 <= i <= us@.len(),
                        rest@.len() == i - 1,
                        strs_views(rest@) == strs_views(us@).subrange(1, i as int),
                    decreases us@.len() - i,
                {
                    let ghost old_rest = rest@;
                    let x = us[i].clone();
                    proof {
                        lemma_strs_views_push(old_rest, x);
                        assert(strs_views(us@).subrange(1, i + 1) =~= strs_views(
                            us@,
                        ).subrange(1, i as int).push(strs_views(us@)[i as int]));
                    }
                    rest.push(x);
                    i = i + 1;
                }
                let joined = join_with(&rest, '\n');
                proof {
                    assert(strs_views(us@).subrange(1, us@.len() as int) =~= strs_views(
                        us@,
                    ).drop_first());
                    lemma_without_key_absent(r@.fields, k_addurls());
                }
                r.set_field("AdditionalURLs", joined);
            }
        },
        Option::None => {},
    }
    assert(r@.fields == step_addurls(e@));
    // Notes.
    proof {
        assert(forall|i: int|
            0 <= i < r@.fields.len() ==> (#[trigger] r@.fields[i]).0 != k_notes());
        lemma_without_key_absent(r@.fields, k_notes());
    }
    r.remove_field("Notes");
    if e.notes.as_str().unicode_len() > 0 {
        proof {
            lemma_without_key_absent(r@.fields, k_notes());
        }
        r.set_field("Notes", e.notes.clone());
    }
    assert(r@.fields == step_notes(e@));
    // Explicit sort key.
    proof {
        assert(forall|i: int|
            0 <= i < r@.fields.len() ==> (#[trigger] r@.fields[i]).0 != k_sort());
        lemma_without_key_absent(r@.fields, k_sort());
    }
    r.remove_field("SORT_ORDER");
    match e.sort_order {
        Option::Some(n) => {
            proof {
                lemma_without_key_absent(r@.fields, k_sort());
            }
            r.set_field("SORT_ORDER", i64_to_string(n));
        },
        Option::None => {},
    }
    assert(r@.fields == step_sort(e@));
    // Tags, comma-joined.
    proof {
        assert(forall|i: int|
            0 <= i < r@.fields.len() ==> (#[trigger] r@.fields[i]).0 != k_tags());
        lemma_without_key_absent(r@.fields, k_tags());
    }
    r.remove_field("Tags");
    match &e.tags {
        Option::Some(ts) => {
            if ts.len() > 0 {
                let joined = join_with(ts, ',');
                proof {
                    lemma_without_key_absent(r@.fields, k_tags());
                }
                r.set_field("Tags", joined);
            }
        },
        Option::None => {},
    }
    assert(r@.fields == fields_of_entry(e@));
    r
}

// ------------------------------------------------------------------
// Record -> entry
// ------------------------------------------------------------------

/// The URL list a reader recovers: the URL slot if non-empty, then the
/// extra URLs split out of their custom field.
pub open spec fn urls_of_record(r: RecordV) -> Seq<Seq<char>> {
    let first: Seq<Seq<char>> = if r.url.len() > 0 {
        seq![r.url]
    } else {
        Seq::<Seq<char>>::empty()
    };
    let extra: Seq<Seq<char>> = match lookup_field(r.fields, k_addurls()) {
        Option::Some(v) => clean_parts(v, '\n'),
        Option::None => Seq::<Seq<char>>::empty(),
    };
    first + extra
}

/// The entry a reader recovers from a record.  Creation and update times
/// are not recoverable from the container and are set to `now`; stored
/// history is not modeled by the record shape and reads back as absent.
pub open spec fn entry_of_record(r: RecordV, now: i64) -> PasswordEntryV {
    PasswordEntryV {
        id: r.uuid,
        title: r.title,
        username: r.username,
        password: r.password,
        url: if urls_of_record(r).len() == 0 {
            Option::None
        } else {
            Option::Some(urls_of_record(r))
        },
        notes: match lookup_field(r.fields, k_notes()) {
            Option::Some(v) => v,
            Option::None => Seq::<char>::empty(),
        },
        totp_secret: match lookup_field(r.fields, k_totp()) {
            Option::Some(v) => Option::Some(v),
            Option::None => lookup_field(r.fields, k_totp_legacy()),
        },
        icon_id: lookup_field(r.fields, k_icon()),
        tags: match lookup_field(r.fields, k_tags()) {
            Option::Some(v) => Option::Some(clean_parts(v, ',')),
            Option::None => Option::None,
        },
        group_id: r.group_uuid,
        sort_order: match lookup_field(r.fields, k_sort()) {
            Option::Some(v) => spec_parse_i64(v),
            Option::None => Option::None,
        },
        created_at: now,
        updated_at: now,
        history: Option::None,
    }
}

/// Maps a container record back to an entry.
pub fn record_to_entry(rec: &Record, now: i64) -> (e: PasswordEntry)
    ensures
        e@ == entry_of_record(rec@, now),
{
    let mut urls: Vec<String> = Vec::new();
    if rec.url.as_str().unicode_len() > 0 {
        urls.push(rec.url.clone());
    }
    let ghost first: Seq<Seq<char>> = strs_views(urls@);
    proof {
        if rec@.url.len() > 0 {
            assert(first =~= seq![rec@.url]);
        } else {
            assert(first =~= Seq::<Seq<char>>::empty());
        }
    }
    match rec.get_field("AdditionalURLs") {
        Option::Some(v) => {
            let extra = clean_split(v.as_str(), '\n');
            let mut i: usize = 0;
            while i < extra.len()
                invariant
                    i <= extra@.len(),
                    strs_views(urls@) == first + strs_views(extra@).take(i as int),
                decreases extra@.len() - i,
            {
                let ghost old_urls = urls@;
                let x = extra[i].clone();
                proof {
                    lemma_strs_views_push(old_urls, x);
                    assert(strs_views(extra@).take(i + 1) =~= strs_views(extra@).take(
                        i as int,
                    ).push(strs_views(extra@)[i as int]));
                    assert((first + strs_views(extra@).take(i as int)).push(
                        strs_views(extra@)[i as int],
                    ) =~= first + strs_views(extra@).take(i + 1));
                }
                urls.push(x);
                i = i + 1;
            }
            proof {
                assert(strs_views(extra@).take(extra@.len() as int) =~= strs_views(extra@));
            }
        },
        Option::None => {
            proof {
                assert(first + Seq::<Seq<char>>::empty() =~= first);
            }
        },
    }
    proof {
        assert(strs_views(urls@) == urls_of_record(rec@));
    }
    let url: Option<Vec<String>> = if urls.len() == 0 {
        Option::None
    } else {
        Option::Some(urls)
    };
    let notes: String = match rec.get_field("Notes") {
        Option::Some(v) => v,
        Option::None => String::new(),
    };
    let totp_secret: Option<String> = match rec.get_field("TimeOtp-Secret-Base32") {
        Option::Some(v) => Option::Some(v),
        Option::None => rec.get_field("TOTP_SECRET"),
    };
    let icon_id: Option<String> = rec.get_field("IconId");
    let tags: Option<Vec<String>> = match rec.get_field("Tags") {
        Option::Some(v) => Option::Some(clean_split(v.as_str(), ',')),
        Option::None => Option::None,
    };
    let sort_order: Option<i64> = match rec.get_field("SORT_ORDER") {
        Option::Some(v) => parse_i64(v.as_str()),
        Option::None => Option::None,
    };
    PasswordEntry {
        id: rec.uuid.clone(),
        title: rec.title.clone(),
        username: rec.username.clone(),
        password: rec.password.clone(),
        url,
        notes,
        totp_secret,
        icon_id,
        tags,
        group_id: clone_opt_string(&rec.group_uuid),
        sort_order,
        created_at: now,
        updated_at: now,
        history: Option::None,
    }
}

// ------------------------------------------------------------------
// Groups
// ------------------------------------------------------------------

pub open spec fn group_record_of(g: PasswordGroupV) -> GroupRecordV {
    GroupRecordV { uuid: g.id, name: g.name }
}

/// Icon, color and explicit sort have no durable slot in a group record:
/// reading yields the folder marker, no color, sort zero and `now`.
pub open spec fn group_of_record(gr: GroupRecordV, now: i64) -> PasswordGroupV {
    PasswordGroupV {
        id: gr.uuid,
        name: gr.name,
        icon: "📁"@,
        color: Option::None,
        sort_order: 0,
        created_at: now,
    }
}

pub fn group_to_record(g: &PasswordGroup) -> (r: GroupRecord)
    ensures
        r@ == group_record_of(g@),
{
    GroupRecord { uuid: g.id.clone(), name: g.name.clone() }
}

pub fn record_to_group(gr: &GroupRecord, now: i64) -> (g: PasswordGroup)
    ensures
        g@ == group_of_record(gr@, now),
{
    PasswordGroup {
        id: gr.uuid.clone(),
        name: gr.name.clone(),
        icon: String::from_str("📁"),
        color: Option::None,
        sort_order: 0,
        created_at: now,
    }
}

// ------------------------------------------------------------------
// The round-trip law
// ------------------------------------------------------------------

/// An entry the record shape stores without loss: every URL and tag is
/// non-empty, already trimmed and free of its join separator, a URL list
/// or tag list is only present when non-empty, and no history is attached.
pub open spec fn entry_clean(e: PasswordEntryV) -> bool {
    &&& match e.url {
        Option::Some(us) => {
            &&& us.len() > 0
            &&& forall|i: int|
                0 <= i < us.len() ==> {
                    &&& (#[trigger] us[i]).len() > 0
                    &&& crate::strutil::trim_spec(us[i]) == us[i]
                    &&& forall|j: int| 0 <= j < us[i].len() ==> us[i][j] != '\n'
                }
        },
        Option::None => true,
    }
    &&& match e.tags {
        Option::Some(ts) => {
            &&& ts.len() > 0
            &&& forall|i: int|
                0 <= i < ts.len() ==> {
                    &&& (#[trigger] ts[i]).len() > 0
                    &&& crate::strutil::trim_spec(ts[i]) == ts[i]
                    &&& forall|j: int| 0 <= j < ts[i].len() ==> ts[i][j] != ','
                }
        },
        Option::None => true,
    }
    &&& e.history is None
}

/// The entry as it returns from the container: all preserved but the
/// timestamps, which read back as `now`.
pub open spec fn lossy_entry(e: PasswordEntryV, now: i64) -> PasswordEntryV {
    PasswordEntryV { created_at: now, updated_at: now, ..e }
}

/// The group as it returns from the container: identifier and name
/// preserved, decorative metadata replaced by the defaults.
pub open spec fn lossy_group(g: PasswordGroupV, now: i64) -> PasswordGroupV {
    PasswordGroupV {
        icon: "📁"@,
        color: Option::None,
        sort_order: 0,
        created_at: now,
        ..g
    }
}

/// Decoding the encoding of a clean entry returns the entry, up to the
/// documented lossy timestamps.
pub proof fn lemma_entry_roundtrip(e: PasswordEntryV, now: i64)
    requires
        entry_clean(e),
    ensures
        entry_of_record(record_of_entry(e), now) == lossy_entry(e, now),
{
    broadcast use lemma_lookup_push;

    lemma_keys_distinct();
    let r = record_of_entry(e);
    assert(lookup_field(Seq::<(Seq<char>, Seq<char>)>::empty(), k_totp()) is None);
    let d = entry_of_record(r, now);
    match e.url {
        Option::Some(us) => {
            assert(us[0].len() > 0);
            assert(r.url == us[0]);
            if us.len() > 1 {
                let rest = us.drop_first();
                assert(forall|i: int|
                    0 <= i < rest.len() ==> (#[trigger] rest[i]).len() != 0) by {
                    assert(forall|i: int|
                        0 <= i < rest.len() ==> rest[i] == us[i + 1]);
                }
                assert(forall|i: int|
                    0 <= i < rest.len() ==> crate::strutil::trim_spec(#[trigger] rest[i])
                        == rest[i]) by {
                    assert(forall|i: int|
                        0 <= i < rest.len() ==> rest[i] == us[i + 1]);
                }
                assert(forall|i: int, j: int|
                    0 <= i < rest.len() && 0 <= j < rest[i].len() ==> rest[i][j] != '\n') by {
                    assert(forall|i: int|
                        0 <= i < rest.len() ==> rest[i] == us[i + 1]);
                }
                crate::strutil::lemma_clean_parts_of_join(rest, '\n');
                assert(lookup_field(r.fields, k_addurls()) == Option::Some(
                    join_parts(rest, '\n'),
                ));
                assert(urls_of_record(r) =~= us);
            } else {
                assert(lookup_field(r.fields, k_addurls()) is None);
                assert(urls_of_record(r) =~= us);
            }
            assert(d.url == Option::Some(us));
        },
        Option::None => {
            assert(lookup_field(r.fields, k_addurls()) is None);
            assert(urls_of_record(r) =~= Seq::<Seq<char>>::empty());
            assert(d.url is None);
        },
    }
    match e.tags {
        Option::Some(ts) => {
            assert(forall|i: int| 0 <= i < ts.len() ==> (#[trigger] ts[i]).len() != 0);
            crate::strutil::lemma_clean_parts_of_join(ts, ',');
            assert(lookup_field(r.fields, k_tags()) == Option::Some(join_parts(ts, ',')));
            assert(d.tags == Option::Some(ts));
        },
        Option::None => {
            assert(lookup_field(r.fields, k_tags()) is None);
        },
    }
    match e.sort_order {
        Option::Some(n) => {
            assert(lookup_field(r.fields, k_sort()) == Option::Some(dec_str_i64(n as int)));
            lemma_parse_of_dec_str(n as int);
            assert(d.sort_order == Option::Some(n));
        },
        Option::None => {
            assert(lookup_field(r.fields, k_sort()) is None);
        },
    }
    match e.totp_secret {
        Option::Some(t) => {
            assert(lookup_field(r.fields, k_totp()) == Option::Some(t));
        },
        Option::None => {
            assert(lookup_field(r.fields, k_totp()) is None);
            assert(lookup_field(r.fields, k_totp_legacy()) is None);
        },
    }
    match e.icon_id {
        Option::Some(ic) => {
            assert(lookup_field(r.fields, k_icon()) == Option::Some(ic));
        },
        Option::None => {
            assert(lookup_field(r.fields, k_icon()) is None);
        },
    }
    if e.notes.len() > 0 {
        assert(lookup_field(r.fields, k_notes()) == Option::Some(e.notes));
    } else {
        assert(lookup_field(r.fields, k_notes()) is None);
        assert(d.notes =~= e.notes);
    }
    assert(d =~~= lossy_entry(e, now));
}

// ------------------------------------------------------------------
// Whole-container codec
// ------------------------------------------------------------------

/// Serializes the flat group list and entry list into container records.
pub fn encode_container(groups: &Vec<PasswordGroup>, entries: &Vec<PasswordEntry>) -> (c:
    Container)
    ensures
        c@.groups.len() == groups@.len(),
        forall|i: int|
            0 <= i < groups@.len() ==> c@.groups[i] == group_record_of(groups@[i]@),
        c@.records.len() == entries@.len(),
        forall|i: int|
            0 <= i < entries@.len() ==> c@.records[i] == record_of_entry(entries@[i]@),
{
    let mut gs: Vec<GroupRecord> = Vec::new();
    let mut i: usize = 0;
    while i < groups.len()
        invariant
            i <= groups@.len(),
            gs@.len() == i,
            forall|j: int| 0 <= j < i ==> gs@[j]@ == group_record_of(groups@[j]@),
        decreases groups@.len() - i,
    {
        gs.push(group_to_record(&groups[i]));
        i = i + 1;
    }
    let mut rs: Vec<Record> = Vec::new();
    let mut j: usize = 0;
    while j < entries.len()
        invariant
            j <= entries@.len(),
            rs@.len() == j,
            forall|t: int| 0 <= t < j ==> rs@[t]@ == record_of_entry(entries@[t]@),
        decreases entries@.len() - j,
    {
        rs.push(entry_to_record(&entries[j]));
        j = j + 1;
    }
    let c = Container { groups: gs, records: rs };
    proof {
        assert(forall|t: int|
            0 <= t < c@.groups.len() ==> c@.groups[t] == c.groups@[t]@);
        assert(forall|t: int|
            0 <= t < c@.records.len() ==> c@.records[t] == c.records@[t]@);
    }
    c
}

/// True when some group record carries the identifier.
pub open spec fn has_group_uuid(gs: Seq<GroupRecordV>, id: Seq<char>) -> bool {
    exists|i: int| 0 <= i < gs.len() && (#[trigger] gs[i]).uuid == id
}

/// The group reference a decoded entry keeps: an identifier that names no
/// group of the container falls back to the root.
pub open spec fn resolve_group_uuid(gs: Seq<GroupRecordV>, gu: Option<Seq<char>>) -> Option<
    Seq<char>,
> {
    match gu {
        Option::Some(g) => if has_group_uuid(gs, g) {
            Option::Some(g)
        } else {
            Option::None
        },
        Option::None => Option::None,
    }
}

/// The entry decoded from record `i` of the container.
pub open spec fn decoded_entry(c: ContainerV, i: int, now: i64) -> PasswordEntryV {
    PasswordEntryV {
        group_id: resolve_group_uuid(c.groups, c.records[i].group_uuid),
        ..entry_of_record(c.records[i], now)
    }
}

fn find_group_record(gs: &Vec<GroupRecord>, id: &str) -> (r: bool)
    ensures
        r == has_group_uuid(crate::record::group_record_views(gs@), id@),
{
    let ghost gv = crate::record::group_record_views(gs@);
    let mut i: usize = 0;
    while i < gs.len()
        invariant
            i <= gs@.len(),
            gv == crate::record::group_record_views(gs@),
            forall|j: int| 0 <= j < i ==> (#[trigger] gv[j]).uuid != id@,
        decreases gs@.len() - i,
    {
        if string_eq_str(&gs[i].uuid, id) {
            assert(gv[i as int].uuid == id@);
            return true;
        }
        i = i + 1;
    }
    false
}

/// Deserializes container records back into the flat group and entry
/// lists.  Timestamps and group decorative metadata come back as the
/// documented defaults; an entry whose group reference names no group of
/// the container is re-homed to the root.
pub fn decode_container(c: &Container, now: i64) -> (r: (Vec<PasswordGroup>, Vec<PasswordEntry>))
    ensures
        r.0@.len() == c@.groups.len(),
        forall|i: int|
            0 <= i < c@.groups.len() ==> r.0@[i]@ == group_of_record(c@.groups[i], now),
        r.1@.len() == c@.records.len(),
        forall|i: int| 0 <= i < c@.records.len() ==> r.1@[i]@ == decoded_entry(c@, i, now),
{
    let mut gs: Vec<PasswordGroup> = Vec::new();
    let mut i: usize = 0;
    while i < c.groups.len()
        invariant
            i <= c.groups@.len(),
            gs@.len() == i,
            forall|j: int| 0 <= j < i ==> gs@[j]@ == group_of_record(c@.groups[j], now),
        decreases c.groups@.len() - i,
    {
        gs.push(record_to_group(&c.groups[i], now));
        i = i + 1;
    }
    let mut es: Vec<PasswordEntry> = Vec::new();
    let mut j: usize = 0;
    while j < c.records.len()
        invariant
            j <= c.records@.len(),
            es@.len() == j,
            forall|t: int| 0 <= t < j ==> es@[t]@ == decoded_entry(c@, t, now),
        decreases c.records@.len() - j,
    {
        let mut e = record_to_entry(&c.records[j], now);
        let resolved: Option<String> = match &c.records[j].group_uuid {
            Option::Some(g) => if find_group_record(&c.groups, g.as_str()) {
                Option::Some(g.clone())
            } else {
                Option::None
            },
            Option::None => Option::None,
        };
        e.group_id = resolved;
        proof {
            assert(e@ =~~= decoded_entry(c@, j as int, now));
        }
        es.push(e);
        j = j + 1;
    }
    (gs, es)
}

/// The whole-vault round-trip law: decoding the encoding of a vault whose
/// entries are clean and whose group references resolve returns the same
/// groups and entries, up to the documented lossy fields.
pub proof fn lemma_container_roundtrip(
    gs: Seq<PasswordGroupV>,
    es: Seq<PasswordEntryV>,
    c: ContainerV,
    now: i64,
)
    requires
        forall|i: int| 0 <= i < es.len() ==> entry_clean(#[trigger] es[i]),
        forall|i: int|
            0 <= i < es.len() ==> match (#[trigger] es[i]).group_id {
                Option::Some(g) => exists|j: int| 0 <= j < gs.len() && (#[trigger] gs[j]).id == g,
                Option::None => true,
            },
        c.groups.len() == gs.len(),
        forall|i: int| 0 <= i < gs.len() ==> c.groups[i] == group_record_of(#[trigger] gs[i]),
        c.records.len() == es.len(),
        forall|i: int| 0 <= i < es.len() ==> c.records[i] == record_of_entry(#[trigger] es[i]),
    ensures
        forall|i: int|
            0 <= i < gs.len() ==> group_of_record(c.groups[i], now) == lossy_group(
                #[trigger] gs[i],
                now,
            ),
        forall|i: int|
            0 <= i < es.len() ==> decoded_entry(c, i, now) == lossy_entry(#[trigger] es[i], now),
{
    assert(forall|i: int|
        0 <= i < gs.len() ==> group_of_record(c.groups[i], now) =~= lossy_group(
            #[trigger] gs[i],
            now,
        ));
    assert forall|i: int| 0 <= i < es.len() implies decoded_entry(c, i, now) == lossy_entry(
        #[trigger] es[i],
        now,
    ) by {
        lemma_entry_roundtrip(es[i], now);
        match es[i].group_id {
            Option::Some(g) => {
                let j = choose|j: int| 0 <= j < gs.len() && (#[trigger] gs[j]).id == g;
                assert(c.groups[j].uuid == g);
                assert(has_group_uuid(c.groups, g));
            },
            Option::None => {},
        }
        assert(decoded_entry(c, i, now) =~~= lossy_entry(es[i], now));
    }
}

} // verus!

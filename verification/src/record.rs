//! The record shape of the on-disk container format: an entry record with
//! the well-known slots plus an extensible list of named custom fields, and
//! a group record.  Writing a custom field always removes any prior field
//! of the same name first, so repeated updates never accumulate duplicates.

use vstd::prelude::*;
use vstd::string::*;
use vstd::seq_lib::*;

verus! {

/// One named custom field on a record.
#[derive(Debug)]
pub struct FieldKv {
    pub key: String,
    pub value: String,
}

impl View for FieldKv {
    type V = (Seq<char>, Seq<char>);

    open spec fn view(&self) -> (Seq<char>, Seq<char>) {
        (self.key@, self.value@)
    }
}

pub open spec fn fields_views(v: Seq<FieldKv>) -> Seq<(Seq<char>, Seq<char>)> {
    v.map_values(|f: FieldKv| f@)
}

pub proof fn lemma_fields_views_push(a: Seq<FieldKv>, x: FieldKv)
    ensures
        fields_views(a.push(x)) == fields_views(a).push(x@),
{
    assert(fields_views(a.push(x)) =~= fields_views(a).push(x@));
}

/// The value of the first field named `k`, if any: the order in which a
/// reader scans the custom fields.
pub open spec fn lookup_field(fs: Seq<(Seq<char>, Seq<char>)>, k: Seq<char>) -> Option<Seq<char>>
    decreases fs.len(),
{
    if fs.len() == 0 {
        Option::None
    } else if fs[0].0 == k {
        Option::Some(fs[0].1)
    } else {
        lookup_field(fs.drop_first(), k)
    }
}

/// How many fields carry the name `k`.
pub open spec fn count_key(fs: Seq<(Seq<char>, Seq<char>)>, k: Seq<char>) -> nat {
    fs.filter(|f: (Seq<char>, Seq<char>)| f.0 == k).len()
}

/// The fields with every field named `k` removed.
pub open spec fn without_key(fs: Seq<(Seq<char>, Seq<char>)>, k: Seq<char>) -> Seq<
    (Seq<char>, Seq<char>),
> {
    fs.filter(|f: (Seq<char>, Seq<char>)| f.0 != k)
}

/// One entry record of the container: the well-known slots and the custom
/// fields, together with the identifier of the group that holds the record
/// (absent for the root group).
#[derive(Debug)]
pub struct Record {
    pub uuid: String,
    pub title: String,
    pub username: String,
    pub password: String,
    pub url: String,
    pub fields: Vec<FieldKv>,
    pub group_uuid: Option<String>,
}

#[verifier::ext_equal]
pub struct RecordV {
    pub uuid: Seq<char>,
    pub title: Seq<char>,
    pub username: Seq<char>,
    pub password: Seq<char>,
    pub url: Seq<char>,
    pub fields: Seq<(Seq<char>, Seq<char>)>,
    pub group_uuid: Option<Seq<char>>,
}

impl View for Record {
    type V = RecordV;

    open spec fn view(&self) -> RecordV {
        RecordV {
            uuid: self.uuid@,
            title: self.title@,
            username: self.username@,
            password: self.password@,
            url: self.url@,
            fields: fields_views(self.fields@),
            group_uuid: crate::model::opt_str_view(self.group_uuid),
        }
    }
}

impl Record {
    /// Removes every custom field named `key`.
    pub fn remove_field(&mut self, key: &str)
        ensures
            final(self)@.fields == without_key(old(self)@.fields, key@),
            final(self)@.uuid == old(self)@.uuid,
            final(self)@.title == old(self)@.title,
            final(self)@.username == old(self)@.username,
            final(self)@.password == old(self)@.password,
            final(self)@.url == old(self)@.url,
            final(self)@.group_uuid == old(self)@.group_uuid,
    {
        let ghost all = fields_views(self.fields@);
        let mut out: Vec<FieldKv> = Vec::new();
        let mut i: usize = 0;
        proof {
            reveal(Seq::filter);
        }
        while i < self.fields.len()
            invariant
                i <= self.fields@.len(),
                all == fields_views(self.fields@),
                fields_views(out@) == without_key(all.take(i as int), key@),
            decreases self.fields@.len() - i,
        {
            proof {
                reveal(Seq::filter);
                let t1 = all.take(i + 1);
                assert(t1.drop_last() =~= all.take(i as int));
                assert(t1.last() == self.fields@[i as int]@);
            }
            let keep = !string_eq_str(&self.fields[i].key, key);
            if keep {
                let f = FieldKv {
                    key: self.fields[i].key.clone(),
                    value: self.fields[i].value.clone(),
                };
                assert(f@ == self.fields@[i as int]@);
                out.push(f);
                proof {
                    assert(fields_views(out@) =~= fields_views(out@.drop_last()).push(
                        out@.last()@,
                    ));
                }
            }
            i = i + 1;
        }
        proof {
            assert(all.take(all.len() as int) =~= all);
        }
        self.fields = out;
    }

    /// Writes the custom field `key`, first removing any prior field of
    /// that name: an idempotent overwrite, never an append.
    pub fn set_field(&mut self, key: &str, value: String)
        ensures
            final(self)@.fields == without_key(old(self)@.fields, key@).push((key@, value@)),
            final(self)@.uuid == old(self)@.uuid,
            final(self)@.title == old(self)@.title,
            final(self)@.username == old(self)@.username,
            final(self)@.password == old(self)@.password,
            final(self)@.url == old(self)@.url,
            final(self)@.group_uuid == old(self)@.group_uuid,
    {
        self.remove_field(key);
        let f = FieldKv { key: key.to_owned(), value };
        proof {
            lemma_fields_views_push(self.fields@, f);
        }
        self.fields.push(f);
    }

    /// The value of the first custom field named `key`, if any.
    pub fn get_field(&self, key: &str) -> (r: Option<String>)
        ensures
            crate::model::opt_str_view(r) == lookup_field(self@.fields, key@),
    {
        let ghost all = self@.fields;
        let mut i: usize = 0;
        proof {
            assert(all.skip(0) =~= all);
        }
        while i < self.fields.len()
            invariant
                i <= self.fields@.len(),
                all == fields_views(self.fields@),
                lookup_field(all, key@) == lookup_field(all.skip(i as int), key@),
            decreases self.fields@.len() - i,
        {
            proof {
                assert(all.skip(i as int)[0] == self.fields@[i as int]@);
                assert(all.skip(i as int).drop_first() =~= all.skip(i + 1));
            }
            if string_eq_str(&self.fields[i].key, key) {
                return Option::Some(self.fields[i].value.clone());
            }
            i = i + 1;
        }
        proof {
            assert(all.skip(all.len() as int) =~= Seq::<(Seq<char>, Seq<char>)>::empty());
        }
        Option::None
    }
}

/// True when the string equals the slice, character for character.
pub fn string_eq_str(s: &String, t: &str) -> (r: bool)
    ensures
        r == (s@ == t@),
{
    let n = s.as_str().unicode_len();
    let m = t.unicode_len();
    if n != m {
        assert(s@.len() != t@.len());
        return false;
    }
    let mut i: usize = 0;
    while i < n
        invariant
            i <= n,
            n == s@.len(),
            n == t@.len(),
            forall|j: int| 0 <= j < i ==> s@[j] == t@[j],
        decreases n - i,
    {
        if s.as_str().get_char(i) != t.get_char(i) {
            return false;
        }
        i = i + 1;
    }
    proof {
        assert(s@ =~= t@);
    }
    true
}

// ------------------------------------------------------------------
// The idempotent-overwrite laws
// ------------------------------------------------------------------

/// Removing a key commutes with appending a field.
pub proof fn lemma_without_key_push(fs: Seq<(Seq<char>, Seq<char>)>, k: Seq<char>, x: (
    Seq<char>,
    Seq<char>,
))
    ensures
        x.0 != k ==> without_key(fs.push(x), k) == without_key(fs, k).push(x),
        x.0 == k ==> without_key(fs.push(x), k) == without_key(fs, k),
{
    reveal(Seq::filter);
    assert(fs.push(x).drop_last() =~= fs);
    assert(fs.push(x).last() == x);
}

/// No field that survives the removal carries the removed key.
pub proof fn lemma_without_key_clean(fs: Seq<(Seq<char>, Seq<char>)>, k: Seq<char>)
    ensures
        forall|i: int| 0 <= i < without_key(fs, k).len() ==> (#[trigger] without_key(fs, k)[i]).0
            != k,
    decreases fs.len(),
{
    reveal(Seq::filter);
    if fs.len() > 0 {
        lemma_without_key_clean(fs.drop_last(), k);
        assert(fs.drop_last().push(fs.last()) =~= fs);
        lemma_without_key_push(fs.drop_last(), k, fs.last());
    }
}

/// Removing a key twice is the same as removing it once.
pub proof fn lemma_without_key_idempotent(fs: Seq<(Seq<char>, Seq<char>)>, k: Seq<char>)
    ensures
        without_key(without_key(fs, k), k) == without_key(fs, k),
    decreases fs.len(),
{
    reveal(Seq::filter);
    if fs.len() > 0 {
        lemma_without_key_idempotent(fs.drop_last(), k);
        assert(fs.drop_last().push(fs.last()) =~= fs);
        lemma_without_key_push(fs.drop_last(), k, fs.last());
        if fs.last().0 != k {
            lemma_without_key_push(without_key(fs.drop_last(), k), k, fs.last());
        }
    }
}

/// Appending a field raises the count of its own key by one and leaves
/// other keys untouched.
pub proof fn lemma_count_key_push(fs: Seq<(Seq<char>, Seq<char>)>, k: Seq<char>, x: (
    Seq<char>,
    Seq<char>,
))
    ensures
        x.0 == k ==> count_key(fs.push(x), k) == count_key(fs, k) + 1,
        x.0 != k ==> count_key(fs.push(x), k) == count_key(fs, k),
{
    reveal(Seq::filter);
    assert(fs.push(x).drop_last() =~= fs);
    assert(fs.push(x).last() == x);
}

/// Nothing of the removed key is counted after removal.
pub proof fn lemma_count_without_key(fs: Seq<(Seq<char>, Seq<char>)>, k: Seq<char>)
    ensures
        count_key(without_key(fs, k), k) == 0,
    decreases fs.len(),
{
    reveal(Seq::filter);
    if fs.len() == 0 {
    } else {
        lemma_count_without_key(fs.drop_last(), k);
        assert(fs.drop_last().push(fs.last()) =~= fs);
        lemma_without_key_push(fs.drop_last(), k, fs.last());
        if fs.last().0 != k {
            lemma_count_key_push(without_key(fs.drop_last(), k), k, fs.last());
        }
    }
}

/// Removing a key that no field carries changes nothing.
pub proof fn lemma_without_key_absent(fs: Seq<(Seq<char>, Seq<char>)>, k: Seq<char>)
    requires
        forall|i: int| 0 <= i < fs.len() ==> (#[trigger] fs[i]).0 != k,
    ensures
        without_key(fs, k) == fs,
    decreases fs.len(),
{
    reveal(Seq::filter);
    if fs.len() > 0 {
        assert(forall|i: int|
            0 <= i < fs.drop_last().len() ==> (#[trigger] fs.drop_last()[i]).0 != k);
        lemma_without_key_absent(fs.drop_last(), k);
        assert(fs.last().0 != k);
        assert(fs.drop_last().push(fs.last()) =~= fs);
    }
}

/// A reader that scans past an appended field sees the earlier fields
/// first: the appended field is found only when no earlier field has the
/// key.
pub broadcast proof fn lemma_lookup_push(fs: Seq<(Seq<char>, Seq<char>)>, x: (
    Seq<char>,
    Seq<char>,
), k: Seq<char>)
    ensures
        #[trigger] lookup_field(fs.push(x), k) == (match lookup_field(fs, k) {
            Option::Some(v) => Option::Some(v),
            Option::None => if x.0 == k {
                Option::Some(x.1)
            } else {
                Option::None
            },
        }),
    decreases fs.len(),
{
    if fs.len() == 0 {
        assert(fs.push(x)[0] == x);
    } else {
        assert(fs.push(x)[0] == fs[0]);
        if fs[0].0 != k {
            assert(fs.push(x).drop_first() =~= fs.drop_first().push(x));
            lemma_lookup_push(fs.drop_first(), x, k);
        }
    }
}

/// After a field is written, exactly one field of that name is stored, and
/// a reader finds the written value.
pub proof fn lemma_set_field_exactly_one(fs: Seq<(Seq<char>, Seq<char>)>, k: Seq<char>, v: Seq<
    char,
>)
    ensures
        count_key(without_key(fs, k).push((k, v)), k) == 1,
        lookup_field(without_key(fs, k).push((k, v)), k) == Option::Some(v),
{
    lemma_count_without_key(fs, k);
    lemma_count_key_push(without_key(fs, k), k, (k, v));
    lemma_without_key_clean(fs, k);
    lemma_lookup_no_key_then_push(without_key(fs, k), k, v);
}

proof fn lemma_lookup_no_key_then_push(a: Seq<(Seq<char>, Seq<char>)>, k: Seq<char>, v: Seq<char>)
    requires
        forall|i: int| 0 <= i < a.len() ==> (#[trigger] a[i]).0 != k,
    ensures
        lookup_field(a.push((k, v)), k) == Option::Some(v),
    decreases a.len(),
{
    if a.len() == 0 {
        assert(a.push((k, v))[0] == (k, v));
    } else {
        assert(a.push((k, v))[0] == a[0]);
        assert(a[0].0 != k);
        assert(a.push((k, v)).drop_first() =~= a.drop_first().push((k, v)));
        assert(forall|i: int|
            0 <= i < a.drop_first().len() ==> (#[trigger] a.drop_first()[i]).0 != k);
        lemma_lookup_no_key_then_push(a.drop_first(), k, v);
    }
}

/// Writing a field twice in a row stores the same fields as writing it
/// once with the later value.
pub proof fn lemma_set_field_idempotent(fs: Seq<(Seq<char>, Seq<char>)>, k: Seq<char>, v1: Seq<
    char,
>, v2: Seq<char>)
    ensures
        without_key(without_key(fs, k).push((k, v1)), k).push((k, v2)) == without_key(
            fs,
            k,
        ).push((k, v2)),
{
    lemma_without_key_push(without_key(fs, k), k, (k, v1));
    lemma_without_key_idempotent(fs, k);
}

/// One group record of the container.  Only the identifier and the display
/// name of a group have a durable slot in the container format.
#[derive(Debug)]
pub struct GroupRecord {
    pub uuid: String,
    pub name: String,
}

#[verifier::ext_equal]
pub struct GroupRecordV {
    pub uuid: Seq<char>,
    pub name: Seq<char>,
}

impl View for GroupRecord {
    type V = GroupRecordV;

    open spec fn view(&self) -> GroupRecordV {
        GroupRecordV { uuid: self.uuid@, name: self.name@ }
    }
}

pub open spec fn group_record_views(v: Seq<GroupRecord>) -> Seq<GroupRecordV> {
    v.map_values(|g: GroupRecord| g@)
}

pub open spec fn record_views(v: Seq<Record>) -> Seq<RecordV> {
    v.map_values(|r: Record| r@)
}

/// A whole serialized vault: the group records and the entry records, each
/// entry record naming its holding group (or none, for the root).
#[derive(Debug)]
pub struct Container {
    pub groups: Vec<GroupRecord>,
    pub records: Vec<Record>,
}

#[verifier::ext_equal]
pub struct ContainerV {
    pub groups: Seq<GroupRecordV>,
    pub records: Seq<RecordV>,
}

impl View for Container {
    type V = ContainerV;

    open spec fn view(&self) -> ContainerV {
        ContainerV { groups: group_record_views(self.groups@), records: record_views(self.records@) }
    }
}

} // verus!

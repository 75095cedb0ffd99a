//! Remote synchronization: the pluggable provider abstraction, the
//! registry that dispatches on a provider name, and the request-signing
//! and URL-building rules of the object-storage backend.  The engine
//! never looks inside the blob it synchronizes.

use vstd::prelude::*;
use vstd::string::*;
use vstd::utf8::encode_utf8;
use crate::crypto::{base64_encode, base64_of};
use crate::model::opt_str_view;
use crate::numtext::{dec_str_i64, i64_to_string};
use crate::strutil::{ascii_lower, lower_spec, starts_with_str, trim, trim_spec, contains_sub,
    contains_sub_spec};

verus! {

/// The HMAC-SHA-1 tag of a message under a key; a function of the two
/// alone.
pub uninterp spec fn hmac_sha1_of(key: Seq<u8>, msg: Seq<u8>) -> Seq<u8>;

/// Relies on hmac::Hmac<sha1::Sha1>: the 20-byte tag; the mac accepts a
/// key of any size.
#[verifier::external_body]
fn hmac_sha1(key: &[u8], msg: &[u8]) -> (r: Vec<u8>)
    ensures
        r@ == hmac_sha1_of(key@, msg@),
        r@.len() == 20,
{
    let mut mac = <hmac::Hmac<sha1::Sha1> as hmac::Mac>::new_from_slice(key)
        .expect("HMAC accepts a key of any size");
    hmac::Mac::update(&mut mac, msg);
    let out = hmac::Mac::finalize(mac).into_bytes();
    out.to_vec()
}

/// The RFC-1123 date line for a Unix second count.
pub uninterp spec fn http_date_of(ts: i64) -> Seq<char>;

/// Relies on chrono::DateTime::from_timestamp and its formatter: the
/// GMT date line, a function of the timestamp alone.  Timestamps beyond
/// the year 9999 are excluded so the conversion cannot fail.
#[verifier::external_body]
pub fn http_date(ts: i64) -> (r: String)
    requires
        0 <= ts < 253402300800,
    ensures
        r@ == http_date_of(ts),
        r@.len() == 29,
{
    let dt = chrono::DateTime::<chrono::Utc>::from_timestamp(ts, 0)
        .expect("the timestamp is within range");
    dt.format("%a, %d %b %Y %H:%M:%S GMT").to_string()
}

// ------------------------------------------------------------------
// The provider abstraction
// ------------------------------------------------------------------

/// The outcome a provider reports for an upload.
#[derive(Debug)]
pub struct SyncResult {
    pub success: bool,
    pub message: String,
    pub version: Option<i64>,
    pub timestamp: Option<i64>,
}

/// Where a synchronization attempt stands.
#[derive(Debug, Clone, PartialEq)]
pub enum SyncStatus {
    Idle,
    Syncing,
    Success,
    Error(String),
    Conflict,
}

/// The stored synchronization settings: a provider name, a switch, and
/// the provider's own configuration document, opaque to the engine.
#[derive(Debug)]
pub struct SyncConfig {
    pub provider: String,
    pub enabled: bool,
    pub config_data: String,
}

/// A synchronization backend.  The data handed over is the serialized
/// container, treated as an opaque blob; nothing can be promised of
/// operations that cross the network.
pub trait SyncProvider {
    /// The name the backend registers under.
    fn name(&self) -> &str;

    /// Checks that the configured remote end is reachable.
    fn test_connection(&self, config: &str) -> Result<(), String>;

    /// Sends the blob to the remote end.
    fn upload(&self, data: &[u8], config: &str) -> Result<SyncResult, String>;

    /// Fetches the blob from the remote end.
    fn download(&self, config: &str) -> Result<Vec<u8>, String>;

    /// The remote version, or none when no blob exists remotely yet.
    fn get_remote_version(&self, config: &str) -> Result<Option<i64>, String>;

    /// Whether the remote end holds something newer than `local_version`.
    fn check_update(&self, local_version: i64, config: &str) -> Result<bool, String>;
}

/// True exactly when the remote version exists and is strictly newer
/// than the local one: the version-comparison rule every backend follows.
pub fn update_available(remote: Option<i64>, local: i64) -> (r: bool)
    ensures
        r == (remote matches Some(v) && v > local),
{
    match remote {
        Option::Some(v) => v > local,
        Option::None => false,
    }
}

/// The result every backend reports for a finished upload: success, the
/// fixed message, and the upload time as the new version.
pub fn upload_result(now: i64) -> (r: SyncResult)
    ensures
        r.success == true,
        r.message@ == "Upload successful"@,
        r.version == Option::Some(now),
        r.timestamp == Option::Some(now),
{
    SyncResult {
        success: true,
        message: String::from_str("Upload successful"),
        version: Option::Some(now),
        timestamp: Option::Some(now),
    }
}

/// The distinguishable non-fatal answer for a blob that does not exist
/// remotely yet.
pub fn not_found_message() -> (r: String)
    ensures
        r@ == "File not found on server"@,
        contains_sub_spec(r@, "not found"@),
{
    let r = String::from_str("File not found on server");
    proof {
        reveal_strlit("File not found on server");
        reveal_strlit("not found");
        assert(r@.subrange(5, 5 + "not found"@.len() as int) =~= "not found"@);
    }
    r
}

/// Interprets a download outcome as a version probe: any blob means the
/// remote version is `now`, a missing remote blob is no version at all
/// (not a failure), and any other failure stays one.
pub fn remote_version_from(download: &Result<Vec<u8>, String>, now: i64) -> (r: Result<
    Option<i64>,
    String,
>)
    ensures
        download is Ok ==> r == Result::<Option<i64>, String>::Ok(Option::Some(now)),
        (download matches Err(m) && contains_sub_spec(m@, "not found"@)) ==> r == Result::<
            Option<i64>,
            String,
        >::Ok(Option::None),
        (download matches Err(m) && !contains_sub_spec(m@, "not found"@)) ==> (r matches Err(
            m2,
        ) && m2@ == download->Err_0@),
{
    match download {
        Result::Ok(_) => Result::Ok(Option::Some(now)),
        Result::Err(m) => {
            if contains_sub(m.as_str(), "not found") {
                Result::Ok(Option::None)
            } else {
                Result::Err(m.clone())
            }
        },
    }
}

// ------------------------------------------------------------------
// The provider registry
// ------------------------------------------------------------------

pub open spec fn missing_msg(name: Seq<char>) -> Seq<char> {
    "Provider '"@ + name + "' not found"@
}

fn build_missing_msg(name: &str) -> (r: String)
    ensures
        r@ == missing_msg(name@),
{
    let mut r = String::from_str("Provider '");
    r.append(name);
    r.append("' not found");
    r
}

/// One registered backend and its name.
pub struct ProviderEntry<P> {
    pub name: String,
    pub provider: P,
}

/// The registry of synchronization backends, dispatching on the name a
/// backend registered under.  New providers register without touching
/// the callers.  Trait objects sit outside what the verifier reasons
/// about, so the registry is generic over the one backend type it
/// manages.
pub struct SyncManager<P> {
    providers: Vec<ProviderEntry<P>>,
}

spec fn names_of<P>(v: Seq<ProviderEntry<P>>) -> Seq<Seq<char>> {
    v.map_values(|p: ProviderEntry<P>| p.name@)
}

proof fn lemma_names_push<P>(a: Seq<ProviderEntry<P>>, x: ProviderEntry<P>)
    ensures
        names_of(a.push(x)) == names_of(a).push(x.name@),
{
    assert(names_of(a.push(x)) =~= names_of(a).push(x.name@));
}

impl<P: SyncProvider> SyncManager<P> {
    pub closed spec fn provider_names(&self) -> Seq<Seq<char>> {
        names_of(self.providers@)
    }

    pub open spec fn spec_has_provider(&self, name: Seq<char>) -> bool {
        exists|i: int|
            0 <= i < self.provider_names().len() && #[trigger] self.provider_names()[i] == name
    }

    /// The backend stored in registry slot `i`.
    pub closed spec fn spec_provider_at(&self, i: int) -> P {
        self.providers@[i].provider
    }

    /// An empty registry.
    pub fn new() -> (r: SyncManager<P>)
        ensures
            r.provider_names().len() == 0,
    {
        let m = SyncManager::<P> { providers: Vec::new() };
        proof {
            assert(m.provider_names() =~= Seq::<Seq<char>>::empty());
        }
        m
    }

    /// Registers a backend under a name: it takes the next slot, and the
    /// slots already taken are untouched.
    pub fn register(&mut self, name: String, provider: P)
        ensures
            final(self).provider_names() == old(self).provider_names().push(name@),
            final(self).spec_provider_at(old(self).provider_names().len() as int) == provider,
            forall|i: int|
                0 <= i < old(self).provider_names().len() ==> final(self).spec_provider_at(i)
                    == old(self).spec_provider_at(i),
    {
        let ghost oldp = self.providers@;
        let ghost nv = name@;
        self.providers.push(ProviderEntry { name, provider });
        proof {
            lemma_names_push(oldp, self.providers@.last());
            assert(self.providers@ =~= oldp.push(self.providers@.last()));
            assert(self.providers@.last().name@ == nv);
        }
    }

    /// A registry carrying the stock object-storage backend under the
    /// name "oss": the registry a freshly started application uses.
    pub fn with_default(provider: P) -> (r: SyncManager<P>)
        ensures
            r.provider_names() == seq!["oss"@],
            r.spec_provider_at(0) == provider,
    {
        let mut m = SyncManager::new();
        m.register(String::from_str("oss"), provider);
        proof {
            assert(m.provider_names() =~= seq!["oss"@]);
        }
        m
    }

    /// The backend registered under the name, if any: the very backend
    /// sitting in the first registry slot whose name matches.
    pub fn get_provider(&self, name: &str) -> (r: Option<&P>)
        ensures
            r is Some <==> self.spec_has_provider(name@),
            r matches Some(p) ==> exists|i: int|
                0 <= i < self.provider_names().len() && #[trigger] self.provider_names()[i]
                    == name@ && *p == self.spec_provider_at(i) && (forall|j: int|
                    0 <= j < i ==> self.provider_names()[j] != name@),
    {
        let mut i: usize = 0;
        while i < self.providers.len()
            invariant
                i <= self.providers@.len(),
                forall|j: int| 0 <= j < i ==> #[trigger] self.provider_names()[j] != name@,
            decreases self.providers@.len() - i,
        {
            if crate::record::string_eq_str(&self.providers[i].name, name) {
                assert(self.provider_names()[i as int] == name@);
                return Option::Some(&self.providers[i].provider);
            }
            i = i + 1;
        }
        Option::None
    }

    /// The names of every registered backend, in registration order.
    pub fn list_providers(&self) -> (r: Vec<String>)
        ensures
            r@.len() == self.provider_names().len(),
            forall|i: int|
                0 <= i < r@.len() ==> (#[trigger] r@[i])@ == self.provider_names()[i],
    {
        let mut r: Vec<String> = Vec::new();
        let mut i: usize = 0;
        while i < self.providers.len()
            invariant
                i <= self.providers@.len(),
                r@.len() == i,
                forall|j: int| 0 <= j < i ==> (#[trigger] r@[j])@ == self.provider_names()[j],
            decreases self.providers@.len() - i,
        {
            r.push(self.providers[i].name.clone());
            i = i + 1;
        }
        r
    }

    /// Dispatches a connection test; an unknown name is reported, never
    /// passed through.
    pub fn test_connection(&self, provider_name: &str, config: &str) -> (r: Result<(), String>)
        ensures
            !self.spec_has_provider(provider_name@) ==> (r matches Err(m) && m@ == missing_msg(
                provider_name@,
            )),
    {
        match self.get_provider(provider_name) {
            Option::Some(p) => p.test_connection(config),
            Option::None => Result::Err(build_missing_msg(provider_name)),
        }
    }

    /// Dispatches an upload of the container blob.
    pub fn upload(&self, provider_name: &str, data: &[u8], config: &str) -> (r: Result<
        SyncResult,
        String,
    >)
        ensures
            !self.spec_has_provider(provider_name@) ==> (r matches Err(m) && m@ == missing_msg(
                provider_name@,
            )),
    {
        match self.get_provider(provider_name) {
            Option::Some(p) => p.upload(data, config),
            Option::None => Result::Err(build_missing_msg(provider_name)),
        }
    }

    /// Dispatches a download of the container blob.
    pub fn download(&self, provider_name: &str, config: &str) -> (r: Result<Vec<u8>, String>)
        ensures
            !self.spec_has_provider(provider_name@) ==> (r matches Err(m) && m@ == missing_msg(
                provider_name@,
            )),
    {
        match self.get_provider(provider_name) {
            Option::Some(p) => p.download(config),
            Option::None => Result::Err(build_missing_msg(provider_name)),
        }
    }

    /// Dispatches the update check.
    pub fn check_update(&self, provider_name: &str, local_version: i64, config: &str) -> (r:
        Result<bool, String>)
        ensures
            !self.spec_has_provider(provider_name@) ==> (r matches Err(m) && m@ == missing_msg(
                provider_name@,
            )),
    {
        match self.get_provider(provider_name) {
            Option::Some(p) => p.check_update(local_version, config),
            Option::None => Result::Err(build_missing_msg(provider_name)),
        }
    }

    /// Dispatches the remote-version probe.
    pub fn get_remote_version(&self, provider_name: &str, config: &str) -> (r: Result<
        Option<i64>,
        String,
    >)
        ensures
            !self.spec_has_provider(provider_name@) ==> (r matches Err(m) && m@ == missing_msg(
                provider_name@,
            )),
    {
        match self.get_provider(provider_name) {
            Option::Some(p) => p.get_remote_version(config),
            Option::None => Result::Err(build_missing_msg(provider_name)),
        }
    }
}

// ------------------------------------------------------------------
// The object-storage backend's own configuration
// ------------------------------------------------------------------

/// The object-storage settings parsed out of the configuration document.
#[derive(Debug)]
pub struct OssConfig {
    pub provider: String,
    pub endpoint: String,
    pub bucket: String,
    pub access_key_id: String,
    pub access_key_secret: String,
    pub region: Option<String>,
    pub path: String,
}

#[verifier::ext_equal]
pub struct OssConfigV {
    pub provider: Seq<char>,
    pub endpoint: Seq<char>,
    pub bucket: Seq<char>,
    pub access_key_id: Seq<char>,
    pub access_key_secret: Seq<char>,
    pub region: Option<Seq<char>>,
    pub path: Seq<char>,
}

impl View for OssConfig {
    type V = OssConfigV;

    open spec fn view(&self) -> OssConfigV {
        OssConfigV {
            provider: self.provider@,
            endpoint: self.endpoint@,
            bucket: self.bucket@,
            access_key_id: self.access_key_id@,
            access_key_secret: self.access_key_secret@,
            region: opt_str_view(self.region),
            path: self.path@,
        }
    }
}

/// The first complaint validation raises, if any: the fields are checked
/// in a fixed order and none may be empty.
pub open spec fn validate_oss_spec(c: OssConfigV) -> Option<Seq<char>> {
    if c.endpoint.len() == 0 {
        Option::Some("Endpoint must not be empty"@)
    } else if c.bucket.len() == 0 {
        Option::Some("Bucket must not be empty"@)
    } else if c.access_key_id.len() == 0 {
        Option::Some("AccessKey ID must not be empty"@)
    } else if c.access_key_secret.len() == 0 {
        Option::Some("AccessKey Secret must not be empty"@)
    } else if c.path.len() == 0 {
        Option::Some("Storage path must not be empty"@)
    } else {
        Option::None
    }
}

impl OssConfig {
    /// Rejects a configuration with any required field empty, naming the
    /// first one missing.
    pub fn validate(&self) -> (r: Result<(), String>)
        ensures
            r is Ok <==> validate_oss_spec(self@) is None,
            r matches Err(m) ==> validate_oss_spec(self@) == Option::Some(m@),
    {
        if self.endpoint.as_str().is_empty() {
            return Result::Err(String::from_str("Endpoint must not be empty"));
        }
        if self.bucket.as_str().is_empty() {
            return Result::Err(String::from_str("Bucket must not be empty"));
        }
        if self.access_key_id.as_str().is_empty() {
            return Result::Err(String::from_str("AccessKey ID must not be empty"));
        }
        if self.access_key_secret.as_str().is_empty() {
            return Result::Err(String::from_str("AccessKey Secret must not be empty"));
        }
        if self.path.as_str().is_empty() {
            return Result::Err(String::from_str("Storage path must not be empty"));
        }
        Result::Ok(())
    }
}

// ------------------------------------------------------------------
// Request signing for the object-storage backend
// ------------------------------------------------------------------

/// Lexicographic order on character sequences, a prefix ordering before
/// its extensions.
pub open spec fn lex_le(a: Seq<char>, b: Seq<char>) -> bool
    decreases a.len(),
{
    if a.len() == 0 {
        true
    } else if b.len() == 0 {
        false
    } else if a[0] != b[0] {
        a[0] < b[0]
    } else {
        lex_le(a.drop_first(), b.drop_first())
    }
}

fn lex_le_str(a: &str, b: &str) -> (r: bool)
    ensures
        r == lex_le(a@, b@),
{
    let na = a.unicode_len();
    let nb = b.unicode_len();
    let mut i: usize = 0;
    proof {
        assert(a@.skip(0) =~= a@);
        assert(b@.skip(0) =~= b@);
    }
    while i < na && i < nb
        invariant
            i <= na,
            i <= nb,
            na == a@.len(),
            nb == b@.len(),
            lex_le(a@, b@) == lex_le(a@.skip(i as int), b@.skip(i as int)),
        decreases na - i,
    {
        let ca = a.get_char(i);
        let cb = b.get_char(i);
        proof {
            assert(a@.skip(i as int)[0] == a@[i as int]);
            assert(b@.skip(i as int)[0] == b@[i as int]);
            assert(a@.skip(i as int).drop_first() =~= a@.skip(i + 1));
            assert(b@.skip(i as int).drop_first() =~= b@.skip(i + 1));
        }
        if ca != cb {
            return ca < cb;
        }
        i = i + 1;
    }
    proof {
        if i == na {
            assert(a@.skip(i as int).len() == 0);
        } else {
            assert(b@.skip(i as int).len() == 0);
            assert(a@.skip(i as int).len() > 0);
        }
    }
    na <= nb
}

/// One header of a request.
pub open spec fn hdr_views(v: Seq<(String, String)>) -> Seq<(Seq<char>, Seq<char>)> {
    v.map_values(|h: (String, String)| (h.0@, h.1@))
}

/// Header order: by the lower-cased name.
pub open spec fn hdr_le(a: (Seq<char>, Seq<char>), b: (Seq<char>, Seq<char>)) -> bool {
    lex_le(lower_spec(a.0), lower_spec(b.0))
}

/// Stable insertion: the new header goes after every header that does not
/// order strictly above it.
pub open spec fn insert_hdr(s: Seq<(Seq<char>, Seq<char>)>, x: (Seq<char>, Seq<char>)) -> Seq<
    (Seq<char>, Seq<char>),
>
    decreases s.len(),
{
    if s.len() == 0 {
        seq![x]
    } else if hdr_le(s.last(), x) {
        s.push(x)
    } else {
        insert_hdr(s.drop_last(), x).push(s.last())
    }
}

/// The stable sort of the headers by lower-cased name.
pub open spec fn sort_hdrs(s: Seq<(Seq<char>, Seq<char>)>) -> Seq<(Seq<char>, Seq<char>)>
    decreases s.len(),
{
    if s.len() == 0 {
        Seq::<(Seq<char>, Seq<char>)>::empty()
    } else {
        insert_hdr(sort_hdrs(s.drop_last()), s.last())
    }
}

proof fn lemma_insert_hdr_at(s: Seq<(Seq<char>, Seq<char>)>, x: (Seq<char>, Seq<char>), j: int)
    requires
        0 <= j <= s.len(),
        forall|t: int| j <= t < s.len() ==> !hdr_le(#[trigger] s[t], x),
        j == 0 || hdr_le(s[j - 1], x),
    ensures
        insert_hdr(s, x) == s.take(j).push(x) + s.skip(j),
    decreases s.len() - j,
{
    if j == s.len() {
        if s.len() == 0 {
            assert(insert_hdr(s, x) =~= s.take(j).push(x) + s.skip(j));
        } else {
            assert(hdr_le(s.last(), x));
            assert(s.take(j) =~= s);
            assert(insert_hdr(s, x) =~= s.take(j).push(x) + s.skip(j));
        }
    } else {
        assert(!hdr_le(s.last(), x));
        let d = s.drop_last();
        assert(forall|t: int| j <= t < d.len() ==> !hdr_le(#[trigger] d[t], x));
        if j > 0 {
            assert(d[j - 1] == s[j - 1]);
        }
        lemma_insert_hdr_at(d, x, j);
        assert(insert_hdr(s, x) == (d.take(j).push(x) + d.skip(j)).push(s.last()));
        assert(d.take(j) =~= s.take(j));
        assert((d.take(j).push(x) + d.skip(j)).push(s.last()) =~= s.take(j).push(x) + s.skip(
            j,
        ));
    }
}

fn hdr_le_exec(a: &(String, String), b: &(String, String)) -> (r: bool)
    ensures
        r == hdr_le((a.0@, a.1@), (b.0@, b.1@)),
{
    let la = ascii_lower(a.0.as_str());
    let lb = ascii_lower(b.0.as_str());
    lex_le_str(la.as_str(), lb.as_str())
}

fn insert_header(out: &mut Vec<(String, String)>, x: (String, String))
    ensures
        hdr_views(final(out)@) == insert_hdr(hdr_views(old(out)@), (x.0@, x.1@)),
{
    let ghost oldv = hdr_views(out@);
    let ghost xv = (x.0@, x.1@);
    let mut j: usize = out.len();
    while j > 0 && !hdr_le_exec(&out[j - 1], &x)
        invariant
            j <= out@.len(),
            oldv == hdr_views(out@),
            xv == (x.0@, x.1@),
            forall|t: int| j <= t < oldv.len() ==> !hdr_le(#[trigger] oldv[t], xv),
        decreases j,
    {
        proof {
            assert(oldv[j - 1] == (out@[j - 1].0@, out@[j - 1].1@));
        }
        j = j - 1;
    }
    proof {
        lemma_insert_hdr_at(oldv, xv, j as int);
        if j > 0 {
            assert(oldv[j - 1] == (out@[j - 1].0@, out@[j - 1].1@));
        }
    }
    out.insert(j, x);
    proof {
        assert(hdr_views(out@) =~= oldv.take(j as int).push(xv) + oldv.skip(j as int));
    }
}

/// Sorts the headers stably by lower-cased name.
fn sort_headers(hs: &Vec<(String, String)>) -> (r: Vec<(String, String)>)
    ensures
        hdr_views(r@) == sort_hdrs(hdr_views(hs@)),
{
    let mut out: Vec<(String, String)> = Vec::new();
    let mut i: usize = 0;
    proof {
        assert(hdr_views(out@) =~= sort_hdrs(hdr_views(hs@).take(0)));
    }
    while i < hs.len()
        invariant
            i <= hs@.len(),
            hdr_views(out@) == sort_hdrs(hdr_views(hs@).take(i as int)),
        decreases hs@.len() - i,
    {
        let x = (hs[i].0.clone(), hs[i].1.clone());
        proof {
            let hv = hdr_views(hs@);
            assert(hv.take(i + 1).drop_last() =~= hv.take(i as int));
            assert(hv.take(i + 1).last() == hv[i as int]);
            assert(hv[i as int] == (hs@[i as int].0@, hs@[i as int].1@));
        }
        insert_header(&mut out, x);
        i = i + 1;
    }
    proof {
        assert(hdr_views(hs@).take(hs@.len() as int) =~= hdr_views(hs@));
    }
    out
}

/// True when `s` begins with `p`.
pub open spec fn has_prefix(s: Seq<char>, p: Seq<char>) -> bool {
    s.len() >= p.len() && s.subrange(0, p.len() as int) == p
}

/// The canonical line a header contributes: only names beginning with
/// the provider prefix count, lower-cased, with the value trimmed.
pub open spec fn canon_entry(h: (Seq<char>, Seq<char>)) -> Seq<char> {
    if has_prefix(lower_spec(h.0), "x-oss-"@) {
        lower_spec(h.0) + ":"@ + trim_spec(h.1) + "\n"@
    } else {
        Seq::<char>::empty()
    }
}

/// The canonicalized header block of the sorted headers.
pub open spec fn canon_headers(s: Seq<(Seq<char>, Seq<char>)>) -> Seq<char>
    decreases s.len(),
{
    if s.len() == 0 {
        Seq::<char>::empty()
    } else {
        canon_headers(s.drop_last()) + canon_entry(s.last())
    }
}

fn build_canon_headers(sorted: &Vec<(String, String)>) -> (r: String)
    ensures
        r@ == canon_headers(hdr_views(sorted@)),
{
    let mut r = String::new();
    let mut i: usize = 0;
    proof {
        assert(r@ =~= canon_headers(hdr_views(sorted@).take(0)));
    }
    while i < sorted.len()
        invariant
            i <= sorted@.len(),
            r@ == canon_headers(hdr_views(sorted@).take(i as int)),
        decreases sorted@.len() - i,
    {
        let ghost hv = hdr_views(sorted@);
        proof {
            assert(hv.take(i + 1).drop_last() =~= hv.take(i as int));
            assert(hv.take(i + 1).last() == hv[i as int]);
            assert(hv[i as int] == (sorted@[i as int].0@, sorted@[i as int].1@));
        }
        let lower = ascii_lower(sorted[i].0.as_str());
        if starts_with_str(lower.as_str(), "x-oss-") {
            let trimmed = trim(sorted[i].1.as_str());
            r.append(lower.as_str());
            r.append(":");
            r.append(trimmed.as_str());
            r.append("\n");
            proof {
                assert(r@ =~= canon_headers(hv.take(i as int)) + canon_entry(hv[i as int]));
            }
        } else {
            proof {
                assert(canon_entry(hv[i as int]) =~= Seq::<char>::empty());
                assert(r@ =~= canon_headers(hv.take(i as int)) + canon_entry(hv[i as int]));
            }
        }
        i = i + 1;
    }
    proof {
        assert(hdr_views(sorted@).take(sorted@.len() as int) =~= hdr_views(sorted@));
    }
    r
}

/// The exact line the backend signs: method, date, empty content hash,
/// the fixed content type, the canonicalized headers, and the resource.
pub open spec fn aliyun_string_to_sign(
    method: Seq<char>,
    date: Seq<char>,
    canon: Seq<char>,
    bucket: Seq<char>,
    path: Seq<char>,
) -> Seq<char> {
    method + "\n"@ + date + "\n"@ + "\n"@ + "application/json"@ + "\n"@ + canon + "/"@
        + bucket + "/"@ + path
}

/// The authorization value: the signing line's HMAC-SHA-1 tag under the
/// secret, Base64, behind a key-identifier slot the engine deliberately
/// leaves empty.
pub open spec fn aliyun_signature_spec(
    method: Seq<char>,
    date: Seq<char>,
    headers: Seq<(Seq<char>, Seq<char>)>,
    bucket: Seq<char>,
    path: Seq<char>,
    secret: Seq<char>,
) -> Seq<char> {
    "OSS :"@ + base64_of(
        hmac_sha1_of(
            encode_utf8(secret),
            encode_utf8(
                aliyun_string_to_sign(
                    method,
                    date,
                    canon_headers(sort_hdrs(headers)),
                    bucket,
                    path,
                ),
            ),
        ),
    )
}

/// Builds the first provider family's request signature from the method,
/// the date line, the headers, the bucket and object path, and the
/// secret.
pub fn generate_aliyun_signature(
    method: &str,
    bucket: &str,
    path: &str,
    access_key_secret: &str,
    headers: &Vec<(String, String)>,
    date: &str,
) -> (r: String)
    ensures
        r@ == aliyun_signature_spec(method@, date@, hdr_views(headers@), bucket@, path@,
            access_key_secret@),
{
    let sorted = sort_headers(headers);
    let canon = build_canon_headers(&sorted);
    let mut sts = String::new();
    sts.append(method);
    sts.append("\n");
    sts.append(date);
    sts.append("\n");
    sts.append("\n");
    sts.append("application/json");
    sts.append("\n");
    sts.append(canon.as_str());
    sts.append("/");
    sts.append(bucket);
    sts.append("/");
    sts.append(path);
    let tag = hmac_sha1(access_key_secret.as_bytes(), sts.as_str().as_bytes());
    let sig = base64_encode(tag.as_slice());
    let mut r = String::from_str("OSS :");
    r.append(sig.as_str());
    r
}

/// The second provider family's signing line: method, path and expiry.
pub open spec fn tencent_sign_string(method: Seq<char>, path: Seq<char>, expire: int) -> Seq<
    char,
> {
    method + "/"@ + path + "/"@ + dec_str_i64(expire)
}

/// The second provider family's authorization value: the algorithm tag,
/// the key identifier, the validity window twice, empty header and
/// parameter lists, and the Base64 tag of the signing line.
pub open spec fn tencent_signature_spec(
    method: Seq<char>,
    path: Seq<char>,
    secret: Seq<char>,
    secret_id: Seq<char>,
    date: int,
) -> Seq<char> {
    let expire = date + 3600;
    let window = dec_str_i64(date) + ";"@ + dec_str_i64(expire);
    "q-sign-algorithm=sha1&q-ak="@ + secret_id + "&q-sign-time="@ + window + "&q-key-time="@
        + window + "&q-header-list=&q-url-param-list=&q-signature="@ + base64_of(
        hmac_sha1_of(encode_utf8(secret), encode_utf8(tencent_sign_string(method, path, expire))),
    )
}

/// Builds the second provider family's request signature, valid for one
/// hour from `date`.
pub fn generate_tencent_signature(
    method: &str,
    path: &str,
    access_key_secret: &str,
    secret_id: &str,
    date: i64,
) -> (r: String)
    requires
        date <= 0x7fff_ffff_ffff_ffff - 3600,
    ensures
        r@ == tencent_signature_spec(method@, path@, access_key_secret@, secret_id@, date as int),
{
    let expire = date + 3600;
    let date_s = i64_to_string(date);
    let expire_s = i64_to_string(expire);
    let mut sign_string = String::new();
    sign_string.append(method);
    sign_string.append("/");
    sign_string.append(path);
    sign_string.append("/");
    sign_string.append(expire_s.as_str());
    let tag = hmac_sha1(access_key_secret.as_bytes(), sign_string.as_str().as_bytes());
    let sig = base64_encode(tag.as_slice());
    let mut r = String::from_str("q-sign-algorithm=sha1&q-ak=");
    r.append(secret_id);
    r.append("&q-sign-time=");
    r.append(date_s.as_str());
    r.append(";");
    r.append(expire_s.as_str());
    r.append("&q-key-time=");
    r.append(date_s.as_str());
    r.append(";");
    r.append(expire_s.as_str());
    r.append("&q-header-list=&q-url-param-list=&q-signature=");
    r.append(sig.as_str());
    r
}

/// The object URL of the first provider family: a full endpoint is used
/// path-style, a bare one virtual-host-style over https.
pub open spec fn aliyun_url_spec(endpoint: Seq<char>, bucket: Seq<char>, path: Seq<char>) -> Seq<
    char,
> {
    if has_prefix(endpoint, "http"@) {
        endpoint + "/"@ + bucket + "/"@ + path
    } else {
        "https://"@ + bucket + "."@ + endpoint + "/"@ + path
    }
}

pub fn aliyun_object_url(endpoint: &str, bucket: &str, path: &str) -> (r: String)
    ensures
        r@ == aliyun_url_spec(endpoint@, bucket@, path@),
{
    let mut r = String::new();
    if starts_with_str(endpoint, "http") {
        r.append(endpoint);
        r.append("/");
        r.append(bucket);
        r.append("/");
        r.append(path);
    } else {
        r.append("https://");
        r.append(bucket);
        r.append(".");
        r.append(endpoint);
        r.append("/");
        r.append(path);
    }
    r
}

/// The object URL of the second provider family, defaulting the region.
pub open spec fn tencent_url_spec(bucket: Seq<char>, region: Option<Seq<char>>, path: Seq<
    char,
>) -> Seq<char> {
    let reg = match region {
        Option::Some(rg) => rg,
        Option::None => "ap-beijing"@,
    };
    "https://"@ + bucket + ".cos."@ + reg + ".myqcloud.com/"@ + path
}

pub fn tencent_object_url(bucket: &str, region: &Option<String>, path: &str) -> (r: String)
    ensures
        r@ == tencent_url_spec(bucket@, opt_str_view(*region), path@),
{
    let mut r = String::from_str("https://");
    r.append(bucket);
    r.append(".cos.");
    match region {
        Option::Some(rg) => {
            r.append(rg.as_str());
        },
        Option::None => {
            r.append("ap-beijing");
        },
    }
    r.append(".myqcloud.com/");
    r.append(path);
    r
}

} // verus!

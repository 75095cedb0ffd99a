//! Import of browser-exported credential tables: rows of name, URL,
//! username and password, located by the header line, each becoming one
//! new entry tagged with the fixed import marker.

use vstd::prelude::*;
use vstd::string::*;
use crate::errors::VaultError;
use crate::model::{entry_views, PasswordEntry, PasswordEntryV};
use crate::timeid::new_uuid;
use crate::vault::{has_entry, wf, Vault};

verus! {

/// The rows a table parses into; absent exactly when the text is no
/// well-formed table (ragged rows included).
pub uninterp spec fn csv_rows(s: Seq<char>) -> Option<Seq<Seq<Seq<char>>>>;

/// Relies on csv::ReaderBuilder (headers off): every row of the table,
/// the header line first; what it yields depends on the text alone, and
/// rows of unequal width are refused.
#[verifier::external_body]
fn parse_csv(content: &str) -> (r: Option<Vec<Vec<String>>>)
    ensures
        r matches Some(rows) ==> csv_rows(content@) == Option::Some(rows.deep_view()),
        r is None ==> csv_rows(content@) is None,
{
    let mut rdr = csv::ReaderBuilder::new().has_headers(false).from_reader(content.as_bytes());
    let mut rows: Vec<Vec<String>> = Vec::new();
    for rec in rdr.records() {
        match rec {
            Ok(row) => rows.push(row.iter().map(|f| f.to_string()).collect()),
            Err(_) => {
                return None;
            },
        }
    }
    Some(rows)
}

/// The first column carrying the name, if any.
pub open spec fn find_col(header: Seq<Seq<char>>, name: Seq<char>) -> Option<int>
    decreases header.len(),
{
    if header.len() == 0 {
        Option::None
    } else if header[0] == name {
        Option::Some(0)
    } else {
        match find_col(header.drop_first(), name) {
            Option::Some(i) => Option::Some(i + 1),
            Option::None => Option::None,
        }
    }
}

proof fn lemma_find_col_at(header: Seq<Seq<char>>, name: Seq<char>, i: int)
    requires
        0 <= i < header.len(),
        forall|j: int| 0 <= j < i ==> header[j] != name,
        header[i] == name,
    ensures
        find_col(header, name) == Option::Some(i),
    decreases i,
{
    if i > 0 {
        let d = header.drop_first();
        assert(forall|j: int| 0 <= j < i - 1 ==> d[j] == header[j + 1]);
        lemma_find_col_at(d, name, i - 1);
    }
}

proof fn lemma_find_col_none(header: Seq<Seq<char>>, name: Seq<char>)
    requires
        forall|j: int| 0 <= j < header.len() ==> header[j] != name,
    ensures
        find_col(header, name) is None,
    decreases header.len(),
{
    if header.len() > 0 {
        let d = header.drop_first();
        assert(forall|j: int| 0 <= j < d.len() ==> d[j] == header[j + 1]);
        lemma_find_col_none(d, name);
    }
}

fn find_column(header: &Vec<String>, name: &str) -> (r: Option<usize>)
    ensures
        r matches Some(i) ==> find_col(crate::model::strs_views(header@), name@)
            == Option::Some(i as int),
        r is None ==> find_col(crate::model::strs_views(header@), name@) is None,
{
    let ghost hv = crate::model::strs_views(header@);
    let mut i: usize = 0;
    while i < header.len()
        invariant
            i <= header@.len(),
            hv == crate::model::strs_views(header@),
            forall|j: int| 0 <= j < i ==> #[trigger] hv[j] != name@,
        decreases header@.len() - i,
    {
        if crate::record::string_eq_str(&header[i], name) {
            proof {
                assert(hv[i as int] == name@);
                lemma_find_col_at(hv, name@, i as int);
            }
            return Option::Some(i);
        }
        i = i + 1;
    }
    proof {
        lemma_find_col_none(hv, name@);
    }
    Option::None
}

/// The four column positions an import needs: name, URL, username and
/// password, located by the header line.
pub open spec fn chrome_cols(header: Seq<Seq<char>>) -> Option<(int, int, int, int)> {
    match (find_col(header, "name"@), find_col(header, "url"@), find_col(header, "username"@),
    find_col(header, "password"@)) {
        (Option::Some(n), Option::Some(l), Option::Some(u), Option::Some(p)) => Option::Some(
            (n, l, u, p),
        ),
        _ => Option::None,
    }
}

/// Every data row reaches the four needed columns.
pub open spec fn rows_reach_cols(rows: Seq<Seq<Seq<char>>>, c: (int, int, int, int)) -> bool {
    forall|k: int|
        1 <= k < rows.len() ==> {
            let row = #[trigger] rows[k];
            c.0 < row.len() && c.1 < row.len() && c.2 < row.len() && c.3 < row.len()
        }
}

/// The shape of the entry imported from data row `j` (counting from
/// zero): its text comes from the located columns, it lands at the root
/// with the fixed marker tag and note, and its sort key is its arrival
/// number.  Only the freshly drawn identifier is left open.
pub open spec fn chrome_shape(
    e: PasswordEntryV,
    row: Seq<Seq<char>>,
    c: (int, int, int, int),
    j: int,
    now: i64,
) -> bool {
    &&& e.title == row[c.0]
    &&& e.url == Option::Some(seq![row[c.1]])
    &&& e.username == row[c.2]
    &&& e.password == row[c.3]
    &&& e.notes == "Imported from Chrome"@
    &&& e.totp_secret is None
    &&& e.icon_id is None
    &&& e.tags == Option::Some(seq!["Chrome"@])
    &&& e.group_id is None
    &&& e.sort_order == Option::Some(j as i64)
    &&& e.created_at == now
    &&& e.updated_at == now
    &&& e.history is None
}

/// Imports the parsed rows: the header line locates the columns, every
/// data row becomes one new entry with a fresh identifier.  Nothing is
/// added unless every row is acceptable; the one outcome that cannot be
/// pinned down is a collision of freshly drawn identifiers, which aborts
/// with a duplicate error and no change.
pub fn import_chrome_rows(vault: &mut Vault, rows: &Vec<Vec<String>>, now: i64) -> (r: Result<
    usize,
    VaultError,
>)
    requires
        wf(old(vault)@),
        old(vault)@.entries.len() + rows@.len() <= 0x7fff_ffff_ffff_ffff,
    ensures
        wf(final(vault)@),
        final(vault)@.groups == old(vault)@.groups,
        r matches Err(e) ==> *final(vault) == *old(vault) && (e == VaultError::MissingColumn || e
            == VaultError::DuplicateEntry),
        rows.deep_view().len() == 0 ==> r == Result::<usize, VaultError>::Ok(0) && *final(vault)
            == *old(vault),
        (rows.deep_view().len() > 0 && chrome_cols(rows.deep_view()[0]) is None) ==> r == Result::<
            usize,
            VaultError,
        >::Err(VaultError::MissingColumn),
        r == Result::<usize, VaultError>::Err(VaultError::MissingColumn) ==> rows.deep_view().len()
            > 0 && (chrome_cols(rows.deep_view()[0]) is None || !rows_reach_cols(
            rows.deep_view(),
            chrome_cols(rows.deep_view()[0])->0,
        )),
        (rows.deep_view().len() > 0 && chrome_cols(rows.deep_view()[0]) is Some && rows_reach_cols(
            rows.deep_view(),
            chrome_cols(rows.deep_view()[0])->0,
        )) ==> (r is Ok || r == Result::<usize, VaultError>::Err(VaultError::DuplicateEntry)),
        r matches Ok(n) ==> rows.deep_view().len() == 0 || {
            let rv = rows.deep_view();
            let c = chrome_cols(rv[0])->0;
            &&& chrome_cols(rv[0]) is Some
            &&& rows_reach_cols(rv, c)
            &&& n == rv.len() - 1
            &&& final(vault)@.entries.len() == old(vault)@.entries.len() + n
            &&& final(vault)@.entries.take(old(vault)@.entries.len() as int) == old(
                vault,
            )@.entries
            &&& forall|j: int|
                0 <= j < n as int ==> chrome_shape(
                    #[trigger] final(vault)@.entries[old(vault)@.entries.len() + j],
                    rv[j + 1],
                    c,
                    j,
                    now,
                )
        },
        r matches Ok(n) ==> (rows.deep_view().len() == 0 ==> n == 0),
{
    proof {
        assert(rows.deep_view().len() == rows@.len());
    }
    if rows.len() == 0 {
        return Result::Ok(0);
    }
    let ghost rv = rows.deep_view();
    proof {
        assert(rv[0] == rows@[0].deep_view());
        assert(rows@[0].deep_view() =~= crate::model::strs_views(rows@[0]@));
    }
    let header = &rows[0];
    let name_col = find_column(header, "name");
    let url_col = find_column(header, "url");
    let user_col = find_column(header, "username");
    let pass_col = find_column(header, "password");
    let (nc, lc, uc, pc): (usize, usize, usize, usize) = match (name_col, url_col, user_col,
    pass_col) {
        (Option::Some(n), Option::Some(l), Option::Some(u), Option::Some(p)) => (n, l, u, p),
        _ => {
            return Result::Err(VaultError::MissingColumn);
        },
    };
    let ghost c: (int, int, int, int) = (nc as int, lc as int, uc as int, pc as int);
    proof {
        assert(chrome_cols(rv[0]) == Option::Some(c));
    }
    // Build the whole suffix first, so that a refused row changes nothing.
    let mut suffix: Vec<PasswordEntry> = Vec::new();
    let mut k: usize = 1;
    while k < rows.len()
        invariant
            1 <= k <= rows@.len(),
            rows@.len() <= 0x7fff_ffff_ffff_ffff,
            rv == rows.deep_view(),
            rv.len() == rows@.len(),
            chrome_cols(rv[0]) == Option::Some(c),
            wf(vault@),
            *vault == *old(vault),
            c == (nc as int, lc as int, uc as int, pc as int),
            suffix@.len() == k - 1,
            forall|j: int|
                0 <= j < k - 1 ==> chrome_shape(
                    (#[trigger] suffix@[j])@,
                    rv[j + 1],
                    c,
                    j,
                    now,
                ),
            forall|j: int|
                0 <= j < k - 1 ==> !has_entry(vault@, (#[trigger] suffix@[j])@.id),
            forall|j1: int, j2: int|
                0 <= j1 < j2 < k - 1 ==> (#[trigger] suffix@[j1])@.id != (
                #[trigger] suffix@[j2])@.id,
            forall|j: int|
                1 <= j < k ==> {
                    let row = #[trigger] rv[j];
                    c.0 < row.len() && c.1 < row.len() && c.2 < row.len() && c.3 < row.len()
                },
        decreases rows@.len() - k,
    {
        proof {
            assert(rv[k as int] == rows@[k as int].deep_view());
            assert(rows@[k as int].deep_view() =~= crate::model::strs_views(rows@[k as int]@));
        }
        let row = &rows[k];
        if !(nc < row.len() && lc < row.len() && uc < row.len() && pc < row.len()) {
            proof {
                assert(rv[k as int].len() == rows@[k as int]@.len());
                assert(!(c.0 < rv[k as int].len() && c.1 < rv[k as int].len() && c.2 < rv[
                    k as int].len() && c.3 < rv[k as int].len()));
                assert(!rows_reach_cols(rv, c));
            }
            return Result::Err(VaultError::MissingColumn);
        }
        let id = new_uuid();
        if let Option::Some(_i) = vault.find_entry_index(id.as_str()) {
            return Result::Err(VaultError::DuplicateEntry);
        }
        let mut dup_in_suffix = false;
        let mut t: usize = 0;
        while t < suffix.len()
            invariant
                t <= suffix@.len(),
                !dup_in_suffix ==> forall|j: int|
                    0 <= j < t ==> (#[trigger] suffix@[j])@.id != id@,
            decreases suffix@.len() - t,
        {
            if crate::record::string_eq_str(&suffix[t].id, id.as_str()) {
                dup_in_suffix = true;
            }
            t = t + 1;
        }
        if dup_in_suffix {
            return Result::Err(VaultError::DuplicateEntry);
        }
        let mut urlv: Vec<String> = Vec::new();
        urlv.push(row[lc].clone());
        let mut tagv: Vec<String> = Vec::new();
        tagv.push(String::from_str("Chrome"));
        let ghost kk = (k - 1) as int;
        let e = PasswordEntry {
            id,
            title: row[nc].clone(),
            username: row[uc].clone(),
            password: row[pc].clone(),
            url: Option::Some(urlv),
            notes: String::from_str("Imported from Chrome"),
            totp_secret: Option::None,
            icon_id: Option::None,
            tags: Option::Some(tagv),
            group_id: Option::None,
            sort_order: Option::Some((k - 1) as i64),
            created_at: now,
            updated_at: now,
            history: Option::None,
        };
        proof {
            assert(crate::model::strs_views(e.url->0@) =~= seq![rv[k as int][c.1]]);
            assert(crate::model::strs_views(e.tags->0@) =~= seq!["Chrome"@]);
            assert(chrome_shape(e@, rv[k as int], c, kk, now));
        }
        suffix.push(e);
        k = k + 1;
    }
    // Append the suffix; every identifier was checked fresh.
    let ghost olde = vault@.entries;
    let n = suffix.len();
    let mut a: usize = 0;
    proof {
        assert(olde.take(olde.len() as int) =~= olde);
    }
    while a < n
        invariant
            a <= n,
            n == suffix@.len(),
            n == rows@.len() - 1,
            rv == rows.deep_view(),
            rv.len() == rows@.len(),
            rv.len() > 0,
            chrome_cols(rv[0]) == Option::Some((nc as int, lc as int, uc as int, pc as int)),
            forall|j: int|
                1 <= j < rv.len() ==> {
                    let row = #[trigger] rv[j];
                    nc < row.len() && lc < row.len() && uc < row.len() && pc < row.len()
                },
            wf(vault@),
            olde == old(vault)@.entries,
            vault@.groups == old(vault)@.groups,
            vault@.entries.len() == olde.len() + a,
            vault@.entries.take(olde.len() as int) == olde,
            forall|j: int|
                0 <= j < a ==> #[trigger] vault@.entries[olde.len() + j] == suffix@[j]@,
            forall|j: int|
                0 <= j < n as int ==> chrome_shape(
                    (#[trigger] suffix@[j])@,
                    rows.deep_view()[j + 1],
                    (nc as int, lc as int, uc as int, pc as int),
                    j,
                    now,
                ),
            forall|j: int|
                0 <= j < n as int ==> !has_entry(
                    crate::vault::VaultV { groups: old(vault)@.groups, entries: olde },
                    (#[trigger] suffix@[j])@.id,
                ),
            forall|j1: int, j2: int|
                0 <= j1 < j2 < n as int ==> (#[trigger] suffix@[j1])@.id != (
                #[trigger] suffix@[j2])@.id,
        decreases n - a,
    {
        let ghost pre = vault@.entries;
        let e = suffix[a].duplicate();
        proof {
            assert(e@ == suffix@[a as int]@);
            assert(!has_entry(vault@, e@.id)) by {
                assert(forall|j: int|
                    0 <= j < a ==> #[trigger] pre[olde.len() + j] == suffix@[j]@);
                assert forall|i: int| 0 <= i < pre.len() implies (#[trigger] pre[i]).id
                    != e@.id by {
                    if i < olde.len() {
                        assert(pre[i] == olde[i]);
                        assert(!has_entry(
                            crate::vault::VaultV { groups: old(vault)@.groups, entries: olde },
                            suffix@[a as int]@.id,
                        ));
                    } else {
                        let j = i - olde.len();
                        assert(pre[olde.len() + j] == suffix@[j]@);
                    }
                }
            }
        }
        vault.push_root_entry(e);
        proof {
            assert(vault@.entries.take(olde.len() as int) =~= olde);
        }
        a = a + 1;
    }
    Result::Ok(n)
}

/// Parses a browser-exported table and imports its rows.
pub fn import_chrome_csv(vault: &mut Vault, csv_content: &str, now: i64) -> (r: Result<
    usize,
    VaultError,
>)
    requires
        wf(old(vault)@),
        old(vault)@.entries.len() <= 0x6fff_ffff_ffff_ffff,
    ensures
        wf(final(vault)@),
        final(vault)@.groups == old(vault)@.groups,
        csv_rows(csv_content@) is None ==> r == Result::<usize, VaultError>::Err(
            VaultError::MalformedCsv,
        ) && *final(vault) == *old(vault),
        r matches Err(e) ==> *final(vault) == *old(vault) && (e == VaultError::MalformedCsv || e
            == VaultError::MissingColumn || e == VaultError::DuplicateEntry),
        r == Result::<usize, VaultError>::Err(VaultError::MalformedCsv) ==> (csv_rows(
            csv_content@,
        ) is None || csv_rows(csv_content@)->0.len() > 0x0fff_ffff_ffff_ffff),
        r == Result::<usize, VaultError>::Err(VaultError::MissingColumn) ==> (csv_rows(
            csv_content@,
        ) matches Some(rv) && rv.len() > 0 && (chrome_cols(rv[0]) is None || !rows_reach_cols(
            rv,
            chrome_cols(rv[0])->0,
        ))),
        (csv_rows(csv_content@) matches Some(rv) && rv.len() <= 0x0fff_ffff_ffff_ffff && (rv.len()
            == 0 || (chrome_cols(rv[0]) is Some && rows_reach_cols(rv, chrome_cols(rv[0])->0))))
            ==> (r is Ok || r == Result::<usize, VaultError>::Err(VaultError::DuplicateEntry)),
        r matches Ok(n) ==> csv_rows(csv_content@) matches Some(rv) && (rv.len() == 0 ==> n == 0)
            && (rv.len() == 0 || {
            let c = chrome_cols(rv[0])->0;
            &&& chrome_cols(rv[0]) is Some
            &&& n == rv.len() - 1
            &&& final(vault)@.entries.len() == old(vault)@.entries.len() + n
            &&& final(vault)@.entries.take(old(vault)@.entries.len() as int) == old(
                vault,
            )@.entries
            &&& forall|j: int|
                0 <= j < n as int ==> chrome_shape(
                    #[trigger] final(vault)@.entries[old(vault)@.entries.len() + j],
                    rv[j + 1],
                    c,
                    j,
                    now,
                )
        }),
{
    let rows = match parse_csv(csv_content) {
        Option::Some(rows) => rows,
        Option::None => {
            return Result::Err(VaultError::MalformedCsv);
        },
    };
    if rows.len() as u64 > 0x0fff_ffff_ffff_ffffu64 {
        return Result::Err(VaultError::MalformedCsv);
    }
    import_chrome_rows(vault, &rows, now)
}

} // verus!

//! Character-level string helpers: trimming, splitting on a separator,
//! joining with a separator, and ASCII case conversion, with exact
//! specifications and the round-trip law that joining clean parts and
//! splitting the result gives the parts back.

use vstd::prelude::*;
use vstd::string::*;
use vstd::seq_lib::*;

verus! {

/// Relies on String::push: appends exactly one character at the end.
pub assume_specification[ String::push ](s: &mut String, ch: char)
    ensures
        final(s)@ == old(s)@.push(ch),
;

/// Relies on char::from_u32: yields the scalar as a char exactly when the
/// value is a valid Unicode scalar value.
pub assume_specification[ char::from_u32 ](v: u32) -> (r: Option<char>)
    ensures
        (v < 0xD800 || (0xE000 <= v && v <= 0x10FFFF)) ==> r == Some(v as char),
        !(v < 0xD800 || (0xE000 <= v && v <= 0x10FFFF)) ==> r is None,
;

/// The whitespace characters stripped from the edges of split parts.
pub open spec fn is_space(c: char) -> bool {
    c == ' ' || c == '\t' || c == '\r' || c == '\n'
}

pub open spec fn trim_start_spec(s: Seq<char>) -> Seq<char>
    decreases s.len(),
{
    if s.len() > 0 && is_space(s[0]) {
        trim_start_spec(s.drop_first())
    } else {
        s
    }
}

pub open spec fn trim_end_spec(s: Seq<char>) -> Seq<char>
    decreases s.len(),
{
    if s.len() > 0 && is_space(s.last()) {
        trim_end_spec(s.drop_last())
    } else {
        s
    }
}

/// The sequence with leading and trailing whitespace removed.
pub open spec fn trim_spec(s: Seq<char>) -> Seq<char> {
    trim_end_spec(trim_start_spec(s))
}

/// The raw segments of `s` around the separator: splitting the empty
/// sequence gives one empty segment, and every separator ends the segment
/// before it.  The result always holds at least one segment.
pub open spec fn raw_segments(s: Seq<char>, sep: char) -> Seq<Seq<char>>
    decreases s.len(),
{
    if s.len() == 0 {
        seq![Seq::<char>::empty()]
    } else {
        let prev = raw_segments(s.drop_last(), sep);
        if s.last() == sep {
            prev.push(Seq::<char>::empty())
        } else {
            prev.drop_last().push(prev.last().push(s.last()))
        }
    }
}

/// The parts joined with a single separator between consecutive parts.
pub open spec fn join_parts(parts: Seq<Seq<char>>, sep: char) -> Seq<char>
    decreases parts.len(),
{
    if parts.len() == 0 {
        Seq::<char>::empty()
    } else if parts.len() == 1 {
        parts[0]
    } else {
        join_parts(parts.drop_last(), sep).push(sep) + parts.last()
    }
}

/// The segments of `s`, each trimmed, with empty results dropped: the shape
/// in which multi-valued custom fields are read back.
pub open spec fn clean_parts(s: Seq<char>, sep: char) -> Seq<Seq<char>> {
    raw_segments(s, sep).map_values(|p: Seq<char>| trim_spec(p)).filter(
        |p: Seq<char>| p.len() != 0,
    )
}

pub proof fn lemma_raw_segments_nonempty(s: Seq<char>, sep: char)
    ensures
        raw_segments(s, sep).len() >= 1,
    decreases s.len(),
{
    if s.len() > 0 {
        lemma_raw_segments_nonempty(s.drop_last(), sep);
    }
}

/// Appending separator-free characters only extends the last segment.
proof fn lemma_segments_append_free(x: Seq<char>, y: Seq<char>, sep: char)
    requires
        forall|i: int| 0 <= i < y.len() ==> y[i] != sep,
    ensures
        raw_segments(x + y, sep) == raw_segments(x, sep).drop_last().push(
            raw_segments(x, sep).last() + y,
        ),
    decreases y.len(),
{
    lemma_raw_segments_nonempty(x, sep);
    let rx = raw_segments(x, sep);
    if y.len() == 0 {
        assert(x + y =~= x);
        assert(rx.last() + y =~= rx.last());
        assert(rx.drop_last().push(rx.last()) =~= rx);
    } else {
        lemma_segments_append_free(x, y.drop_last(), sep);
        assert((x + y).drop_last() =~= x + y.drop_last());
        assert((x + y).last() == y.last());
        assert(y.last() != sep);
        let prev = raw_segments(x + y.drop_last(), sep);
        assert(prev == rx.drop_last().push(rx.last() + y.drop_last()));
        assert(prev.drop_last() =~= rx.drop_last());
        assert(prev.last() == rx.last() + y.drop_last());
        assert(raw_segments(x + y, sep) == prev.drop_last().push(prev.last().push(y.last())));
        assert((rx.last() + y.drop_last()).push(y.last()) =~= rx.last() + y);
    }
}

/// Splitting the join of separator-free parts recovers exactly the parts.
pub proof fn lemma_segments_of_join(parts: Seq<Seq<char>>, sep: char)
    requires
        parts.len() >= 1,
        forall|i: int, j: int|
            0 <= i < parts.len() && 0 <= j < parts[i].len() ==> parts[i][j] != sep,
    ensures
        raw_segments(join_parts(parts, sep), sep) == parts,
    decreases parts.len(),
{
    if parts.len() == 1 {
        let p = parts[0];
        assert(join_parts(parts, sep) == p);
        assert(Seq::<char>::empty() + p =~= p);
        lemma_segments_append_free(Seq::<char>::empty(), p, sep);
        let re = raw_segments(Seq::<char>::empty(), sep);
        assert(re =~= seq![Seq::<char>::empty()]);
        assert(re.drop_last() =~= Seq::<Seq<char>>::empty());
        assert(re.last() + p =~= p);
        assert(raw_segments(p, sep) =~= seq![p]);
        assert(parts =~= seq![p]);
    } else {
        let pre = parts.drop_last();
        assert(forall|i: int, j: int|
            0 <= i < pre.len() && 0 <= j < pre[i].len() ==> pre[i][j] != sep);
        lemma_segments_of_join(pre, sep);
        let jp = join_parts(pre, sep);
        assert(join_parts(parts, sep) == jp.push(sep) + parts.last());
        assert(jp.push(sep).drop_last() =~= jp);
        assert(jp.push(sep).last() == sep);
        assert(raw_segments(jp.push(sep), sep) == pre.push(Seq::<char>::empty()));
        lemma_segments_append_free(jp.push(sep), parts.last(), sep);
        let rp = raw_segments(jp.push(sep), sep);
        assert(rp.drop_last() =~= pre);
        assert(rp.last() =~= Seq::<char>::empty());
        assert(Seq::<char>::empty() + parts.last() =~= parts.last());
        assert(pre.push(parts.last()) =~= parts);
    }
}

/// A filter that every element passes changes nothing.
pub proof fn lemma_filter_all_true<A>(s: Seq<A>, p: spec_fn(A) -> bool)
    requires
        forall|i: int| 0 <= i < s.len() ==> #[trigger] p(s[i]),
    ensures
        s.filter(p) == s,
    decreases s.len(),
{
    reveal(Seq::filter);
    if s.len() > 0 {
        assert(forall|i: int| 0 <= i < s.drop_last().len() ==> #[trigger] p(s.drop_last()[i]));
        lemma_filter_all_true(s.drop_last(), p);
        assert(p(s.last()));
        assert(s.drop_last().push(s.last()) =~= s);
    }
}

/// The round-trip law of the multi-valued field shape: joining parts that
/// are non-empty, already trimmed and separator-free, then splitting,
/// trimming and dropping empties, yields the original parts.
pub proof fn lemma_clean_parts_of_join(parts: Seq<Seq<char>>, sep: char)
    requires
        parts.len() >= 1,
        forall|i: int| 0 <= i < parts.len() ==> (#[trigger] parts[i]).len() != 0,
        forall|i: int| 0 <= i < parts.len() ==> trim_spec(#[trigger] parts[i]) == parts[i],
        forall|i: int, j: int|
            0 <= i < parts.len() && 0 <= j < parts[i].len() ==> parts[i][j] != sep,
    ensures
        clean_parts(join_parts(parts, sep), sep) == parts,
{
    lemma_segments_of_join(parts, sep);
    let mapped = parts.map_values(|p: Seq<char>| trim_spec(p));
    assert(mapped =~= parts);
    lemma_filter_all_true(parts, |p: Seq<char>| p.len() != 0);
}

// ------------------------------------------------------------------
// Executable helpers
// ------------------------------------------------------------------

pub fn is_space_char(c: char) -> (r: bool)
    ensures
        r == is_space(c),
{
    c == ' ' || c == '\t' || c == '\r' || c == '\n'
}

/// The upper-case form of an ASCII lower-case letter; any other character
/// is returned unchanged.
pub open spec fn upper_char_spec(c: char) -> char {
    if 'a' <= c && c <= 'z' {
        ((c as u32) - 32) as char
    } else {
        c
    }
}

pub fn ascii_upper_char(c: char) -> (r: char)
    ensures
        r == upper_char_spec(c),
{
    if 'a' <= c && c <= 'z' {
        let v: u32 = (c as u32) - 32;
        match char::from_u32(v) {
            Some(u) => u,
            None => c,
        }
    } else {
        c
    }
}

/// The lower-case form of an ASCII upper-case letter; any other character
/// is returned unchanged.
pub open spec fn lower_char_spec(c: char) -> char {
    if 'A' <= c && c <= 'Z' {
        ((c as u32) + 32) as char
    } else {
        c
    }
}

pub fn ascii_lower_char(c: char) -> (r: char)
    ensures
        r == lower_char_spec(c),
{
    if 'A' <= c && c <= 'Z' {
        let v: u32 = (c as u32) + 32;
        match char::from_u32(v) {
            Some(u) => u,
            None => c,
        }
    } else {
        c
    }
}

/// Every character of a string lower-cased at the ASCII level.
pub open spec fn lower_spec(s: Seq<char>) -> Seq<char> {
    s.map_values(|c: char| lower_char_spec(c))
}

pub fn ascii_lower(s: &str) -> (r: String)
    ensures
        r@ == lower_spec(s@),
{
    let n = s.unicode_len();
    let mut r = String::new();
    let mut i: usize = 0;
    while i < n
        invariant
            i <= n,
            n == s@.len(),
            r@ == lower_spec(s@.take(i as int)),
        decreases n - i,
    {
        let c = s.get_char(i);
        r.push(ascii_lower_char(c));
        proof {
            assert(s@.take(i + 1).map_values(|c: char| lower_char_spec(c)) =~= s@.take(
                i as int,
            ).map_values(|c: char| lower_char_spec(c)).push(lower_char_spec(s@[i as int])));
        }
        i = i + 1;
    }
    proof {
        assert(s@.take(n as int) =~= s@);
    }
    r
}

proof fn lemma_trim_start_at(s: Seq<char>, k: int)
    requires
        0 <= k <= s.len(),
        forall|j: int| 0 <= j < k ==> is_space(s[j]),
        k == s.len() || !is_space(s[k]),
    ensures
        trim_start_spec(s) == s.subrange(k, s.len() as int),
    decreases k,
{
    if k == 0 {
        assert(s.subrange(0, s.len() as int) =~= s);
    } else {
        assert(is_space(s[0]));
        let d = s.drop_first();
        assert(forall|j: int| 0 <= j < k - 1 ==> is_space(#[trigger] d[j]));
        lemma_trim_start_at(d, k - 1);
        assert(d.subrange(k - 1, d.len() as int) =~= s.subrange(k, s.len() as int));
    }
}

proof fn lemma_trim_end_at(s: Seq<char>, k: int)
    requires
        0 <= k <= s.len(),
        forall|j: int| k <= j < s.len() ==> is_space(s[j]),
        k == 0 || !is_space(s[k - 1]),
    ensures
        trim_end_spec(s) == s.subrange(0, k),
    decreases s.len() - k,
{
    if k == s.len() {
        if s.len() > 0 {
            assert(!is_space(s.last()));
        }
        assert(s.subrange(0, s.len() as int) =~= s);
    } else {
        assert(is_space(s.last()));
        let d = s.drop_last();
        lemma_trim_end_at(d, k);
        assert(d.subrange(0, k) =~= s.subrange(0, k));
    }
}

/// Strips the whitespace of `is_space` from both ends.
pub fn trim(s: &str) -> (r: String)
    ensures
        r@ == trim_spec(s@),
{
    let n = s.unicode_len();
    let mut i: usize = 0;
    while i < n && is_space_char(s.get_char(i))
        invariant
            i <= n,
            n == s@.len(),
            forall|j: int| 0 <= j < i ==> is_space(s@[j]),
        decreases n - i,
    {
        i = i + 1;
    }
    let mut j: usize = n;
    while j > i && is_space_char(s.get_char(j - 1))
        invariant
            i <= j <= n,
            n == s@.len(),
            forall|t: int| j <= t < n ==> is_space(s@[t]),
        decreases j,
    {
        j = j - 1;
    }
    let piece = s.substring_char(i, j);
    let r = piece.to_owned();
    proof {
        lemma_trim_start_at(s@, i as int);
        let mid = s@.subrange(i as int, n as int);
        lemma_trim_end_at(mid, j - i);
        assert(mid.subrange(0, j - i) =~= s@.subrange(i as int, j as int));
    }
    r
}

/// The views of a vector of strings.
pub open spec fn strs_view(v: Seq<String>) -> Seq<Seq<char>> {
    v.map_values(|s: String| s@)
}

/// Splits into the raw segments around `sep`.
pub fn split_raw(s: &str, sep: char) -> (r: Vec<String>)
    ensures
        strs_view(r@) == raw_segments(s@, sep),
{
    let n = s.unicode_len();
    let mut out: Vec<String> = Vec::new();
    let mut cur = String::new();
    let mut i: usize = 0;
    while i < n
        invariant
            i <= n,
            n == s@.len(),
            strs_view(out@).push(cur@) == raw_segments(s@.take(i as int), sep),
        decreases n - i,
    {
        let c = s.get_char(i);
        if c == sep {
            out.push(cur);
            cur = String::new();
            proof {
                assert(strs_view(out@) =~= strs_view(out@.drop_last()).push(
                    out@.last()@,
                ));
            }
        } else {
            cur.push(c);
        }
        proof {
            let t1 = s@.take(i + 1);
            assert(t1.drop_last() =~= s@.take(i as int));
            assert(t1.last() == s@[i as int]);
            lemma_raw_segments_nonempty(s@.take(i as int), sep);
            if s@[i as int] != sep {
                let prev = raw_segments(s@.take(i as int), sep);
                assert(prev.drop_last() =~= strs_view(out@));
            }
        }
        i = i + 1;
    }
    out.push(cur);
    proof {
        assert(s@.take(n as int) =~= s@);
        assert(strs_view(out@) =~= strs_view(out@.drop_last()).push(out@.last()@));
    }
    out
}

/// Joins the parts, writing `sep` between consecutive parts.
pub fn join_with(parts: &Vec<String>, sep: char) -> (r: String)
    ensures
        r@ == join_parts(strs_view(parts@), sep),
{
    let mut r = String::new();
    let mut i: usize = 0;
    while i < parts.len()
        invariant
            i <= parts.len(),
            r@ == join_parts(strs_view(parts@).take(i as int), sep),
        decreases parts.len() - i,
    {
        if i > 0 {
            r.push(sep);
        }
        r.append(parts[i].as_str());
        proof {
            let pv = strs_view(parts@);
            let t1 = pv.take(i + 1);
            assert(t1.drop_last() =~= pv.take(i as int));
            assert(t1.last() == parts@[i as int]@);
            if i == 0 {
                assert(t1.len() == 1);
                assert(t1[0] == parts@[0]@);
            }
        }
        i = i + 1;
    }
    proof {
        assert(strs_view(parts@).take(parts@.len() as int) =~= strs_view(parts@));
    }
    r
}

/// Splits on `sep`, trims every part, and drops the empty ones.
pub fn clean_split(s: &str, sep: char) -> (r: Vec<String>)
    ensures
        strs_view(r@) == clean_parts(s@, sep),
{
    let raw = split_raw(s, sep);
    let ghost trimmed_all = raw_segments(s@, sep).map_values(|p: Seq<char>| trim_spec(p));
    let mut out: Vec<String> = Vec::new();
    let mut i: usize = 0;
    proof {
        reveal(Seq::filter);
    }
    while i < raw.len()
        invariant
            i <= raw.len(),
            strs_view(raw@) == raw_segments(s@, sep),
            trimmed_all == raw_segments(s@, sep).map_values(|p: Seq<char>| trim_spec(p)),
            strs_view(out@) == trimmed_all.take(i as int).filter(|p: Seq<char>| p.len() != 0),
        decreases raw.len() - i,
    {
        proof {
            reveal(Seq::filter);
        }
        let t = trim(raw[i].as_str());
        proof {
            let t1 = trimmed_all.take(i + 1);
            assert(t1.drop_last() =~= trimmed_all.take(i as int));
            assert(t1.last() == trim_spec(raw@[i as int]@));
        }
        if t.as_str().unicode_len() > 0 {
            out.push(t);
            proof {
                assert(strs_view(out@) =~= strs_view(out@.drop_last()).push(out@.last()@));
            }
        }
        i = i + 1;
    }
    proof {
        assert(trimmed_all.take(trimmed_all.len() as int) =~= trimmed_all);
    }
    out
}

/// True when `s` begins with `prefix`.
pub fn starts_with_str(s: &str, prefix: &str) -> (r: bool)
    ensures
        r == (s@.len() >= prefix@.len() && s@.subrange(0, prefix@.len() as int) == prefix@),
{
    let n = s.unicode_len();
    let m = prefix.unicode_len();
    if n < m {
        return false;
    }
    let mut i: usize = 0;
    while i < m
        invariant
            i <= m,
            m <= n,
            n == s@.len(),
            m == prefix@.len(),
            forall|j: int| 0 <= j < i ==> s@[j] == prefix@[j],
        decreases m - i,
    {
        if s.get_char(i) != prefix.get_char(i) {
            assert(s@.subrange(0, m as int)[i as int] != prefix@[i as int]);
            return false;
        }
        i = i + 1;
    }
    proof {
        assert(s@.subrange(0, m as int) =~= prefix@);
    }
    true
}

/// True when `sub` occurs contiguously somewhere in `s`.
pub open spec fn contains_sub_spec(s: Seq<char>, sub: Seq<char>) -> bool {
    exists|k: int| 0 <= k && k + sub.len() <= s.len() && #[trigger] s.subrange(k, k + sub.len())
        == sub
}

pub fn contains_sub(s: &str, sub: &str) -> (r: bool)
    ensures
        r == contains_sub_spec(s@, sub@),
{
    let n = s.unicode_len();
    let m = sub.unicode_len();
    if m > n {
        return false;
    }
    let bound = n - m;
    let mut k: usize = 0;
    loop
        invariant
            k <= bound,
            m <= n,
            bound == n - m,
            n == s@.len(),
            m == sub@.len(),
            forall|t: int|
                0 <= t < k ==> #[trigger] s@.subrange(t, t + sub@.len()) != sub@,
        decreases bound - k,
    {
        let mut i: usize = 0;
        let mut matches = true;
        while i < m
            invariant
                i <= m,
                k + m <= n,
                n == s@.len(),
                m == sub@.len(),
                matches ==> forall|j: int| 0 <= j < i ==> s@[k + j] == sub@[j],
                !matches ==> s@.subrange(k as int, k + m) != sub@,
            decreases m - i,
        {
            if s.get_char(k + i) != sub.get_char(i) {
                proof {
                    assert(s@.subrange(k as int, k + m)[i as int] == s@[k + i]);
                }
                matches = false;
                i = m;
            } else {
                i = i + 1;
            }
        }
        if matches {
            proof {
                assert(s@.subrange(k as int, k + m) =~= sub@);
            }
            return true;
        }
        if k == bound {
            proof {
                assert(forall|t: int|
                    #![trigger s@.subrange(t, t + sub@.len())]
                    0 <= t && t + sub@.len() <= s@.len() ==> t <= bound);
            }
            return false;
        }
        k = k + 1;
    }
}

} // verus!

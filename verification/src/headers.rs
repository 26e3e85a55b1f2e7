//! The header parser: splits raw `"Name: Value"` strings at the first
//! colon, trims both sides, and collects the results into a map with
//! last-writer-wins semantics for duplicate names.

use vstd::prelude::*;

use crate::text::{lemma_trim_drop_leading_space, lemma_trim_idempotent, lemma_trim_keeps_absence,
    trim, trim_str};

verus! {

/// Whether a raw header string holds the mandatory `:` delimiter.
pub open spec fn contains_colon(s: Seq<char>) -> bool {
    exists|i: int| 0 <= i < s.len() && s[i] == ':'
}

/// Position of the first `:` in `s` (meaningful only when one exists).
pub open spec fn first_colon(s: Seq<char>) -> int
    decreases s.len(),
{
    if s.len() == 0 {
        0
    } else if s[0] == ':' {
        0
    } else {
        1 + first_colon(s.subrange(1, s.len() as int))
    }
}

/// The field-name a raw header string parses to: the trimmed prefix of
/// the first colon.
pub open spec fn header_key(s: Seq<char>) -> Seq<char> {
    trim(s.subrange(0, first_colon(s)))
}

/// The field-value a raw header string parses to: the trimmed suffix of
/// the first colon.
pub open spec fn header_value(s: Seq<char>) -> Seq<char> {
    trim(s.subrange(first_colon(s) + 1, s.len() as int))
}

/// When a colon exists, `first_colon` points at the first one.
pub proof fn lemma_first_colon(s: Seq<char>)
    requires
        contains_colon(s),
    ensures
        0 <= first_colon(s) < s.len(),
        s[first_colon(s)] == ':',
        forall|j: int| 0 <= j < first_colon(s) ==> s[j] != ':',
    decreases s.len(),
{
    if s.len() > 0 && s[0] != ':' {
        let s1 = s.subrange(1, s.len() as int);
        assert(forall|j: int| 0 <= j < s1.len() ==> s1[j] == s[j + 1]);
        assert(contains_colon(s1)) by {
            let w = choose|i: int| 0 <= i < s.len() && s[i] == ':';
            assert(s1[w - 1] == ':');
        }
        lemma_first_colon(s1);
        assert forall|j: int| 0 <= j < first_colon(s) implies s[j] != ':' by {
            if j >= 1 {
                assert(s1[j - 1] != ':');
            }
        }
    }
}

/// `first_colon` is determined by any position that is a colon with none
/// before it.
pub proof fn lemma_first_colon_at(s: Seq<char>, i: int)
    requires
        0 <= i < s.len(),
        s[i] == ':',
        forall|j: int| 0 <= j < i ==> s[j] != ':',
    ensures
        first_colon(s) == i,
    decreases s.len(),
{
    if s[0] != ':' {
        let s1 = s.subrange(1, s.len() as int);
        assert(forall|j: int| 0 <= j < s1.len() ==> s1[j] == s[j + 1]);
        lemma_first_colon_at(s1, i - 1);
    }
}

/// Finds the first colon of `s`, if any.
fn find_colon(s: &str) -> (r: Option<usize>)
    ensures
        (r is Some) == contains_colon(s@),
        r matches Some(i) ==> i as int == first_colon(s@),
{
    let n: usize = s.unicode_len();
    let mut i: usize = 0;
    while i < n
        invariant
            n == s@.len(),
            0 <= i <= n,
            forall|k: int| 0 <= k < i ==> s@[k] != ':',
        decreases n - i,
    {
        if s.get_char(i) == ':' {
            proof {
                lemma_first_colon_at(s@, i as int);
            }
            return Some(i);
        }
        i += 1;
    }
    None
}

/// Parses one raw header string. Returns the trimmed name/value pair
/// split at the first colon, or nothing when the string has no colon.
pub fn parse_header(s: &str) -> (r: Option<(String, String)>)
    ensures
        (r is Some) == contains_colon(s@),
        r matches Some(kv) ==> kv.0@ == header_key(s@) && kv.1@ == header_value(s@),
{
    match find_colon(s) {
        Some(i) => {
            let n: usize = s.unicode_len();
            proof {
                lemma_first_colon(s@);
            }
            let k = trim_str(s.substring_char(0, i));
            let v = trim_str(s.substring_char(i + 1, n));
            Some((k, v))
        },
        None => None,
    }
}

/// The map described by a sequence of name/value pairs, later pairs
/// overwriting earlier ones.
pub open spec fn entries_map(es: Seq<(Seq<char>, Seq<char>)>) -> Map<Seq<char>, Seq<char>>
    decreases es.len(),
{
    if es.len() == 0 {
        Map::empty()
    } else {
        entries_map(es.drop_last()).insert(es.last().0, es.last().1)
    }
}

/// If position `i` holds the last occurrence of its key, the map stores
/// its value under that key.
proof fn lemma_entries_map_found(es: Seq<(Seq<char>, Seq<char>)>, i: int)
    requires
        0 <= i < es.len(),
        forall|m: int| i < m < es.len() ==> es[m].0 != es[i].0,
    ensures
        entries_map(es).contains_key(es[i].0),
        entries_map(es)[es[i].0] == es[i].1,
    decreases es.len(),
{
    if i < es.len() - 1 {
        let es1 = es.drop_last();
        assert(forall|m: int| 0 <= m < es1.len() ==> es1[m] == es[m]);
        lemma_entries_map_found(es1, i);
    }
}

/// A key that occurs in no pair is not in the map.
proof fn lemma_entries_map_absent(es: Seq<(Seq<char>, Seq<char>)>, k: Seq<char>)
    requires
        forall|m: int| 0 <= m < es.len() ==> es[m].0 != k,
    ensures
        !entries_map(es).contains_key(k),
    decreases es.len(),
{
    if es.len() > 0 {
        lemma_entries_map_absent(es.drop_last(), k);
    }
}

/// No two pairs bind the same key.
pub open spec fn unique_keys(es: Seq<(Seq<char>, Seq<char>)>) -> bool {
    forall|a: int, b: int| 0 <= a < b < es.len() ==> es[a].0 != es[b].0
}

/// When every key occurs at most once, overwriting the pair that holds
/// `p`'s key describes the same map as inserting `p`.
proof fn lemma_entries_map_update(es: Seq<(Seq<char>, Seq<char>)>, i: int, p: (Seq<char>, Seq<char>))
    requires
        0 <= i < es.len(),
        es[i].0 == p.0,
        unique_keys(es),
    ensures
        entries_map(es.update(i, p)) == entries_map(es).insert(p.0, p.1),
    decreases es.len(),
{
    let u = es.update(i, p);
    if i == es.len() - 1 {
        assert(u.drop_last() =~= es.drop_last());
        assert(entries_map(es).insert(p.0, p.1) =~= entries_map(es.drop_last()).insert(
            p.0,
            p.1,
        ));
    } else {
        let d = es.drop_last();
        assert(u.drop_last() =~= d.update(i, p));
        assert(forall|m: int| 0 <= m < d.len() ==> d[m] == es[m]);
        assert(unique_keys(d));
        lemma_entries_map_update(d, i, p);
        assert(es.last().0 != p.0);
        assert(entries_map(d).insert(p.0, p.1).insert(es.last().0, es.last().1)
            =~= entries_map(d).insert(es.last().0, es.last().1).insert(p.0, p.1));
    }
}

/// With every key unique, the map binds exactly as many names as there
/// are pairs.
proof fn lemma_entries_map_len(es: Seq<(Seq<char>, Seq<char>)>)
    requires
        unique_keys(es),
    ensures
        entries_map(es).dom().finite(),
        entries_map(es).dom().len() == es.len(),
    decreases es.len(),
{
    if es.len() == 0 {
        assert(entries_map(es).dom() =~= Set::<Seq<char>>::empty());
    } else {
        let d = es.drop_last();
        assert(forall|m: int| 0 <= m < d.len() ==> d[m] == es[m]);
        assert(unique_keys(d));
        lemma_entries_map_len(d);
        lemma_entries_map_absent(d, es.last().0);
        assert(entries_map(es).dom() =~= entries_map(d).dom().insert(es.last().0));
    }
}

/// A mapping from header field-names to field-values with
/// last-writer-wins semantics for duplicate names.
pub struct HeaderMap {
    entries: Vec<(String, String)>,
}

impl View for HeaderMap {
    type V = Map<Seq<char>, Seq<char>>;

    closed spec fn view(&self) -> Map<Seq<char>, Seq<char>> {
        entries_map(self.entries.deep_view())
    }
}

impl HeaderMap {
    /// The name/value pairs, in first-insertion order.
    pub closed spec fn pairs(&self) -> Seq<(Seq<char>, Seq<char>)> {
        self.entries.deep_view()
    }

    /// Duplicate names are overwritten in place, so each name is
    /// recorded once.
    #[verifier::type_invariant]
    closed spec fn wf(&self) -> bool {
        unique_keys(self.entries.deep_view())
    }

    /// An empty map.
    pub fn new() -> (m: HeaderMap)
        ensures
            m@ == Map::<Seq<char>, Seq<char>>::empty(),
            m.pairs() == Seq::<(Seq<char>, Seq<char>)>::empty(),
    {
        let m = HeaderMap { entries: Vec::new() };
        proof {
            assert(m.entries.deep_view() =~= Seq::<(Seq<char>, Seq<char>)>::empty());
        }
        m
    }

    /// Binds `name` to `value`, overwriting any earlier binding.
    pub fn insert(&mut self, name: String, value: String)
        ensures
            final(self)@ == old(self)@.insert(name@, value@),
    {
        proof {
            use_type_invariant(&*self);
        }
        let ghost p = (name@, value@);
        let ghost old_pairs = self.entries.deep_view();
        let mut entries: Vec<(String, String)> = Vec::new();
        core::mem::swap(&mut entries, &mut self.entries);
        let n: usize = entries.len();
        let mut found: Option<usize> = None;
        let mut idx: usize = 0;
        while idx < n
            invariant
                n == entries.len(),
                0 <= idx <= n,
                old_pairs == entries.deep_view(),
                found matches Some(j) ==> j < n && old_pairs[j as int].0 == name@,
                found is None ==> forall|m: int| 0 <= m < idx ==> old_pairs[m].0 != name@,
            decreases n - idx,
        {
            if found.is_none() && entries[idx].0 == name {
                proof {
                    assert(old_pairs[idx as int].0 == name@);
                }
                found = Some(idx);
            }
            idx += 1;
        }
        match found {
            Some(j) => {
                entries.set(j, (name, value));
                proof {
                    let es2 = old_pairs.update(j as int, p);
                    assert(entries.deep_view() =~= es2);
                    lemma_entries_map_update(old_pairs, j as int, p);
                    assert(forall|m: int| 0 <= m < es2.len() ==> es2[m].0 == old_pairs[m].0);
                }
            },
            None => {
                entries.push((name, value));
                proof {
                    let es2 = old_pairs.push(p);
                    assert(entries.deep_view() =~= es2);
                    assert(es2.drop_last() =~= old_pairs);
                    assert forall|a: int, b: int| 0 <= a < b < es2.len() implies es2[a].0
                        != es2[b].0 by {
                        if b == es2.len() - 1 {
                            assert(old_pairs[a].0 != name@);
                        }
                    }
                }
            },
        }
        self.entries = entries;
    }

    /// How many field-names are bound.
    pub fn len(&self) -> (n: usize)
        ensures
            n == self@.dom().len(),
    {
        proof {
            use_type_invariant(&*self);
            lemma_entries_map_len(self.entries.deep_view());
        }
        self.entries.len()
    }

    /// The recorded name/value pairs, in insertion order.
    pub fn entries(&self) -> (r: &Vec<(String, String)>)
        ensures
            r.deep_view() == self.pairs(),
    {
        &self.entries
    }

    /// Looks a field-name up.
    pub fn get(&self, name: &str) -> (r: Option<&String>)
        ensures
            (r is Some) == self@.contains_key(name@),
            r matches Some(v) ==> v@ == self@[name@],
    {
        let needle = name.to_owned();
        let mut idx: usize = self.entries.len();
        while idx > 0
            invariant
                needle@ == name@,
                idx <= self.entries.len(),
                forall|m: int| idx <= m < self.pairs().len() ==> self.pairs()[m].0 != name@,
            decreases idx,
        {
            idx -= 1;
            if self.entries[idx].0 == needle {
                proof {
                    assert(self.pairs()[idx as int].0 == name@);
                    lemma_entries_map_found(self.pairs(), idx as int);
                }
                return Some(&self.entries[idx].1);
            }
            proof {
                assert(self.pairs()[idx as int].0 != name@);
            }
        }
        proof {
            lemma_entries_map_absent(self.pairs(), name@);
        }
        None
    }
}

/// The map a whole sequence of raw header strings parses to, in order,
/// later bindings overwriting earlier ones.
pub open spec fn headers_map(hs: Seq<Seq<char>>) -> Map<Seq<char>, Seq<char>>
    decreases hs.len(),
{
    if hs.len() == 0 {
        Map::empty()
    } else {
        headers_map(hs.drop_last()).insert(header_key(hs.last()), header_value(hs.last()))
    }
}

/// Parses every raw header string of `headers` into one map. Each raw
/// string must hold a colon.
pub fn process_headers(headers: Vec<String>) -> (m: HeaderMap)
    requires
        forall|i: int| 0 <= i < headers@.len() ==> contains_colon(#[trigger] headers@[i]@),
    ensures
        m@ == headers_map(headers.deep_view()),
{
    let mut m = HeaderMap::new();
    let n: usize = headers.len();
    let mut i: usize = 0;
    while i < n
        invariant
            n == headers@.len(),
            0 <= i <= n,
            forall|k: int| 0 <= k < n ==> contains_colon(#[trigger] headers@[k]@),
            m@ == headers_map(headers.deep_view().subrange(0, i as int)),
        decreases n - i,
    {
        let ghost prefix = headers.deep_view().subrange(0, i as int);
        match parse_header(headers[i].as_str()) {
            Some((k, v)) => {
                m.insert(k, v);
            },
            None => {
                proof {
                    assert(contains_colon(headers@[i as int]@));
                    assert(false);
                }
            },
        }
        proof {
            let prefix1 = headers.deep_view().subrange(0, i + 1);
            assert(prefix1.drop_last() =~= prefix);
            assert(prefix1.last() == headers@[i as int]@);
        }
        i += 1;
    }
    proof {
        assert(headers.deep_view().subrange(0, n as int) =~= headers.deep_view());
    }
    m
}

/// Parses every raw header string of `headers`, reporting failure when
/// any of them lacks a colon. Exactly the strings that hold a colon are
/// accepted.
pub fn try_process_headers(headers: &Vec<String>) -> (r: Option<HeaderMap>)
    ensures
        (r is Some) == (forall|i: int|
            0 <= i < headers@.len() ==> contains_colon(#[trigger] headers@[i]@)),
        r matches Some(m) ==> m@ == headers_map(headers.deep_view()),
{
    let mut m = HeaderMap::new();
    let n: usize = headers.len();
    let mut i: usize = 0;
    while i < n
        invariant
            n == headers@.len(),
            0 <= i <= n,
            forall|k: int| 0 <= k < i ==> contains_colon(#[trigger] headers@[k]@),
            m@ == headers_map(headers.deep_view().subrange(0, i as int)),
        decreases n - i,
    {
        let ghost prefix = headers.deep_view().subrange(0, i as int);
        match parse_header(headers[i].as_str()) {
            Some((k, v)) => {
                m.insert(k, v);
            },
            None => {
                return None;
            },
        }
        proof {
            let prefix1 = headers.deep_view().subrange(0, i + 1);
            assert(prefix1.drop_last() =~= prefix);
            assert(prefix1.last() == headers@[i as int]@);
        }
        i += 1;
    }
    proof {
        assert(headers.deep_view().subrange(0, n as int) =~= headers.deep_view());
    }
    Some(m)
}

/// A parsed field-name holds no colon: only the value side may carry
/// further colons.
pub proof fn lemma_header_key_no_colon(s: Seq<char>)
    requires
        contains_colon(s),
    ensures
        forall|k: int| 0 <= k < header_key(s).len() ==> header_key(s)[k] != ':',
{
    lemma_first_colon(s);
    let prefix = s.subrange(0, first_colon(s));
    assert(forall|k: int| 0 <= k < prefix.len() ==> prefix[k] != ':');
    lemma_trim_keeps_absence(prefix, ':');
}

/// Re-parsing a rendered header gives the parse back: for any raw header
/// string with a colon, the string `"{name}: {value}"` built from its
/// parse parses to the same name and value.
pub proof fn lemma_header_reparse(s: Seq<char>)
    requires
        contains_colon(s),
    ensures
        ({
            let rendered = header_key(s) + seq![':', ' '] + header_value(s);
            &&& contains_colon(rendered)
            &&& header_key(rendered) == header_key(s)
            &&& header_value(rendered) == header_value(s)
        }),
{
    let k = header_key(s);
    let v = header_value(s);
    let rendered = k + seq![':', ' '] + v;
    assert(rendered[k.len() as int] == ':');
    assert(contains_colon(rendered));
    lemma_header_key_no_colon(s);
    assert(forall|j: int| 0 <= j < k.len() ==> rendered[j] == k[j]);
    lemma_first_colon_at(rendered, k.len() as int);
    assert(rendered.subrange(0, k.len() as int) =~= k);
    lemma_trim_idempotent(s.subrange(0, first_colon(s)));
    assert(header_key(rendered) == k);
    let tail = rendered.subrange(k.len() as int + 1, rendered.len() as int);
    assert(tail =~= seq![' '] + v);
    lemma_trim_drop_leading_space(' ', v);
    lemma_trim_idempotent(s.subrange(first_colon(s) + 1, s.len() as int));
    assert(header_value(rendered) == v);
}

} // verus!

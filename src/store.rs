use vstd::prelude::*;
use dashmap::DashMap;

verus! {

#[verifier::external_type_specification]
#[verifier::external_body]
#[verifier::reject_recursive_types(K)]
#[verifier::reject_recursive_types(V)]
#[verifier::reject_recursive_types(S)]
pub struct ExDashMap<K, V, S>(DashMap<K, V, S>);

/// The empty page map.
pub open spec fn no_pages() -> Map<Seq<char>, Seq<char>> {
    Map::empty()
}

/// What a map of rendered pages holds, key text to page text.
pub uninterp spec fn md_entries(m: DashMap<String, String>) -> Map<Seq<char>, Seq<char>>;

/// Relies on `DashMap::new`: a new map is empty.
#[verifier::external_body]
fn map_new() -> (r: DashMap<String, String>)
    ensures
        md_entries(r) == no_pages(),
{
    DashMap::new()
}

/// Relies on `DashMap::insert`: the key then maps to the value, replacing any
/// earlier one, and no other entry changes.
#[verifier::external_body]
fn map_insert(m: &mut DashMap<String, String>, key: String, value: String)
    ensures
        md_entries(*final(m)) == md_entries(*old(m)).insert(key@, value@),
{
    m.insert(key, value);
}

/// Relies on `DashMap::get`: the value stored under the key, if any, copied out.
#[verifier::external_body]
fn map_get(m: &DashMap<String, String>, key: &str) -> (r: Option<String>)
    ensures
        r is Some <==> md_entries(*m).contains_key(key@),
        r matches Some(v) ==> v@ == md_entries(*m)[key@],
{
    m.get(key).map(|e| e.value().clone())
}

/// The rendered pages, by route key.
pub struct ContentStore {
    md: DashMap<String, String>,
}

impl View for ContentStore {
    type V = Map<Seq<char>, Seq<char>>;

    closed spec fn view(&self) -> Map<Seq<char>, Seq<char>> {
        md_entries(self.md)
    }
}

impl ContentStore {
    /// An empty store.
    pub fn new() -> (r: ContentStore)
        ensures
            r@ == no_pages(),
    {
        ContentStore { md: map_new() }
    }

    /// The page stored under `key`, if any.
    pub fn get(&self, key: &str) -> (r: Option<String>)
        ensures
            r is Some <==> self@.contains_key(key@),
            r matches Some(v) ==> v@ == self@[key@],
    {
        map_get(&self.md, key)
    }

    /// Stores `doc` under `key`, replacing what was there.
    pub fn put(&mut self, key: String, doc: String)
        ensures
            final(self)@ == old(self)@.insert(key@, doc@),
    {
        map_insert(&mut self.md, key, doc);
    }
}

/// Read after write: once `d` was put under `k`, a get of `k` finds exactly
/// `d`, and every other key keeps what it had.
pub proof fn lemma_read_after_write(m: Map<Seq<char>, Seq<char>>, k: Seq<char>, d: Seq<char>)
    ensures
        m.insert(k, d).contains_key(k),
        m.insert(k, d)[k] == d,
        forall|j: Seq<char>| j != k ==> (#[trigger] m.insert(k, d).contains_key(j) == m.contains_key(j)),
        forall|j: Seq<char>| j != k && m.contains_key(j) ==> #[trigger] m.insert(k, d)[j] == m[j],
{
}

/// Whichever order two puts of `d1` and `d2` under `k` take, a get of `k`
/// before, between or after them finds the earlier page, `d1` or `d2`, each
/// whole: a put replaces the page in one step.
pub proof fn lemma_puts_are_whole(m: Map<Seq<char>, Seq<char>>, k: Seq<char>, d1: Seq<char>, d2: Seq<char>)
    ensures
        forall|s: Map<Seq<char>, Seq<char>>|
            (s == m || s == m.insert(k, d1) || s == m.insert(k, d2) || s == m.insert(k, d1).insert(k, d2)
                || s == m.insert(k, d2).insert(k, d1)) && #[trigger] s.contains_key(k) ==> s[k] == d1
                || s[k] == d2 || (m.contains_key(k) && s[k] == m[k]),
{
}

} // verus!

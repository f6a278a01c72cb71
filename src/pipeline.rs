use vstd::prelude::*;
use vstd::utf8::{decode_utf8, valid_utf8};
use crate::page::{markdown_html, render_source};
use crate::route::{key_for_path, path_key};
use crate::store::ContentStore;

verus! {

/// One observed change: the path it names and whether a regular file exists
/// there now.
pub struct RawChange {
    pub path: String,
    pub is_file: bool,
}

/// A file to re-render and the route key its page is stored under.
pub struct BatchEntry {
    pub path: String,
    pub key: String,
}

/// A freshly rendered page and its route key.
pub struct RenderedDoc {
    pub key: String,
    pub html: String,
}

/// The paths of a plan.
pub open spec fn plan_paths(plan: Seq<(Seq<char>, Seq<char>)>) -> Seq<Seq<char>> {
    plan.map_values(|e: (Seq<char>, Seq<char>)| e.0)
}

/// The (path, key) pairs of a batch, as `plan_batch` builds them from the
/// first `n` changes: in order of first appearance, each existing file once,
/// only the files that have a route key under `base`.
pub open spec fn plan_of(base: Seq<char>, changes: Seq<RawChange>, n: int) -> Seq<(Seq<char>, Seq<char>)>
    decreases n,
{
    if n <= 0 {
        Seq::empty()
    } else {
        let prev = plan_of(base, changes, n - 1);
        let c = changes[n - 1];
        if c.is_file && path_key(base, c.path@) is Some && !plan_paths(prev).contains(c.path@) {
            prev.push((c.path@, path_key(base, c.path@)->Some_0))
        } else {
            prev
        }
    }
}

/// The whole batch built from `changes`.
pub open spec fn batch_plan(base: Seq<char>, changes: Seq<RawChange>) -> Seq<(Seq<char>, Seq<char>)> {
    plan_of(base, changes, changes.len() as int)
}

/// The (path, key) pairs of planned entries.
pub open spec fn entries_view(v: Seq<BatchEntry>) -> Seq<(Seq<char>, Seq<char>)> {
    v.map_values(|e: BatchEntry| (e.path@, e.key@))
}

/// The (key, page) pairs of rendered pages.
pub open spec fn docs_view(v: Seq<RenderedDoc>) -> Seq<(Seq<char>, Seq<char>)> {
    v.map_values(|d: RenderedDoc| (d.key@, d.html@))
}

/// The (key, page) pairs rendered from the first `n` entries of a plan: one
/// for each entry whose file could be read and is UTF-8 text, in plan order.
pub open spec fn rendered_of(
    plan: Seq<(Seq<char>, Seq<char>)>,
    sources: Seq<Option<Vec<u8>>>,
    n: int,
) -> Seq<(Seq<char>, Seq<char>)>
    decreases n,
{
    if n <= 0 {
        Seq::empty()
    } else {
        let prev = rendered_of(plan, sources, n - 1);
        match sources[n - 1] {
            Some(b) => if valid_utf8(b@) {
                prev.push((plan[n - 1].1, markdown_html(decode_utf8(b@))))
            } else {
                prev
            },
            None => prev,
        }
    }
}

/// A page map after the pages `docs` were stored in order.
pub open spec fn stored(m: Map<Seq<char>, Seq<char>>, docs: Seq<(Seq<char>, Seq<char>)>) -> Map<Seq<char>, Seq<char>>
    decreases docs.len(),
{
    if docs.len() == 0 {
        m
    } else {
        stored(m, docs.drop_last()).insert(docs.last().0, docs.last().1)
    }
}

/// Whether a batch that stored `applied` pages is announced to the listeners.
pub open spec fn announces(applied: nat, listeners: nat) -> bool {
    applied > 0 && listeners > 0
}

proof fn lemma_burst_prefix(base: Seq<char>, changes: Seq<RawChange>, n: int)
    requires
        1 <= n <= changes.len(),
        forall|i: int| 0 <= i < changes.len() ==> #[trigger] changes[i].path@ == changes[0].path@ && changes[i].is_file,
        path_key(base, changes[0].path@) is Some,
    ensures
        plan_of(base, changes, n) == seq![(changes[0].path@, path_key(base, changes[0].path@)->Some_0)],
    decreases n,
{
    let p = changes[0].path@;
    if n == 1 {
        assert(plan_of(base, changes, 0) =~= Seq::<(Seq<char>, Seq<char>)>::empty());
        assert(plan_of(base, changes, 1) =~= seq![(p, path_key(base, p)->Some_0)]);
    } else {
        lemma_burst_prefix(base, changes, n - 1);
        let prev = plan_of(base, changes, n - 1);
        assert(changes[n - 1].path@ == p);
        assert(plan_paths(prev)[0] == p);
        assert(plan_paths(prev).contains(p));
    }
}

/// However many changes a batch holds, when they all name one existing
/// markdown file under the root, the batch renders that file exactly once.
pub proof fn lemma_burst_is_one_render(base: Seq<char>, changes: Seq<RawChange>)
    requires
        changes.len() > 0,
        forall|i: int| 0 <= i < changes.len() ==> #[trigger] changes[i].path@ == changes[0].path@ && changes[i].is_file,
        path_key(base, changes[0].path@) is Some,
    ensures
        batch_plan(base, changes) == seq![(changes[0].path@, path_key(base, changes[0].path@)->Some_0)],
{
    lemma_burst_prefix(base, changes, changes.len() as int);
}

/// Whether `path` is among the paths of `plan`.
fn planned(plan: &Vec<BatchEntry>, path: &String) -> (r: bool)
    ensures
        r == plan_paths(entries_view(plan@)).contains(path@),
{
    let mut i: usize = 0;
    while i < plan.len()
        invariant
            i <= plan@.len(),
            forall|j: int| 0 <= j < i ==> plan@[j].path@ != path@,
        decreases plan@.len() - i,
    {
        if plan[i].path == *path {
            assert(plan_paths(entries_view(plan@))[i as int] == path@);
            return true;
        }
        i = i + 1;
    }
    assert(!plan_paths(entries_view(plan@)).contains(path@)) by {
        if plan_paths(entries_view(plan@)).contains(path@) {
            let k = choose|k: int| 0 <= k < plan@.len() && plan_paths(entries_view(plan@))[k] == path@;
            assert(plan@[k].path@ == path@);
        }
    }
    false
}

/// The files of a batch of observed changes to re-render, each once: the
/// changes that name an existing file with a route key under `base`, in order
/// of first appearance, duplicates dropped.
pub fn plan_batch(base: &str, changes: &Vec<RawChange>) -> (r: Vec<BatchEntry>)
    ensures
        entries_view(r@) == batch_plan(base@, changes@),
{
    let mut out: Vec<BatchEntry> = Vec::new();
    let mut i: usize = 0;
    while i < changes.len()
        invariant
            i <= changes@.len(),
            entries_view(out@) == plan_of(base@, changes@, i as int),
        decreases changes@.len() - i,
    {
        let c = &changes[i];
        if c.is_file && !planned(&out, &c.path) {
            match key_for_path(base, c.path.as_str()) {
                Some(key) => {
                    let ghost before = out@;
                    out.push(BatchEntry { path: c.path.clone(), key });
                    assert(entries_view(out@) =~= entries_view(before).push((c.path@, path_key(base@, c.path@)->Some_0)));
                },
                None => {},
            }
        }
        i = i + 1;
    }
    out
}

/// The files to render when the whole root is scanned: the root itself under
/// the key `index` when it is a single file, else each scanned file as
/// `plan_batch` selects it.
pub fn plan_scan(base: &str, base_is_file: bool, found: &Vec<RawChange>) -> (r: Vec<BatchEntry>)
    ensures
        base_is_file ==> entries_view(r@) == seq![(base@, "index"@)],
        !base_is_file ==> entries_view(r@) == batch_plan(base@, found@),
{
    if base_is_file {
        let mut v: Vec<BatchEntry> = Vec::new();
        v.push(BatchEntry { path: String::from_str(base), key: String::from_str("index") });
        assert(entries_view(v@) =~= seq![(base@, "index"@)]);
        v
    } else {
        plan_batch(base, found)
    }
}

/// Renders the planned files that could be read and are UTF-8 text;
/// `sources[i]` holds the bytes of `plan[i]`, or nothing when reading it
/// failed. A file that fails gets no page, so its stored page stays as it was.
pub fn render_batch(plan: &Vec<BatchEntry>, sources: &Vec<Option<Vec<u8>>>) -> (r: Vec<RenderedDoc>)
    requires
        plan@.len() == sources@.len(),
    ensures
        docs_view(r@) == rendered_of(entries_view(plan@), sources@, sources@.len() as int),
{
    let mut out: Vec<RenderedDoc> = Vec::new();
    let mut i: usize = 0;
    while i < plan.len()
        invariant
            i <= plan@.len(),
            plan@.len() == sources@.len(),
            docs_view(out@) == rendered_of(entries_view(plan@), sources@, i as int),
        decreases plan@.len() - i,
    {
        match &sources[i] {
            Some(b) => {
                match render_source(b.as_slice()) {
                    Ok(html) => {
                        let ghost before = out@;
                        out.push(RenderedDoc { key: plan[i].key.clone(), html });
                        assert(docs_view(out@) =~= docs_view(before).push(
                            (entries_view(plan@)[i as int].1, markdown_html(decode_utf8(b@))),
                        ));
                    },
                    Err(_) => {},
                }
            },
            None => {},
        }
        i = i + 1;
    }
    out
}

impl ContentStore {
    /// Stores each rendered page in order; returns how many were stored.
    pub fn apply(&mut self, docs: Vec<RenderedDoc>) -> (r: usize)
        ensures
            final(self)@ == stored(old(self)@, docs_view(docs@)),
            r == docs@.len(),
    {
        let n = docs.len();
        let mut i: usize = 0;
        let mut docs = docs;
        let ghost all = docs@;
        while i < n
            invariant
                n == all.len(),
                i <= n,
                docs@ == all,
                self@ == stored(old(self)@, docs_view(all).subrange(0, i as int)),
            decreases n - i,
        {
            let key = docs[i].key.clone();
            let html = docs[i].html.clone();
            proof {
                assert(docs_view(all).subrange(0, i + 1).drop_last() =~= docs_view(all).subrange(0, i as int));
            }
            self.put(key, html);
            i = i + 1;
        }
        assert(docs_view(all).subrange(0, n as int) =~= docs_view(all));
        n
    }
}

} // verus!

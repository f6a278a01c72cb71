use vstd::prelude::*;
use crate::page::Template;
use crate::pipeline::{announces, docs_view, stored, RenderedDoc};
use crate::registry::{after_fire, seq_set, ListenerRegistry};
use crate::route::{clean_url, rel_path, relative_path, url_key};
use crate::store::ContentStore;

verus! {

/// Why a root or index path was refused.
#[derive(PartialEq, Eq, Structural, Clone, Copy, Debug)]
pub enum PathError {
    /// The path does not exist.
    NotFound,
    /// The index path is not below the served root.
    NotASubpath,
    /// The path is not valid text.
    NotText,
}

/// The served root and the index document's path relative to it.
pub struct ServeConfig {
    base: String,
    index: String,
}

impl ServeConfig {
    pub closed spec fn base_view(&self) -> Seq<char> {
        self.base@
    }

    pub closed spec fn index_view(&self) -> Seq<char> {
        self.index@
    }

    /// A configuration serving the root `base` with the document at
    /// `index_path` as its index; refused when that document is not below
    /// `base`.
    pub fn new(base: String, index_path: &str) -> (r: Result<ServeConfig, PathError>)
        ensures
            r is Err <==> rel_path(base@, index_path@) is None,
            r matches Err(e) ==> e == PathError::NotASubpath,
            r matches Ok(c) ==> c.base_view() == base@ && Some(c.index_view()) == rel_path(
                base@,
                index_path@,
            ),
    {
        match relative_path(base.as_str(), index_path) {
            Some(rel) => {
                let index = String::from_str(rel);
                Ok(ServeConfig { base, index })
            },
            None => Err(PathError::NotASubpath),
        }
    }

    /// The served root.
    pub fn base(&self) -> (r: &str)
        ensures
            r@ == self.base_view(),
    {
        self.base.as_str()
    }

    /// The index document's path relative to the root.
    pub fn index(&self) -> (r: &str)
        ensures
            r@ == self.index_view(),
    {
        self.index.as_str()
    }

    /// Serves the root `resolved`, the new root in canonical form, or nothing
    /// when it does not exist; then the configuration is left as it was. The
    /// index keeps its relative path.
    pub fn set_root(&mut self, resolved: Option<String>) -> (r: Result<(), PathError>)
        ensures
            r is Err <==> resolved is None,
            r matches Err(e) ==> e == PathError::NotFound,
            resolved is None ==> final(self).base_view() == old(self).base_view(),
            resolved matches Some(p) ==> final(self).base_view() == p@,
            final(self).index_view() == old(self).index_view(),
    {
        match resolved {
            Some(p) => {
                self.base = p;
                Ok(())
            },
            None => Err(PathError::NotFound),
        }
    }

    /// Makes the document at `path` the index; refused, with nothing changed,
    /// when `path` is not below the current root.
    pub fn set_index(&mut self, path: &str) -> (r: Result<(), PathError>)
        ensures
            r is Err <==> rel_path(old(self).base_view(), path@) is None,
            r matches Err(e) ==> e == PathError::NotASubpath,
            final(self).base_view() == old(self).base_view(),
            r is Err ==> final(self).index_view() == old(self).index_view(),
            r is Ok ==> Some(final(self).index_view()) == rel_path(old(self).base_view(), path@),
    {
        match relative_path(self.base.as_str(), path) {
            Some(rel) => {
                self.index = String::from_str(rel);
                Ok(())
            },
            None => Err(PathError::NotASubpath),
        }
    }
}

/// The server's state: its address, the rendered pages, the served root and
/// index, and the page shell.
pub struct Api {
    url: String,
    store: ContentStore,
    config: ServeConfig,
    template: Template,
}

impl Api {
    pub closed spec fn url_view(&self) -> Seq<char> {
        self.url@
    }

    pub closed spec fn pages(&self) -> Map<Seq<char>, Seq<char>> {
        self.store@
    }

    pub closed spec fn config(&self) -> ServeConfig {
        self.config
    }

    pub closed spec fn shell(&self) -> Template {
        self.template
    }

    /// The server reached at `url`, serving the pages of `store` from the root
    /// `base` with the document at `index_path` as its index; refused when
    /// that document is not below `base`.
    pub fn new(url: String, base: String, index_path: &str, store: ContentStore, template: Template) -> (r: Result<Api, PathError>)
        ensures
            r is Err <==> rel_path(base@, index_path@) is None,
            r matches Err(e) ==> e == PathError::NotASubpath,
            r matches Ok(a) ==> {
                &&& a.url_view() == url@
                &&& a.pages() == store@
                &&& a.config().base_view() == base@
                &&& Some(a.config().index_view()) == rel_path(base@, index_path@)
                &&& a.shell() == template
            },
    {
        match ServeConfig::new(base, index_path) {
            Ok(config) => Ok(Api { url, store, config, template }),
            Err(e) => Err(e),
        }
    }

    /// The server's address.
    pub fn url(&self) -> (r: &str)
        ensures
            r@ == self.url_view(),
    {
        self.url.as_str()
    }

    /// The served root.
    pub fn base(&self) -> (r: &str)
        ensures
            r@ == self.config().base_view(),
    {
        self.config.base()
    }

    /// The index document's path relative to the root.
    pub fn index(&self) -> (r: &str)
        ensures
            r@ == self.config().index_view(),
    {
        self.config.index()
    }

    /// The page served for the request path `url`: the stored page of its
    /// route key inside the shell, or nothing when no page has that key.
    pub fn get_md(&self, url: &str) -> (r: Option<String>)
        ensures
            r is Some <==> self.pages().contains_key(url_key(url@)),
            r matches Some(p) ==> p@ == self.shell().before_view() + self.pages()[url_key(url@)]
                + self.shell().after_view(),
    {
        match self.store.get(clean_url(url)) {
            Some(md) => Some(self.template.html(md.as_str())),
            None => None,
        }
    }

    /// The page served for an unknown route.
    pub fn not_found(&self) -> (r: String)
        ensures
            r@ == self.shell().not_found_view(),
    {
        self.template.not_found()
    }

    /// Stores a batch of rendered pages, then, when at least one page was
    /// stored and a listener is attached, broadcasts one change: returns the
    /// listeners to wake with `Changed`, each once; nothing otherwise.
    pub fn file_update(&mut self, docs: Vec<RenderedDoc>, listeners: &mut ListenerRegistry) -> (r: Vec<u64>)
        requires
            old(listeners).wf(),
        ensures
            final(listeners).wf(),
            final(self).pages() == stored(old(self).pages(), docs_view(docs@)),
            final(self).url_view() == old(self).url_view(),
            final(self).config() == old(self).config(),
            final(self).shell() == old(self).shell(),
            announces(docs@.len(), old(listeners)@.count) ==> seq_set(r@) == old(listeners)@.waiting
                && final(listeners)@ == after_fire(old(listeners)@),
            !announces(docs@.len(), old(listeners)@.count) ==> r@.len() == 0 && final(listeners)@
                == old(listeners)@,
            r@.no_duplicates(),
    {
        let applied = self.store.apply(docs);
        if applied > 0 && listeners.count() > 0 {
            listeners.fire()
        } else {
            Vec::new()
        }
    }

    /// Serves the root `resolved` (see `ServeConfig::set_root`). The stored
    /// pages stay as they are: pages under the new root are stored as their
    /// files change, and on failure the old root keeps being served.
    pub fn set_root(&mut self, resolved: Option<String>) -> (r: Result<(), PathError>)
        ensures
            r is Err <==> resolved is None,
            r matches Err(e) ==> e == PathError::NotFound,
            resolved is None ==> final(self).config().base_view() == old(self).config().base_view(),
            resolved matches Some(p) ==> final(self).config().base_view() == p@,
            final(self).config().index_view() == old(self).config().index_view(),
            final(self).pages() == old(self).pages(),
            final(self).url_view() == old(self).url_view(),
            final(self).shell() == old(self).shell(),
    {
        self.config.set_root(resolved)
    }

    /// Makes the document at `path` the index (see `ServeConfig::set_index`).
    pub fn set_index(&mut self, path: &str) -> (r: Result<(), PathError>)
        ensures
            r is Err <==> rel_path(old(self).config().base_view(), path@) is None,
            r matches Err(e) ==> e == PathError::NotASubpath,
            final(self).config().base_view() == old(self).config().base_view(),
            r is Err ==> final(self).config().index_view() == old(self).config().index_view(),
            r is Ok ==> Some(final(self).config().index_view()) == rel_path(
                old(self).config().base_view(),
                path@,
            ),
            final(self).pages() == old(self).pages(),
            final(self).url_view() == old(self).url_view(),
            final(self).shell() == old(self).shell(),
    {
        self.config.set_index(path)
    }
}

} // verus!

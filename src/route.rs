use vstd::prelude::*;

verus! {

/// The markdown suffix stripped from file names and request paths.
pub open spec fn md_suffix() -> Seq<char> {
    seq!['.', 'm', 'd']
}

/// `s` with a single leading `/` removed, if it has one.
pub open spec fn strip_slash(s: Seq<char>) -> Seq<char> {
    if s.len() > 0 && s[0] == '/' {
        s.skip(1)
    } else {
        s
    }
}

/// Whether `s` ends with `.md`.
pub open spec fn has_md_suffix(s: Seq<char>) -> bool {
    s.len() >= 3 && s.subrange(s.len() - 3, s.len() as int) == md_suffix()
}

/// `s` with a single trailing `.md` removed, if it has one.
pub open spec fn strip_md(s: Seq<char>) -> Seq<char> {
    if has_md_suffix(s) {
        s.subrange(0, s.len() - 3)
    } else {
        s
    }
}

/// The route key of a request path.
pub open spec fn url_key(url: Seq<char>) -> Seq<char> {
    strip_md(strip_slash(url))
}

/// `path` joined below the directory `base` with one separator.
pub open spec fn join(base: Seq<char>, rel: Seq<char>) -> Seq<char> {
    if base.len() > 0 && base.last() == '/' {
        base + rel
    } else {
        base + seq!['/'] + rel
    }
}

/// The part of `path` below `base`: `path` itself when `base` is a directory
/// prefix of it followed by a separator, the empty text when the two are equal,
/// and nothing otherwise.
pub open spec fn rel_path(base: Seq<char>, path: Seq<char>) -> Option<Seq<char>> {
    if path == base {
        Some(Seq::empty())
    } else if base.is_prefix_of(path) && base.len() > 0 && base.last() == '/' {
        Some(path.skip(base.len() as int))
    } else if base.is_prefix_of(path) && path.len() > base.len() && path[base.len() as int] == '/' {
        Some(path.skip(base.len() as int + 1))
    } else {
        None
    }
}

/// The route key of the file at `path` under the root `base`: its relative path
/// without the `.md` suffix; nothing when the file is not below `base` or is
/// not a markdown file.
pub open spec fn path_key(base: Seq<char>, path: Seq<char>) -> Option<Seq<char>> {
    match rel_path(base, path) {
        Some(rel) => if has_md_suffix(rel) {
            Some(rel.subrange(0, rel.len() - 3))
        } else {
            None
        },
        None => None,
    }
}

/// Whether the characters of `s` from `from` on start with `t`.
pub(crate) fn matches_at(s: &str, from: usize, t: &str) -> (r: bool)
    requires
        from <= s@.len(),
    ensures
        r == (from + t@.len() <= s@.len() && s@.subrange(from as int, from + t@.len()) == t@),
{
    let n = s.unicode_len();
    let m = t.unicode_len();
    if m > n - from {
        return false;
    }
    let mut i: usize = 0;
    while i < m
        invariant
            i <= m,
            m == t@.len(),
            n == s@.len(),
            from + m <= n,
            forall|j: int| 0 <= j < i ==> s@[from + j] == t@[j],
        decreases m - i,
    {
        if s.get_char(from + i) != t.get_char(i) {
            assert(s@.subrange(from as int, from + m)[i as int] != t@[i as int]);
            return false;
        }
        i = i + 1;
    }
    assert(s@.subrange(from as int, from + m) =~= t@);
    true
}

/// Strips one leading `/` and one trailing `.md` from a request path.
pub fn clean_url(url: &str) -> (r: &str)
    ensures
        r@ == url_key(url@),
{
    let n = url.unicode_len();
    let start: usize = if n > 0 && url.get_char(0) == '/' {
        1
    } else {
        0
    };
    let ghost s = strip_slash(url@);
    assert(s =~= url@.subrange(start as int, n as int));
    let mut end = n;
    if n - start >= 3 && matches_at(url, n - 3, ".md") {
        proof {
            reveal_strlit(".md");
            assert(s.subrange(s.len() - 3, s.len() as int) =~= url@.subrange(n - 3, n as int));
            assert(".md"@ =~= md_suffix());
        }
        end = n - 3;
    } else {
        proof {
            reveal_strlit(".md");
            if has_md_suffix(s) {
                assert(s.subrange(s.len() - 3, s.len() as int) =~= url@.subrange(n - 3, n as int));
                assert(".md"@ =~= md_suffix());
            }
        }
    }
    let r = url.substring_char(start, end);
    assert(r@ =~= url_key(url@));
    r
}

/// The part of `path` below the root `base`, as `rel_path` describes it.
pub fn relative_path<'a>(base: &str, path: &'a str) -> (r: Option<&'a str>)
    ensures
        r matches Some(x) ==> rel_path(base@, path@) == Some(x@),
        r is None ==> rel_path(base@, path@) is None,
{
    let bn = base.unicode_len();
    let pn = path.unicode_len();
    if bn > pn || !matches_at(path, 0, base) {
        proof {
            if base@.is_prefix_of(path@) {
                assert(path@.subrange(0, bn as int) =~= base@);
            }
            assert(path@ != base@ || path@.subrange(0, bn as int) =~= base@);
        }
        return None;
    }
    assert(base@.is_prefix_of(path@)) by {
        assert(path@.subrange(0, bn as int) == base@);
        assert forall|j: int| 0 <= j < bn implies base@[j] == path@[j] by {
            assert(path@.subrange(0, bn as int)[j] == path@[j]);
        }
    }
    if bn == pn {
        assert(path@ =~= base@);
        let r = path.substring_char(pn, pn);
        assert(r@ =~= Seq::<char>::empty());
        return Some(r);
    }
    if bn > 0 && base.get_char(bn - 1) == '/' {
        let r = path.substring_char(bn, pn);
        assert(r@ =~= path@.skip(bn as int));
        Some(r)
    } else if path.get_char(bn) == '/' {
        let r = path.substring_char(bn + 1, pn);
        assert(r@ =~= path@.skip(bn + 1));
        Some(r)
    } else {
        None
    }
}

/// The route key of the file at `path` under the root `base`.
pub fn key_for_path(base: &str, path: &str) -> (r: Option<String>)
    ensures
        r matches Some(k) ==> path_key(base@, path@) == Some(k@),
        r is None ==> path_key(base@, path@) is None,
{
    match relative_path(base, path) {
        Some(rel) => {
            let n = rel.unicode_len();
            if n >= 3 && matches_at(rel, n - 3, ".md") {
                proof {
                    reveal_strlit(".md");
                    assert(".md"@ =~= md_suffix());
                }
                let k = rel.substring_char(0, n - 3);
                Some(String::from_str(k))
            } else {
                proof {
                    reveal_strlit(".md");
                    assert(".md"@ =~= md_suffix());
                }
                None
            }
        },
        None => None,
    }
}

/// A markdown file's key is the same whether it is derived from the request
/// path that names it (`/` + relative path + `.md`) or from its path under any
/// root.
pub proof fn lemma_url_and_path_keys_agree(base: Seq<char>, p: Seq<char>)
    ensures
        url_key(seq!['/'] + p + md_suffix()) == p,
        path_key(base, join(base, p + md_suffix())) == Some(url_key(seq!['/'] + p + md_suffix())),
{
    let f = p + md_suffix();
    let u = seq!['/'] + p + md_suffix();
    assert(u =~= seq!['/'] + f);
    assert(u[0] == '/');
    assert(strip_slash(u) =~= f);
    assert(f.subrange(f.len() - 3, f.len() as int) =~= md_suffix());
    assert(f.subrange(0, f.len() - 3) =~= p);
    let path = join(base, f);
    assert(base.is_prefix_of(path));
    assert(path.len() > base.len());
    assert(path != base);
    if base.len() > 0 && base.last() == '/' {
        assert(path.skip(base.len() as int) =~= f);
    } else {
        assert(path[base.len() as int] == '/');
        assert(path.skip(base.len() as int + 1) =~= f);
    }
}

} // verus!

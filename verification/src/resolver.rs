//! Key Resolver: the pure translation of a request path (plus an optional,
//! pre-normalized key prefix) into a storage key.

use vstd::prelude::*;

verus! {

/// The request path with a leading separator guaranteed.
pub open spec fn lead_slash(p: Seq<char>) -> Seq<char> {
    if p.len() > 0 && p[0] == '/' {
        p
    } else {
        seq!['/'] + p
    }
}

/// The directory-index convention: a path that ends in a separator addresses
/// the index document below it.
pub open spec fn with_index(p: Seq<char>) -> Seq<char> {
    if p.len() > 0 && p[p.len() - 1] == '/' {
        p + "index.html"@
    } else {
        p
    }
}

/// The storage key derived from a request path alone.
pub open spec fn normalized_path(p: Seq<char>) -> Seq<char> {
    with_index(lead_slash(p))
}

/// The storage key derived from a request path and an optional key prefix.
/// The prefix, when present, is prepended verbatim: it is expected to carry no
/// trailing separator, and the normalized path always begins with one.
pub open spec fn resolved_key(p: Seq<char>, prefix: Option<Seq<char>>) -> Seq<char> {
    match prefix {
        Some(x) => x + normalized_path(p),
        None => normalized_path(p),
    }
}

/// `s` ends in `suffix`.
pub open spec fn ends_with(s: Seq<char>, suffix: Seq<char>) -> bool {
    s.len() >= suffix.len() && s.skip(s.len() - suffix.len()) == suffix
}

/// Derives the storage key for `path` under `prefix`. Always succeeds; no
/// percent-decoding or dot-segment normalization is attempted here (that is
/// the router's responsibility).
pub fn resolve(path: &str, prefix: Option<&str>) -> (key: String)
    ensures
        key@ == resolved_key(
            path@,
            match prefix {
                Some(x) => Some(x@),
                None => None,
            },
        ),
{
    let n = path.unicode_len();
    let mut norm: String = String::new();
    if n == 0 || path.get_char(0) != '/' {
        norm.append("/");
        proof {
            reveal_strlit("/");
            assert(norm@ =~= seq!['/']);
        }
    }
    norm.append(path);
    assert(norm@ =~= lead_slash(path@));
    let ln = norm.as_str().unicode_len();
    assert(ln >= 1);
    if norm.as_str().get_char(ln - 1) == '/' {
        norm.append("index.html");
    }
    assert(norm@ =~= normalized_path(path@));
    match prefix {
        Some(x) => {
            let mut key: String = String::from_str(x);
            key.append(norm.as_str());
            key
        },
        None => norm,
    }
}

/// Law: a key derived with no prefix always begins with the path separator,
/// and a path that ends in a separator resolves to the index document.
pub proof fn lemma_resolve_no_prefix_shape(p: Seq<char>)
    ensures
        resolved_key(p, None).len() > 0,
        resolved_key(p, None)[0] == '/',
        p.len() > 0 && p[p.len() - 1] == '/' ==> ends_with(
            resolved_key(p, None),
            "index.html"@,
        ),
{
    let led = lead_slash(p);
    assert(led.len() > 0);
    assert(led[0] == '/');
    if led.len() > 0 && led[led.len() - 1] == '/' {
        assert((led + "index.html"@).skip(led.len() as int) =~= "index.html"@);
    }
}

/// Law: resolving under a prefix prepends the prefix to the prefix-free key.
pub proof fn lemma_resolve_prefix_concat(x: Seq<char>, p: Seq<char>)
    requires
        x.len() > 0 ==> x[0] != '/' && x[x.len() - 1] != '/',
    ensures
        resolved_key(p, Some(x)) == x + resolved_key(p, None),
{
}

} // verus!

//! Process configuration: the bucket name and an optional key prefix. The
//! prefix is normalized at construction so that it carries no leading and no
//! trailing path separator.

use vstd::prelude::*;

verus! {

/// `s` carries no leading and no trailing path separator.
pub open spec fn prefix_normalized(s: Seq<char>) -> bool {
    s.len() > 0 ==> (s[0] != '/' && s[s.len() - 1] != '/')
}

/// `s` with every leading separator removed.
pub open spec fn trim_leading(s: Seq<char>) -> Seq<char>
    decreases s.len(),
{
    if s.len() > 0 && s[0] == '/' {
        trim_leading(s.skip(1))
    } else {
        s
    }
}

/// `s` with every trailing separator removed.
pub open spec fn trim_trailing(s: Seq<char>) -> Seq<char>
    decreases s.len(),
{
    if s.len() > 0 && s[s.len() - 1] == '/' {
        trim_trailing(s.take(s.len() - 1))
    } else {
        s
    }
}

/// `s` with every leading and trailing separator removed.
pub open spec fn trim_separators(s: Seq<char>) -> Seq<char> {
    trim_trailing(trim_leading(s))
}

/// Strips every leading and trailing path separator from `s`.
pub fn trim_prefix(s: &str) -> (r: String)
    ensures
        r@ == trim_separators(s@),
        prefix_normalized(r@),
{
    let n = s.unicode_len();
    proof {
        assert(s@.skip(0) =~= s@);
    }
    let mut i: usize = 0;
    while i < n && s.get_char(i) == '/'
        invariant
            i <= n,
            n == s@.len(),
            trim_leading(s@) == trim_leading(s@.skip(i as int)),
        decreases n - i,
    {
        proof {
            assert(s@.skip(i as int).skip(1) =~= s@.skip(i as int + 1));
        }
        i = i + 1;
    }
    proof {
        if i < n {
            assert(s@.skip(i as int)[0] == s@[i as int]);
        } else {
            assert(s@.skip(i as int) =~= Seq::<char>::empty());
        }
        assert(trim_leading(s@) == s@.skip(i as int));
    }
    let mut j: usize = n;
    while j > i && s.get_char(j - 1) == '/'
        invariant
            i <= j <= n,
            n == s@.len(),
            i < n ==> s@[i as int] != '/',
            trim_leading(s@) == s@.skip(i as int),
            trim_trailing(s@.skip(i as int)) == trim_trailing(s@.subrange(i as int, j as int)),
        decreases j,
    {
        proof {
            let cur = s@.subrange(i as int, j as int);
            assert(cur[cur.len() - 1] == s@[j as int - 1]);
            assert(cur.take(cur.len() - 1) =~= s@.subrange(i as int, j as int - 1));
        }
        j = j - 1;
    }
    proof {
        assert(s@.skip(i as int) =~= s@.subrange(i as int, n as int));
        let cur = s@.subrange(i as int, j as int);
        if j > i {
            assert(cur[cur.len() - 1] == s@[j as int - 1]);
        } else {
            assert(cur =~= Seq::<char>::empty());
        }
        assert(trim_trailing(s@.subrange(i as int, j as int)) == cur);
        assert(trim_separators(s@) == s@.subrange(i as int, j as int));
    }
    let r = s.substring_char(i, j);
    proof {
        if r@.len() > 0 {
            assert(r@[0] == s@[i as int]);
            assert(r@[r@.len() - 1] == s@[j as int - 1]);
        }
    }
    String::from_str(r)
}

/// Immutable, process-wide configuration: the backing bucket and an optional
/// key prefix prepended to every resolved key.
#[derive(Debug, Clone)]
pub struct AppConfig {
    pub s3_bucket: String,
    pub key_prefix: Option<String>,
}

impl AppConfig {
    /// Well-formedness: the stored prefix, if any, is normalized.
    pub open spec fn wf(self) -> bool {
        match self.key_prefix {
            Some(p) => prefix_normalized(p@),
            None => true,
        }
    }

    /// Builds the configuration from plain values; the raw prefix, when
    /// present, has its surrounding separators stripped.
    pub fn new(s3_bucket: String, raw_prefix: Option<String>) -> (c: AppConfig)
        ensures
            c.s3_bucket == s3_bucket,
            match (raw_prefix, c.key_prefix) {
                (Some(r), Some(p)) => p@ == trim_separators(r@),
                (None, None) => true,
                _ => false,
            },
            c.wf(),
    {
        let key_prefix = match raw_prefix {
            Some(r) => Some(trim_prefix(r.as_str())),
            None => None,
        };
        AppConfig { s3_bucket, key_prefix }
    }
}

} // verus!

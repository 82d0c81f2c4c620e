use vstd::prelude::*;
use vstd::string::StrSliceExecFns;
use vstd::string::StringExecFns;

verus! {

/// The index of the last `/` in `p`, or -1 when there is none.
pub open spec fn last_slash_index(p: Seq<char>) -> int
    decreases p.len(),
{
    if p.len() == 0 {
        -1
    } else if p[p.len() - 1] == '/' {
        p.len() - 1
    } else {
        last_slash_index(p.take(p.len() - 1))
    }
}

/// The parent component of a path: the characters before the last `/`.
/// A path without a separator has no parent.
pub open spec fn parent_spec(p: Seq<char>) -> Option<Seq<char>> {
    if last_slash_index(p) >= 0 {
        Some(p.take(last_slash_index(p)))
    } else {
        None
    }
}

proof fn lemma_last_slash_ignores_tail(p: Seq<char>, i: int)
    requires
        0 <= i <= p.len(),
        forall|k: int| i <= k < p.len() ==> p[k] != '/',
    ensures
        last_slash_index(p) == last_slash_index(p.take(i)),
    decreases p.len() - i,
{
    if i == p.len() {
        assert(p.take(i) =~= p);
    } else {
        assert(p[p.len() - 1] != '/');
        let q = p.take(p.len() - 1);
        assert(forall|k: int| i <= k < q.len() ==> q[k] == p[k]);
        lemma_last_slash_ignores_tail(q, i);
        assert(q.take(i) =~= p.take(i));
    }
}

/// The parent directory of `p`: everything before the last `/`, or `None`
/// when `p` holds no separator at all.
pub fn parent_of(p: &str) -> (r: Option<String>)
    ensures
        match r {
            Some(d) => parent_spec(p@) == Some(d@),
            None => parent_spec(p@) is None,
        },
{
    let n = p.unicode_len();
    let mut i: usize = n;
    while i > 0
        invariant
            i <= n,
            n == p@.len(),
            forall|k: int| i <= k < n ==> p@[k] != '/',
        decreases i,
    {
        if p.get_char(i - 1) == '/' {
            let d = p.substring_char(0, i - 1);
            proof {
                lemma_last_slash_ignores_tail(p@, i as int);
                let q = p@.take(i as int);
                assert(q[q.len() - 1] == '/');
                assert(last_slash_index(q) == i - 1);
                assert(q.take(i - 1) =~= p@.take(i - 1));
                assert(d@ =~= p@.take(i - 1));
            }
            return Some(d.to_owned());
        }
        i = i - 1;
    }
    proof {
        lemma_last_slash_ignores_tail(p@, 0);
        assert(p@.take(0) =~= Seq::<char>::empty());
    }
    None
}

/// The resolved base directory: `fonty_base_path` when the caller has one;
/// otherwise the XDG data directory (or `{home}/.local/share`, or
/// `~/.local/share` when neither is set) joined with `fonts/Google`.
pub open spec fn base_path_spec(
    fonty_base_path: Option<Seq<char>>,
    xdg_data_home: Option<Seq<char>>,
    home: Option<Seq<char>>,
) -> Seq<char> {
    match fonty_base_path {
        Some(p) => p,
        None => {
            let hd = match home {
                Some(h) => h,
                None => "~"@,
            };
            let xd = match xdg_data_home {
                Some(x) => x,
                None => hd + "/.local/share"@,
            };
            xd + "/fonts/Google"@
        },
    }
}

/// Find the base path for the font files, from the configuration values an
/// environment resolver hands in.
pub fn get_font_base_path(
    fonty_base_path: Option<String>,
    xdg_data_home: Option<String>,
    home: Option<String>,
) -> (r: String)
    ensures
        r@ == base_path_spec(
            match fonty_base_path {
                Some(p) => Some(p@),
                None => None,
            },
            match xdg_data_home {
                Some(x) => Some(x@),
                None => None,
            },
            match home {
                Some(h) => Some(h@),
                None => None,
            },
        ),
{
    match fonty_base_path {
        Some(p) => p,
        None => {
            let hd = match home {
                Some(h) => h,
                None => String::from_str("~"),
            };
            let xd = match xdg_data_home {
                Some(x) => x,
                None => hd.concat("/.local/share"),
            };
            xd.concat("/fonts/Google")
        },
    }
}

} // verus!

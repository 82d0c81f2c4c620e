use crate::materialize::status_success;
use crate::text::{replace_char, replace_char_in};
use vstd::prelude::*;
use vstd::string::StringExecFns;

verus! {

/// The catalog's specimen endpoint for one font name: the name follows the
/// fixed base, spaces replaced by `+`.
pub fn specimen_url(font_name: &str) -> (r: String)
    ensures
        r@ == "https://fonts.google.com/specimen/"@ + replace_char(font_name@, ' ', '+'),
{
    let base = String::from_str("https://fonts.google.com/specimen/");
    let name = replace_char_in(font_name, ' ', '+');
    base.concat(name.as_str())
}

/// The requested names joined with one comma between each two.
pub open spec fn comma_join(names: Seq<Seq<char>>) -> Seq<char>
    decreases names.len(),
{
    if names.len() == 0 {
        Seq::empty()
    } else if names.len() == 1 {
        names[0]
    } else {
        comma_join(names.drop_last()) + seq![','] + names.last()
    }
}

/// The catalog's download-list endpoint for a set of font names: one
/// request for the whole set, the query carrying the names as a
/// comma-separated list.
pub fn download_list_url(font_names: &Vec<String>) -> (r: String)
    ensures
        r@ == "https://fonts.google.com/download/list?family="@ + comma_join(
            font_names@.map_values(|s: String| s@),
        ),
{
    let ghost names = font_names@.map_values(|s: String| s@);
    let mut r = String::from_str("https://fonts.google.com/download/list?family=");
    let mut i: usize = 0;
    while i < font_names.len()
        invariant
            i <= font_names@.len(),
            names == font_names@.map_values(|s: String| s@),
            r@ == "https://fonts.google.com/download/list?family="@ + comma_join(
                names.take(i as int),
            ),
        decreases font_names@.len() - i,
    {
        if i > 0 {
            r.append(",");
            proof {
                reveal_strlit(",");
                assert(","@ =~= seq![',']);
            }
        }
        r.append(font_names[i].as_str());
        proof {
            let t = names.take(i + 1);
            assert(t.drop_last() =~= names.take(i as int));
            assert(t.last() == names[i as int]);
            assert(names[i as int] == font_names@[i as int]@);
            if i == 0 {
                assert(comma_join(t) == names[0]);
                assert(comma_join(names.take(0)) =~= Seq::<char>::empty());
                assert(r@ =~= "https://fonts.google.com/download/list?family="@ + comma_join(t));
            } else {
                assert(comma_join(t) == comma_join(names.take(i as int)) + seq![',']
                    + names[i as int]);
                assert(r@ =~= "https://fonts.google.com/download/list?family="@ + comma_join(t));
            }
        }
        i = i + 1;
    }
    proof {
        assert(names.take(names.len() as int) =~= names);
    }
    r
}

/// The validator's verdict from what the specimen request came back with:
/// a name is valid exactly when the request succeeded at the transport
/// level and the status indicates success. Transport failure (no status at
/// all) counts as not valid; validity and reachability are deliberately
/// not distinguished.
pub fn is_valid_font_response(status: Option<u16>) -> (r: bool)
    ensures
        r == (status matches Some(s) && status_success(s)),
{
    match status {
        Some(s) => 200 <= s && s < 300,
        None => false,
    }
}

/// The names with an invalid verdict among the first `n`, in request order.
pub open spec fn invalid_prefix(names: Seq<Seq<char>>, valid: Seq<bool>, n: int) -> Seq<Seq<char>>
    decreases n,
{
    if n <= 0 {
        Seq::empty()
    } else {
        let p = invalid_prefix(names, valid, n - 1);
        if !valid[n - 1] {
            p.push(names[n - 1])
        } else {
            p
        }
    }
}

/// The names with an invalid verdict, in request order.
pub open spec fn invalid_names_spec(names: Seq<Seq<char>>, valid: Seq<bool>) -> Seq<Seq<char>> {
    invalid_prefix(names, valid, names.len() as int)
}

/// Collect every requested name whose verdict is invalid — all of them,
/// across the whole request list, in request order.
pub fn collect_invalid_fonts(names: &Vec<String>, valid: &Vec<bool>) -> (r: Vec<String>)
    requires
        names@.len() == valid@.len(),
    ensures
        r@.map_values(|s: String| s@) == invalid_names_spec(
            names@.map_values(|s: String| s@),
            valid@,
        ),
{
    let ghost nv = names@.map_values(|s: String| s@);
    let mut r: Vec<String> = Vec::new();
    let mut i: usize = 0;
    while i < names.len()
        invariant
            i <= names@.len(),
            names@.len() == valid@.len(),
            nv == names@.map_values(|s: String| s@),
            r@.map_values(|s: String| s@) == invalid_prefix(nv, valid@, i as int),
        decreases names@.len() - i,
    {
        if !valid[i] {
            r.push(names[i].clone());
            proof {
                assert(nv[i as int] == names@[i as int]@);
                assert(r@.map_values(|s: String| s@) =~= invalid_prefix(nv, valid@, i + 1));
            }
        } else {
            proof {
                assert(r@.map_values(|s: String| s@) =~= invalid_prefix(nv, valid@, i + 1));
            }
        }
        i = i + 1;
    }
    r
}

proof fn lemma_invalid_prefix_contains(names: Seq<Seq<char>>, valid: Seq<bool>, i: int, n: int)
    requires
        0 <= i < n <= names.len(),
        names.len() == valid.len(),
        !valid[i],
    ensures
        invalid_prefix(names, valid, n).contains(names[i]),
    decreases n,
{
    let p = invalid_prefix(names, valid, n - 1);
    if i == n - 1 {
        assert(invalid_prefix(names, valid, n) == p.push(names[i]));
        assert(p.push(names[i])[p.len() as int] == names[i]);
    } else {
        lemma_invalid_prefix_contains(names, valid, i, n - 1);
        let w = choose|w: int| 0 <= w < p.len() && p[w] == names[i];
        if !valid[n - 1] {
            assert(p.push(names[n - 1])[w] == names[i]);
        }
    }
}

/// Law: for any request list with at least one invalid entry, validation
/// reports every invalid entry, not just the first: each name with an
/// invalid verdict appears in the collected list.
pub proof fn lemma_every_invalid_reported(names: Seq<Seq<char>>, valid: Seq<bool>, i: int)
    requires
        names.len() == valid.len(),
        0 <= i < names.len(),
        !valid[i],
    ensures
        invalid_names_spec(names, valid).contains(names[i]),
{
    lemma_invalid_prefix_contains(names, valid, i, names.len() as int);
}

} // verus!

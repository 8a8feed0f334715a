//! The listing of SSH keys: words of the form `index=name`.

use crate::error::{FetchError, FetchErrorView};
use crate::text::{chars_of, split_whitespace, words};
use vstd::prelude::*;
use vstd::string::*;

verus! {

/// Whether the character of `token` at `i` is a `=`, and the only one.
pub open spec fn sole_separator(token: Seq<char>, i: int) -> bool {
    &&& 0 <= i < token.len()
    &&& token[i] == '='
    &&& forall|j: int| 0 <= j < token.len() && j != i ==> token[j] != '='
}

/// The index of a listing entry, which is what stands before its `=`;
/// `None` unless the entry holds exactly one `=`.
pub open spec fn entry_index(token: Seq<char>) -> Option<Seq<char>> {
    if exists|i: int| sole_separator(token, i) {
        Some(token.take(choose|i: int| sole_separator(token, i)))
    } else {
        None
    }
}

/// The indices of the entries of a listing, in its order; `None` where one
/// of its words is no entry.
pub open spec fn key_indices(listing: Seq<char>) -> Option<Seq<Seq<char>>> {
    let tokens = words(listing);
    if forall|k: int| 0 <= k < tokens.len() ==> (#[trigger] entry_index(tokens[k])) is Some {
        Some(Seq::new(tokens.len(), |k: int| entry_index(tokens[k])->0))
    } else {
        None
    }
}

/// The index of a listing entry; `None` unless the entry holds exactly one
/// `=`.
pub fn parse_entry(token: &str) -> (r: Option<String>)
    ensures
        r.deep_view() == entry_index(token@),
{
    let chars = chars_of(token);
    let n: usize = chars.len();
    let mut i: usize = 0;
    while i < n && chars[i] != '='
        invariant
            i <= n,
            n == chars.len(),
            chars@ == token@,
            forall|k: int| 0 <= k < i ==> token@[k] != '=',
        decreases n - i,
    {
        i += 1;
    }
    if i == n {
        assert forall|p: int| !sole_separator(token@, p) by {}
        return None;
    }
    let mut j: usize = i + 1;
    while j < n && chars[j] != '='
        invariant
            i < j <= n,
            n == chars.len(),
            chars@ == token@,
            forall|k: int| i < k < j ==> token@[k] != '=',
        decreases n - j,
    {
        j += 1;
    }
    if j < n {
        assert forall|p: int| !sole_separator(token@, p) by {
            if sole_separator(token@, p) {
                if p == i {
                    assert(token@[j as int] != '=');
                } else {
                    assert(token@[i as int] != '=');
                }
            }
        }
        return None;
    }
    proof {
        assert(sole_separator(token@, i as int));
        let p = choose|p: int| sole_separator(token@, p);
        assert(sole_separator(token@, p));
        if p != i {
            assert(token@[i as int] != '=');
        }
        assert(token@.take(i as int) =~= token@.subrange(0, i as int));
    }
    Some(String::from_str(token.substring_char(0, i)))
}

/// The indices of the entries of a listing, in its order. A word that is no
/// entry makes the whole listing malformed.
pub fn parse_key_listing(listing: &str) -> (r: Result<Vec<String>, FetchError>)
    ensures
        match key_indices(listing@) {
            Some(indices) => r matches Ok(v) && v.deep_view() == indices,
            None => r matches Err(e) && e@ == FetchErrorView::MalformedKeyListing,
        },
{
    let tokens = split_whitespace(listing);
    let ghost all = words(listing@);
    let n: usize = tokens.len();
    let mut out: Vec<String> = Vec::new();
    let mut k: usize = 0;
    while k < n
        invariant
            k <= n,
            n == tokens.len(),
            tokens.deep_view() == all,
            all == words(listing@),
            out.deep_view() =~= Seq::new(k as nat, |j: int| entry_index(all[j])->0),
            forall|j: int| 0 <= j < k ==> (#[trigger] entry_index(all[j])) is Some,
        decreases n - k,
    {
        assert(tokens.deep_view()[k as int] == tokens[k as int]@);
        match parse_entry(tokens[k].as_str()) {
            None => {
                assert(entry_index(all[k as int]) is None);
                return Err(FetchError::MalformedKeyListing);
            },
            Some(index) => {
                let ghost before = out.deep_view();
                let ghost added = index@;
                out.push(index);
                assert(out.deep_view() =~= before.push(added));
            },
        }
        k += 1;
    }
    assert(all.len() == n);
    Ok(out)
}

} // verus!

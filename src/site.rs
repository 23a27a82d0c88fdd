//! Small replies of the site: the echo of the home page and the path that
//! the not-found page shows.
use vstd::prelude::*;
use vstd::string::StringExecFns;

use crate::chars::{chars_of, join_with, joined_with, string_from_chars, string_views};
use crate::text::views;

verus! {

/// The echo of `input`.
pub open spec fn echo_of(input: Seq<char>) -> Seq<char> {
    "You said: "@ + input
}

/// The reply of the echo service: `You said: ` and the input.
pub fn echo_server(input: &str) -> (r: String)
    ensures
        r@ == echo_of(input@),
{
    "You said: ".to_owned().concat(input)
}

/// The path made of `segments`: each after a `/`, and `/` alone for none.
pub open spec fn path_of(segments: Seq<Seq<char>>) -> Seq<char> {
    seq!['/'] + joined_with(segments, '/')
}

/// The path of a page that was not found, from its segments.
pub fn not_found_path(segments: &Vec<String>) -> (r: String)
    ensures
        r@ == path_of(string_views(segments@)),
{
    let mut parts: Vec<Vec<char>> = Vec::new();
    let mut i: usize = 0;
    while i < segments.len()
        invariant
            i <= segments.len(),
            views(parts@) == string_views(segments@).take(i as int),
        decreases segments.len() - i,
    {
        let ghost before = views(parts@);
        parts.push(chars_of(segments[i].as_str()));
        assert(views(parts@) =~= before.push(segments@[i as int]@));
        i += 1;
        assert(string_views(segments@).take(i as int) =~= before.push(segments@[i - 1]@));
    }
    assert(string_views(segments@).take(i as int) =~= string_views(segments@));
    let joined = join_with(&parts, parts.len(), '/');
    assert(views(parts@).take(parts.len() as int) =~= views(parts@));
    let mut out: Vec<char> = Vec::new();
    out.push('/');
    let mut j: usize = 0;
    while j < joined.len()
        invariant
            j <= joined.len(),
            out@ == seq!['/'] + joined@.take(j as int),
        decreases joined.len() - j,
    {
        out.push(joined[j]);
        j += 1;
        assert(out@ =~= seq!['/'] + joined@.take(j as int));
    }
    assert(joined@.take(j as int) =~= joined@);
    string_from_chars(&out)
}

} // verus!

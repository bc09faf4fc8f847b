//! The two endpoints that touch the table: shortening a link and resolving a
//! code. The HTTP framing around them is left to the caller.

use vstd::prelude::*;
use crate::code::{generate_rand_code, is_code, CODE_LEN};
use crate::payload::{decode_link, json_text_member, requested_link, PayloadError};
use crate::table::{lookup, EntryModel, LinkEntry, LinkTable};

verus! {

/// The answer to a request for a code: a permanent redirect to the long link,
/// or not found.
#[derive(Debug)]
pub enum ShortLinkReply {
    Redirect(String),
    NotFound,
}

/// `r` answers a lookup that `found`: a redirect to that long link, or not
/// found where there is none.
pub open spec fn reply_matches(r: ShortLinkReply, found: Option<Seq<char>>) -> bool {
    match found {
        Some(l) => r is Redirect && r->Redirect_0@ == l,
        None => r is NotFound,
    }
}

/// Shortens the link that `body` asks for: draws a fresh code, appends an
/// entry from it to the requested link (empty where the body has no string
/// `link` member) and returns the code. A body that is not JSON is refused
/// and leaves the table as it was.
pub fn post_link(table: &mut LinkTable, body: &[u8]) -> (r: Result<String, PayloadError>)
    ensures
        old(table).wf() ==> final(table).wf(),
        match requested_link(json_text_member(body@, "link"@)) {
            None => r == Err::<String, PayloadError>(PayloadError::MalformedJson)
                && final(table)@ == old(table)@,
            Some(l) => r is Ok && is_code(r->Ok_0@) && final(table)@ == old(table)@.push(
                EntryModel { long_link: l, short_link: r->Ok_0@ },
            ),
        },
{
    let code = generate_rand_code(CODE_LEN);
    match decode_link(body) {
        Err(e) => Err(e),
        Ok(long_link) => {
            table.append(LinkEntry { long_link, short_link: code.clone() });
            Ok(code)
        },
    }
}

/// Resolves `code` against the table, or answers not found where the table
/// could not be had (`None`, a lock left unusable by a failed holder).
pub fn get_short_link(table: Option<&LinkTable>, code: &str) -> (r: ShortLinkReply)
    ensures
        match table {
            Some(t) => reply_matches(r, lookup(t@, code@)),
            None => r is NotFound,
        },
{
    match table {
        None => ShortLinkReply::NotFound,
        Some(t) => match t.find(code) {
            Some(l) => ShortLinkReply::Redirect(l),
            None => ShortLinkReply::NotFound,
        },
    }
}

/// Round trip: once the link `s` is stored under a code `c` that no earlier
/// entry carries, resolving `c` redirects to exactly `s`, whatever `s` is.
pub proof fn lemma_round_trip(t: Seq<EntryModel>, s: Seq<char>, c: Seq<char>)
    requires
        lookup(t, c) is None,
    ensures
        lookup(t.push(EntryModel { long_link: s, short_link: c }), c) == Some(s),
{
    assert(t.push(EntryModel { long_link: s, short_link: c }).drop_last() =~= t);
}

/// A code that no entry carries resolves to nothing.
pub proof fn lemma_unissued_not_found(t: Seq<EntryModel>, c: Seq<char>)
    requires
        forall|i: int| 0 <= i < t.len() ==> #[trigger] t[i].short_link != c,
    ensures
        lookup(t, c) is None,
{
    crate::table::lemma_lookup_none(t, c);
}

/// Appending never changes what an already resolvable code resolves to:
/// among entries with one code, the oldest wins.
pub proof fn lemma_append_keeps_lookup(t: Seq<EntryModel>, e: EntryModel, c: Seq<char>)
    requires
        lookup(t, c) is Some,
    ensures
        lookup(t.push(e), c) == lookup(t, c),
{
    assert(t.push(e).drop_last() =~= t);
}

/// Shortening one link twice stores two entries, and each of the two codes,
/// if neither was issued before, resolves to that link, equal codes included.
pub proof fn lemma_same_link_twice(t: Seq<EntryModel>, s: Seq<char>, c1: Seq<char>, c2: Seq<char>)
    requires
        lookup(t, c1) is None,
        lookup(t, c2) is None,
    ensures
        ({
            let t2 = t.push(EntryModel { long_link: s, short_link: c1 }).push(
                EntryModel { long_link: s, short_link: c2 },
            );
            &&& t2.len() == t.len() + 2
            &&& lookup(t2, c1) == Some(s)
            &&& lookup(t2, c2) == Some(s)
        }),
{
    let e1 = EntryModel { long_link: s, short_link: c1 };
    let e2 = EntryModel { long_link: s, short_link: c2 };
    let t1 = t.push(e1);
    lemma_round_trip(t, s, c1);
    lemma_append_keeps_lookup(t1, e2, c1);
    if c1 == c2 {
        lemma_append_keeps_lookup(t1, e2, c2);
    } else {
        assert(t1.drop_last() =~= t);
        lemma_round_trip(t1, s, c2);
    }
}

} // verus!

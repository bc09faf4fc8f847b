//! The link table: an append-only sequence of entries from short codes to
//! long links, searched front to back so that the oldest entry of a code wins.

use vstd::prelude::*;
use crate::code::is_code;

verus! {

/// One shortened link: the code handed out and the text it stands for.
pub struct LinkEntry {
    pub long_link: String,
    pub short_link: String,
}

/// What an entry means: two character sequences.
pub ghost struct EntryModel {
    pub long_link: Seq<char>,
    pub short_link: Seq<char>,
}

impl View for LinkEntry {
    type V = EntryModel;

    open spec fn view(&self) -> EntryModel {
        EntryModel { long_link: self.long_link@, short_link: self.short_link@ }
    }
}

/// The long link of the first entry of `t` whose code is `code`, if any.
pub open spec fn lookup(t: Seq<EntryModel>, code: Seq<char>) -> Option<Seq<char>>
    decreases t.len(),
{
    if t.len() == 0 {
        None
    } else {
        match lookup(t.drop_last(), code) {
            Some(l) => Some(l),
            None => if t.last().short_link == code {
                Some(t.last().long_link)
            } else {
                None
            },
        }
    }
}

/// Every entry of `t` carries a well-formed code.
pub open spec fn entries_wf(t: Seq<EntryModel>) -> bool {
    forall|i: int| 0 <= i < t.len() ==> #[trigger] is_code(t[i].short_link)
}

/// A code resolves to nothing exactly when no entry carries it.
pub proof fn lemma_lookup_none(t: Seq<EntryModel>, code: Seq<char>)
    ensures
        lookup(t, code) is None <==> (forall|i: int| 0 <= i < t.len() ==> #[trigger] t[i].short_link != code),
    decreases t.len(),
{
    if t.len() > 0 {
        lemma_lookup_none(t.drop_last(), code);
        assert forall|i: int| 0 <= i < t.len() - 1 implies #[trigger] t.drop_last()[i] == t[i] by {}
        if lookup(t, code) is None {
            assert forall|i: int| 0 <= i < t.len() implies #[trigger] t[i].short_link != code by {
                if i < t.len() - 1 {
                    assert(t.drop_last()[i] == t[i]);
                }
            }
        }
    }
}

/// Once a prefix of `t` resolves a code, all of `t` resolves it the same way.
pub proof fn lemma_lookup_prefix(t: Seq<EntryModel>, n: int, code: Seq<char>)
    requires
        0 <= n <= t.len(),
        lookup(t.take(n), code) is Some,
    ensures
        lookup(t, code) == lookup(t.take(n), code),
    decreases t.len() - n,
{
    if n == t.len() {
        assert(t.take(n) =~= t);
    } else {
        assert(t.drop_last().take(n) =~= t.take(n));
        lemma_lookup_prefix(t.drop_last(), n, code);
    }
}

/// No entry of a well-formed table carries the empty code.
pub proof fn lemma_empty_code_not_found(t: Seq<EntryModel>)
    requires
        entries_wf(t),
    ensures
        lookup(t, Seq::<char>::empty()) is None,
{
    assert forall|i: int| 0 <= i < t.len() implies #[trigger] t[i].short_link != Seq::<char>::empty() by {
        assert(is_code(t[i].short_link));
    }
    lemma_lookup_none(t, Seq::<char>::empty());
}

/// The table shared by the endpoints. Entries are only ever appended.
pub struct LinkTable {
    entries: Vec<LinkEntry>,
}

impl View for LinkTable {
    type V = Seq<EntryModel>;

    closed spec fn view(&self) -> Seq<EntryModel> {
        self.entries@.map_values(|e: LinkEntry| e@)
    }
}

impl LinkTable {
    /// Every entry of the table carries a well-formed code.
    pub open spec fn wf(&self) -> bool {
        entries_wf(self@)
    }

    /// An empty table.
    pub fn new() -> (r: LinkTable)
        ensures
            r@ == Seq::<EntryModel>::empty(),
            r.wf(),
    {
        let r = LinkTable { entries: Vec::new() };
        assert(r@ =~= Seq::<EntryModel>::empty());
        r
    }

    /// The number of entries.
    pub fn len(&self) -> (r: usize)
        ensures
            r == self@.len(),
    {
        self.entries.len()
    }

    /// Adds `entry` after all existing entries.
    pub fn append(&mut self, entry: LinkEntry)
        requires
            is_code(entry.short_link@),
        ensures
            old(self).wf() ==> final(self).wf(),
            final(self)@ == old(self)@.push(entry@),
    {
        let ghost e = entry@;
        self.entries.push(entry);
        assert(self@ =~= old(self)@.push(e));
    }

    /// The long link of the first entry whose code is `code`
    /// (compared character by character, so case matters).
    pub fn find(&self, code: &str) -> (r: Option<String>)
        ensures
            match lookup(self@, code@) {
                Some(l) => r is Some && r->0@ == l,
                None => r is None,
            },
    {
        let key = code.to_owned();
        let n = self.entries.len();
        let mut i: usize = 0;
        while i < n
            invariant
                n == self.entries.len(),
                n == self@.len(),
                i <= n,
                key@ == code@,
                lookup(self@.take(i as int), code@) is None,
            decreases n - i,
        {
            let ghost t = self@;
            assert(t.take(i as int + 1).drop_last() =~= t.take(i as int));
            if self.entries[i].short_link == key {
                proof {
                    lemma_lookup_prefix(t, i as int + 1, code@);
                }
                return Some(self.entries[i].long_link.clone());
            }
            i = i + 1;
        }
        assert(self@.take(n as int) =~= self@);
        None
    }
}

} // verus!

//! Resolution of asset references while a page is transformed.
//!
//! Transforming a page walks its entries in a fixed order and asks for the
//! local path of each asset it meets. The walk is a pure function of the page
//! and of an [`AssetTable`] of the outcomes known so far: it either finishes
//! or names the first asset whose outcome is not known yet. The caller fetches
//! that asset through the cache, records the outcome and walks again; each
//! round records one more outcome, and the final walk makes the same choices
//! as a walk that fetched each asset on the spot.

use vstd::prelude::*;

verus! {

/// An asset to fetch: its URL and the tag that disambiguates its file name.
pub struct AssetRequest {
    pub url: String,
    pub tag: String,
}

/// The outcome of a walk: finished with a value, or stopped at an asset
/// whose outcome is not known yet.
pub enum Walk<T> {
    Need(Seq<char>, Seq<char>),
    Done(T),
}

/// The first recorded outcome for `u`: the local path, or `None` for a
/// failed fetch.
pub open spec fn table_get(s: Seq<(String, Option<String>)>, u: Seq<char>) -> Option<
    Option<Seq<char>>,
>
    decreases s.len(),
{
    if s.len() == 0 {
        None
    } else if s[0].0@ == u {
        Some(
            match s[0].1 {
                Some(p) => Some(p@),
                None => None,
            },
        )
    } else {
        table_get(s.drop_first(), u)
    }
}

/// What resolving `u` gives: an empty reference fails at once with no
/// fetch; a recorded URL gives its outcome; any other is not known yet.
pub open spec fn resolve_spec(t: Seq<(String, Option<String>)>, u: Seq<char>) -> Option<
    Option<Seq<char>>,
> {
    if u.len() == 0 {
        Some(None)
    } else {
        table_get(t, u)
    }
}

/// Trying candidates (URL, tag) in order: the first that resolves to a path
/// wins, failed ones are skipped, an unknown one stops the walk.
pub open spec fn probe(t: Seq<(String, Option<String>)>, cands: Seq<(Seq<char>, Seq<char>)>) -> Walk<
    Option<Seq<char>>,
>
    decreases cands.len(),
{
    if cands.len() == 0 {
        Walk::Done(None)
    } else {
        match resolve_spec(t, cands[0].0) {
            None => Walk::Need(cands[0].0, cands[0].1),
            Some(Some(p)) => Walk::Done(Some(p)),
            Some(None) => probe(t, cands.drop_first()),
        }
    }
}

/// The views of candidate pairs.
pub open spec fn cands_view(c: Seq<(String, String)>) -> Seq<(Seq<char>, Seq<char>)> {
    c.map_values(|p: (String, String)| (p.0@, p.1@))
}

/// The outcomes of the fetches made so far.
pub struct AssetTable {
    entries: Vec<(String, Option<String>)>,
}

impl AssetTable {
    /// The recorded outcomes, earliest first.
    pub closed spec fn entries(&self) -> Seq<(String, Option<String>)> {
        self.entries@
    }

    /// A table with no outcome.
    pub fn new() -> (r: AssetTable)
        ensures
            forall|u: Seq<char>| table_get(r.entries(), u) is None,
    {
        AssetTable { entries: Vec::new() }
    }

    /// Records the outcome of fetching `url`: its local path, or `None` when
    /// the fetch failed. An outcome already recorded for `url` stays.
    pub fn record(&mut self, url: String, outcome: Option<String>)
        ensures
            forall|u: Seq<char>|
                #![trigger table_get(final(self).entries(), u)]
                table_get(final(self).entries(), u) == if u == url@ && table_get(
                    old(self).entries(),
                    u,
                ) is None {
                    Some(
                        match outcome {
                            Some(p) => Some(p@),
                            None => None,
                        },
                    )
                } else {
                    table_get(old(self).entries(), u)
                },
    {
        let ghost e = (url, outcome);
        proof {
            lemma_table_get_push(self.entries@, e);
        }
        self.entries.push((url, outcome));
    }

    /// What resolving `url` gives, as `resolve_spec` states.
    pub fn resolve(&self, url: &str) -> (r: Option<Option<String>>)
        ensures
            match r {
                Some(o) => resolve_spec(self.entries(), url@) == Some(
                    match o {
                        Some(p) => Some(p@),
                        None => None,
                    },
                ),
                None => resolve_spec(self.entries(), url@) is None,
            },
    {
        if url.is_empty() {
            return Some(None);
        }
        let key = url.to_owned();
        let mut i: usize = 0;
        assert(self.entries@.skip(0) =~= self.entries@);
        while i < self.entries.len()
            invariant
                i <= self.entries@.len(),
                table_get(self.entries@.skip(i as int), url@) == table_get(self.entries@, url@),
                key@ == url@,
                url@.len() > 0,
            decreases self.entries@.len() - i,
        {
            let ghost rest = self.entries@.skip(i as int);
            assert(rest[0] == self.entries@[i as int]);
            assert(rest.drop_first() =~= self.entries@.skip(i + 1));
            if self.entries[i].0 == key {
                assert(rest[0].0@ == url@);
                assert(table_get(rest, url@) == Some(
                    match rest[0].1 {
                        Some(p) => Some(p@),
                        None => None,
                    },
                ));
                let out: Option<String> = match &self.entries[i].1 {
                    Some(p) => Some(p.clone()),
                    None => None,
                };
                assert(match out {
                    Some(p) => Some(p@),
                    None => None,
                } == match rest[0].1 {
                    Some(p) => Some(p@),
                    None => None,
                });
                return Some(out);
            }
            i = i + 1;
        }
        None
    }
}

proof fn lemma_table_get_push(s: Seq<(String, Option<String>)>, e: (String, Option<String>))
    ensures
        forall|u: Seq<char>|
            #![trigger table_get(s.push(e), u)]
            table_get(s.push(e), u) == if u == e.0@ && table_get(s, u) is None {
                Some(
                    match e.1 {
                        Some(p) => Some(p@),
                        None => None,
                    },
                )
            } else {
                table_get(s, u)
            },
    decreases s.len(),
{
    if s.len() > 0 {
        lemma_table_get_push(s.drop_first(), e);
        assert(s.push(e).drop_first() =~= s.drop_first().push(e));
    } else {
        assert(s.push(e).drop_first() =~= s);
    }
}

/// Tries candidates (URL, tag) in order, as `probe` states.
pub fn probe_candidates(table: &AssetTable, cands: &Vec<(String, String)>) -> (r: Result<
    Option<String>,
    AssetRequest,
>)
    ensures
        match r {
            Ok(o) => probe(table.entries(), cands_view(cands@)) == Walk::Done(
                match o {
                    Some(p) => Some(p@),
                    None => None,
                },
            ),
            Err(q) => probe(table.entries(), cands_view(cands@)) == Walk::<
                Option<Seq<char>>,
            >::Need(q.url@, q.tag@),
        },
{
    let ghost all = cands_view(cands@);
    let mut i: usize = 0;
    assert(all.skip(0) =~= all);
    while i < cands.len()
        invariant
            i <= cands@.len(),
            all == cands_view(cands@),
            probe(table.entries(), all.skip(i as int)) == probe(table.entries(), all),
        decreases cands@.len() - i,
    {
        let ghost rest = all.skip(i as int);
        assert(rest[0] == (cands@[i as int].0@, cands@[i as int].1@));
        assert(rest.drop_first() =~= all.skip(i + 1));
        match table.resolve(cands[i].0.as_str()) {
            None => {
                return Err(AssetRequest { url: cands[i].0.clone(), tag: cands[i].1.clone() });
            },
            Some(Some(p)) => {
                return Ok(Some(p));
            },
            Some(None) => {},
        }
        i = i + 1;
    }
    assert(all.skip(i as int) =~= Seq::<(Seq<char>, Seq<char>)>::empty());
    Ok(None)
}

} // verus!

//! The registry of news sources seen so far.

use crate::feed::{or_empty, seq_or_empty, string_or_empty, RawFeed, RawGroup, RawProfile};
use crate::models::ActorModel;
use crate::news_update::{full_name, get_full_name};
use std::collections::HashMap;
use vstd::prelude::*;

verus! {

broadcast use vstd::std_specs::hash::group_hash_axioms;

/// A batch of news sources.
pub struct SourcesUpdate {
    pub items: Vec<ActorModel>,
}

/// A news source as values: id, name, avatar, description, page, comment.
pub type ActorV = (i64, Seq<char>, Seq<char>, Seq<char>, Seq<char>, Seq<char>);

/// The values of a news source.
pub open spec fn actor_view(a: ActorModel) -> ActorV {
    (a.id, a.name@, a.avatar@, a.desc@, a.rel_uri@, a.comment@)
}

/// The description of a person.
pub const PROFILE_DESC: &'static str = "profile";

/// The description of a group the user is a member of.
pub const SUBSCRIPTION_DESC: &'static str = "subscription";

/// The description of an advertiser group.
pub const ADVERTISER_DESC: &'static str = "advertiser";

/// A person as a news source, with `comment` for the text of its last visit.
pub open spec fn profile_source(p: RawProfile, comment: Seq<char>) -> ActorV {
    (p.id, full_name(p), or_empty(p.photo_50), PROFILE_DESC@, or_empty(p.screen_name), comment)
}

/// How a group is described: as a subscription when the user is a member,
/// else by its type; where membership is not given, as an advertiser when
/// it is one, else by its type.
pub open spec fn group_desc(g: RawGroup) -> Seq<char> {
    match g.is_member {
        Some(m) => if m == 1 {
            SUBSCRIPTION_DESC@
        } else {
            g.type_@
        },
        None => match g.is_advertiser {
            Some(a) => if a == 1 {
                ADVERTISER_DESC@
            } else {
                g.type_@
            },
            None => g.type_@,
        },
    }
}

/// The comment of the `i`-th person of a page: the text given for its last
/// visit, when the visit is known and a text is given; else empty.
pub open spec fn seen_comment(p: RawProfile, seen: Seq<String>, i: int) -> Seq<char> {
    if p.last_seen is Some && 0 <= i < seen.len() {
        seen[i]@
    } else {
        Seq::empty()
    }
}

/// A group as a news source.
pub open spec fn group_source(g: RawGroup) -> ActorV {
    (g.id, g.name@, g.photo_50@, group_desc(g), g.screen_name@, or_empty(g.description))
}

/// A person as a news source, with `comment` for the text of its last visit.
pub fn profile_actor(p: &RawProfile, comment: String) -> (r: ActorModel)
    ensures
        actor_view(r) == profile_source(*p, comment@),
{
    ActorModel {
        id: p.id,
        name: get_full_name(p),
        avatar: string_or_empty(&p.photo_50),
        desc: PROFILE_DESC.to_owned(),
        rel_uri: string_or_empty(&p.screen_name),
        comment,
    }
}

/// A group as a news source.
pub fn group_actor(g: &RawGroup) -> (r: ActorModel)
    ensures
        actor_view(r) == group_source(*g),
{
    let desc = match g.is_member {
        Some(m) => if m == 1 {
            SUBSCRIPTION_DESC.to_owned()
        } else {
            g.type_.clone()
        },
        None => match g.is_advertiser {
            Some(a) => if a == 1 {
                ADVERTISER_DESC.to_owned()
            } else {
                g.type_.clone()
            },
            None => g.type_.clone(),
        },
    };
    ActorModel {
        id: g.id,
        name: g.name.clone(),
        avatar: g.photo_50.clone(),
        desc,
        rel_uri: g.screen_name.clone(),
        comment: string_or_empty(&g.description),
    }
}

impl SourcesUpdate {
    /// The news sources of a page: its persons, then its groups. `seen[i]`
    /// is the text of the last visit of the `i`-th person, written in local
    /// time; it is used where that visit is known.
    pub fn new(feed: &RawFeed, seen: &Vec<String>) -> (r: SourcesUpdate)
        ensures
            r.items@.len() == seq_or_empty(feed.profiles).len() + seq_or_empty(feed.groups).len(),
            forall|i: int|
                0 <= i < seq_or_empty(feed.profiles).len() ==> #[trigger] actor_view(r.items@[i])
                    == profile_source(
                    seq_or_empty(feed.profiles)[i],
                    seen_comment(seq_or_empty(feed.profiles)[i], seen@, i),
                ),
            forall|j: int|
                0 <= j < seq_or_empty(feed.groups).len() ==> #[trigger] actor_view(
                    r.items@[seq_or_empty(feed.profiles).len() + j],
                ) == group_source(seq_or_empty(feed.groups)[j]),
    {
        let ghost ps = seq_or_empty(feed.profiles);
        let ghost gs = seq_or_empty(feed.groups);
        let mut items: Vec<ActorModel> = Vec::new();
        if let Some(profiles) = &feed.profiles {
            let mut i: usize = 0;
            while i < profiles.len()
                invariant
                    ps == profiles@,
                    i <= ps.len(),
                    items@.len() == i,
                    forall|k: int|
                        0 <= k < i ==> #[trigger] actor_view(items@[k]) == profile_source(
                            ps[k],
                            seen_comment(ps[k], seen@, k),
                        ),
                decreases ps.len() - i,
            {
                let p = &profiles[i];
                let comment = if p.last_seen.is_some() && i < seen.len() {
                    seen[i].clone()
                } else {
                    String::new()
                };
                items.push(profile_actor(p, comment));
                i = i + 1;
            }
        }
        let ghost np = items@.len();
        assert(np == ps.len());
        if let Some(groups) = &feed.groups {
            let mut j: usize = 0;
            while j < groups.len()
                invariant
                    gs == groups@,
                    j <= gs.len(),
                    items@.len() == np + j,
                    np == ps.len(),
                    forall|k: int|
                        0 <= k < np ==> #[trigger] actor_view(items@[k]) == profile_source(
                            ps[k],
                            seen_comment(ps[k], seen@, k),
                        ),
                    forall|k: int|
                        0 <= k < j ==> #[trigger] actor_view(items@[np + k]) == group_source(
                            gs[k],
                        ),
                decreases gs.len() - j,
            {
                let a = group_actor(&groups[j]);
                items.push(a);
                j = j + 1;
            }
        }
        SourcesUpdate { items }
    }
}

/// The candidates that are new, in order: those whose id is neither known
/// nor taken by an earlier candidate of the batch.
pub open spec fn new_sources(known: Set<i64>, cands: Seq<ActorModel>) -> Seq<ActorModel>
    decreases cands.len(),
{
    if cands.len() == 0 {
        seq![]
    } else if known.contains(cands[0].id) {
        new_sources(known, cands.drop_first())
    } else {
        seq![cands[0]] + new_sources(known.insert(cands[0].id), cands.drop_first())
    }
}

/// The registry after a batch: each candidate whose id is not registered
/// yet is registered, in order.
pub open spec fn registered(m: Map<i64, ActorModel>, cands: Seq<ActorModel>) -> Map<i64, ActorModel>
    decreases cands.len(),
{
    if cands.len() == 0 {
        m
    } else if m.contains_key(cands[0].id) {
        registered(m, cands.drop_first())
    } else {
        registered(m.insert(cands[0].id, cands[0]), cands.drop_first())
    }
}

/// The ids of a batch.
pub open spec fn ids_of(cands: Seq<ActorModel>) -> Set<i64> {
    Set::new(|id: i64| exists|i: int| 0 <= i < cands.len() && #[trigger] cands[i].id == id)
}

/// The registry: each source id seen, with the record first seen for it.
pub struct SourcesManager {
    items: HashMap<i64, ActorModel>,
}

impl View for SourcesManager {
    type V = Map<i64, ActorModel>;

    closed spec fn view(&self) -> Map<i64, ActorModel> {
        self.items@
    }
}

impl SourcesManager {
    /// An empty registry.
    pub fn new() -> (r: SourcesManager)
        ensures
            r@ == Map::<i64, ActorModel>::empty(),
    {
        SourcesManager { items: HashMap::new() }
    }

    /// Registers the candidates not seen before and returns them, in order;
    /// `None` when none is new.
    pub fn add_new_sources(&mut self, update: SourcesUpdate) -> (r: Option<SourcesUpdate>)
        ensures
            new_sources(old(self)@.dom(), update.items@).len() == 0 ==> r is None,
            new_sources(old(self)@.dom(), update.items@).len() > 0 ==> (r matches Some(u)
                && u.items@ == new_sources(old(self)@.dom(), update.items@)),
            final(self)@ == registered(old(self)@, update.items@),
            final(self)@.dom() == old(self)@.dom() + ids_of(update.items@),
            forall|id: i64| #[trigger]
                old(self)@.contains_key(id) ==> final(self)@[id] == old(self)@[id],
    {
        let ghost cands = update.items@;
        let ghost known0 = self@.dom();
        assert(cands.skip(0) =~= cands);
        let mut new_items: Vec<ActorModel> = Vec::new();
        let mut i: usize = 0;
        assert(cands.skip(0) =~= cands);
        while i < update.items.len()
            invariant
                cands == update.items@,
                i <= cands.len(),
                new_items@ + new_sources(self@.dom(), cands.skip(i as int)) == new_sources(
                    known0,
                    cands,
                ),
                self@.dom() == known0 + ids_of(cands.take(i as int)),
                forall|id: i64| #[trigger] old(self)@.contains_key(id) ==> self@[id] == old(self)@[id],
                known0 == old(self)@.dom(),
                registered(self@, cands.skip(i as int)) == registered(old(self)@, cands),
            decreases cands.len() - i,
        {
            let item = &update.items[i];
            let ghost rest = cands.skip(i as int);
            assert(rest[0] == cands[i as int]);
            assert(rest.drop_first() =~= cands.skip(i + 1));
            if !self.items.contains_key(&item.id) {
                self.items.insert(item.id, item.duplicate());
                new_items.push(item.duplicate());
                assert(new_items@ =~= new_items@.drop_last() + seq![cands[i as int]]);
            }
            proof {
                assert(ids_of(cands.take(i + 1)) =~= ids_of(cands.take(i as int)).insert(
                    cands[i as int].id,
                )) by {
                    assert forall|id: i64| ids_of(cands.take(i + 1)).contains(id) implies ids_of(
                        cands.take(i as int),
                    ).insert(cands[i as int].id).contains(id) by {
                        let k = choose|k: int|
                            0 <= k < cands.take(i + 1).len() && #[trigger] cands.take(i + 1)[k].id == id;
                        if k < i {
                            assert(cands.take(i as int)[k] == cands[k]);
                        }
                    }
                    assert forall|id: i64| ids_of(cands.take(i as int)).insert(
                        cands[i as int].id,
                    ).contains(id) implies ids_of(cands.take(i + 1)).contains(id) by {
                        if id == cands[i as int].id {
                            assert(cands.take(i + 1)[i as int] == cands[i as int]);
                        } else {
                            let k = choose|k: int|
                                0 <= k < cands.take(i as int).len() && #[trigger] cands.take(
                                    i as int,
                                )[k].id == id;
                            assert(cands.take(i + 1)[k] == cands[k]);
                        }
                    }
                }
            }
            i = i + 1;
        }
        assert(cands.skip(i as int) =~= Seq::<ActorModel>::empty());
        assert(cands.take(i as int) =~= cands);
        assert(new_items@ + Seq::<ActorModel>::empty() =~= new_items@);
        if new_items.len() > 0 {
            Some(SourcesUpdate { items: new_items })
        } else {
            None
        }
    }
}

/// No candidate that `new_sources` returns has a known id.
pub proof fn lemma_new_sources_unknown(known: Set<i64>, cands: Seq<ActorModel>)
    ensures
        forall|k: int|
            0 <= k < new_sources(known, cands).len() ==> !known.contains(
                #[trigger] new_sources(known, cands)[k].id,
            ),
    decreases cands.len(),
{
    if cands.len() > 0 {
        let rest = cands.drop_first();
        if known.contains(cands[0].id) {
            lemma_new_sources_unknown(known, rest);
            assert(new_sources(known, cands) == new_sources(known, rest));
        } else {
            let k2 = known.insert(cands[0].id);
            lemma_new_sources_unknown(k2, rest);
            assert forall|k: int| 0 <= k < new_sources(known, cands).len() implies !known.contains(
                #[trigger] new_sources(known, cands)[k].id,
            ) by {
                assert(new_sources(known, cands) == seq![cands[0]] + new_sources(k2, rest));
                if k > 0 {
                    assert(new_sources(known, cands)[k] == new_sources(k2, rest)[k - 1]);
                    assert(!k2.contains(new_sources(k2, rest)[k - 1].id));
                }
            }
        }
    }
}

/// Feeding an id twice: once a batch has been registered, a later batch
/// never yields a source whose id the earlier batch held.
pub proof fn lemma_fed_twice_not_new_again(
    known: Set<i64>,
    first: Seq<ActorModel>,
    second: Seq<ActorModel>,
)
    ensures
        forall|k: int|
            0 <= k < new_sources(known + ids_of(first), second).len() ==> !ids_of(first).contains(
                #[trigger] new_sources(known + ids_of(first), second)[k].id,
            ),
{
    lemma_new_sources_unknown(known + ids_of(first), second);
}

} // verus!

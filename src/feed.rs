//! The raw feed as the remote endpoint returns it, held as plain values.

use crate::assets::{resolve_spec, AssetRequest, AssetTable};
use vstd::prelude::*;

verus! {

/// One rendition of a picture: its size code and where it can be fetched.
pub struct PhotoSize {
    pub type_: String,
    pub url: Option<String>,
    pub src: Option<String>,
}

/// A picture with its renditions and caption.
pub struct RawPhoto {
    pub sizes: Option<Vec<PhotoSize>>,
    pub text: Option<String>,
}

/// A link attachment.
pub struct RawLink {
    pub url: String,
    pub title: String,
    pub caption: Option<String>,
    pub description: Option<String>,
    pub photo: Option<RawPhoto>,
}

/// One entry of a video's unsorted list of preview images.
pub struct VideoImage {
    pub url: String,
    pub width: u32,
}

/// A video attachment: its size-keyed thumbnails and its preview images.
pub struct RawVideo {
    pub photo_130: Option<String>,
    pub photo_640: Option<String>,
    pub image: Option<Vec<VideoImage>>,
}

/// A picture posted directly, in two sizes.
pub struct PostedPhoto {
    pub photo_130: String,
    pub photo_604: String,
}

/// A document attachment with the renditions of its preview picture.
pub struct RawDoc {
    pub title: String,
    pub preview_sizes: Option<Vec<PhotoSize>>,
}

/// One attachment; each kind present is looked at.
pub struct Attachment {
    pub photo: Option<RawPhoto>,
    pub link: Option<RawLink>,
    pub video: Option<RawVideo>,
    pub posted_photo: Option<PostedPhoto>,
    pub doc: Option<RawDoc>,
}

/// One entry of a repost history.
pub struct HistoryItem {
    pub attachments: Option<Vec<Attachment>>,
}

/// The friends that a "friend" item announces.
pub struct FriendsList {
    pub count: u64,
    pub user_ids: Option<Vec<i64>>,
}

/// One raw feed entry. A positive source id names a person, a negative one
/// the negated id of a group.
pub struct RawItem {
    pub type_: String,
    pub source_id: i64,
    pub date: i64,
    pub text: Option<String>,
    pub attachments: Option<Vec<Attachment>>,
    pub copy_history: Option<Vec<HistoryItem>>,
    pub photos: Option<Vec<RawPhoto>>,
    pub friends: Option<FriendsList>,
}

/// A person that the feed mentions.
pub struct RawProfile {
    pub id: i64,
    pub first_name: String,
    pub last_name: String,
    pub photo_50: Option<String>,
    pub photo_100: Option<String>,
    pub photo_200: Option<String>,
    pub photo_200_orig: Option<String>,
    pub photo_400_orig: Option<String>,
    pub screen_name: Option<String>,
    pub last_seen: Option<i64>,
}

/// A group that the feed mentions.
pub struct RawGroup {
    pub id: i64,
    pub name: String,
    pub screen_name: String,
    pub type_: String,
    pub photo_50: String,
    pub is_member: Option<i64>,
    pub is_advertiser: Option<i64>,
    pub description: Option<String>,
}

/// One page of the feed.
pub struct RawFeed {
    pub items: Option<Vec<RawItem>>,
    pub profiles: Option<Vec<RawProfile>>,
    pub groups: Option<Vec<RawGroup>>,
    pub next_from: Option<String>,
}

/// A list that may be absent, absent read as empty.
pub open spec fn seq_or_empty<T>(o: Option<Vec<T>>) -> Seq<T> {
    match o {
        Some(v) => v@,
        None => Seq::empty(),
    }
}

/// The view of an optional string.
pub open spec fn opt_view(o: Option<String>) -> Option<Seq<char>> {
    match o {
        Some(s) => Some(s@),
        None => None,
    }
}

/// The view of an optional string, absent read as empty.
pub open spec fn or_empty(o: Option<String>) -> Seq<char> {
    match o {
        Some(s) => s@,
        None => Seq::empty(),
    }
}

/// A clone of an optional string.
pub fn clone_opt(o: &Option<String>) -> (r: Option<String>)
    ensures
        opt_view(r) == opt_view(*o),
{
    match o {
        Some(s) => Some(s.clone()),
        None => None,
    }
}

/// An optional string, absent read as empty.
pub fn string_or_empty(o: &Option<String>) -> (r: String)
    ensures
        r@ == or_empty(*o),
{
    match o {
        Some(s) => s.clone(),
        None => String::new(),
    }
}

/// The avatar a person keeps after localization: the local path of its
/// picture, or none when there was none or its fetch failed.
pub open spec fn localized_avatar(t: Seq<(String, Option<String>)>, o: Option<String>) -> Option<
    Seq<char>,
> {
    match o {
        Some(u) => match resolve_spec(t, u@) {
            Some(Some(p)) => Some(p),
            _ => None,
        },
        None => None,
    }
}

/// The avatar a group keeps after localization: the local path of its
/// picture, or empty when its fetch failed.
pub open spec fn localized_group_avatar(t: Seq<(String, Option<String>)>, u: Seq<char>) -> Seq<
    char,
> {
    match resolve_spec(t, u) {
        Some(Some(p)) => p,
        _ => Seq::empty(),
    }
}

/// The avatar URLs of a page, persons first, whose outcome is not known yet.
pub open spec fn unknown_avatar(t: Seq<(String, Option<String>)>, u: Seq<char>) -> bool {
    resolve_spec(t, u) is None
}

/// The avatar of the `i`-th person is known, or there is none.
pub open spec fn profile_avatar_known(t: Seq<(String, Option<String>)>, p: RawProfile) -> bool {
    match p.photo_50 {
        Some(u) => !unknown_avatar(t, u@),
        None => true,
    }
}

/// The outcome of every avatar of the page is known.
pub open spec fn all_avatars_known(t: Seq<(String, Option<String>)>, f: RawFeed) -> bool {
    &&& forall|i: int|
        0 <= i < seq_or_empty(f.profiles).len() ==> profile_avatar_known(
            t,
            #[trigger] seq_or_empty(f.profiles)[i],
        )
    &&& forall|j: int|
        0 <= j < seq_or_empty(f.groups).len() ==> !unknown_avatar(
            t,
            #[trigger] seq_or_empty(f.groups)[j].photo_50@,
        )
}

/// `u` is the avatar URL of a person or a group of the page.
pub open spec fn is_page_avatar(f: RawFeed, u: Seq<char>) -> bool {
    (exists|i: int|
        0 <= i < seq_or_empty(f.profiles).len() && opt_view(
            #[trigger] seq_or_empty(f.profiles)[i].photo_50,
        ) == Some(u)) || (exists|j: int|
        0 <= j < seq_or_empty(f.groups).len() && #[trigger] seq_or_empty(f.groups)[j].photo_50@
            == u)
}

/// The two persons agree on everything but the small avatar.
pub open spec fn same_but_avatar(a: RawProfile, b: RawProfile) -> bool {
    a.id == b.id && a.first_name@ == b.first_name@ && a.last_name@ == b.last_name@ && opt_view(
        a.photo_100,
    ) == opt_view(b.photo_100) && opt_view(a.photo_200) == opt_view(b.photo_200) && opt_view(
        a.photo_200_orig,
    ) == opt_view(b.photo_200_orig) && opt_view(a.photo_400_orig) == opt_view(b.photo_400_orig)
        && opt_view(a.screen_name) == opt_view(b.screen_name) && a.last_seen == b.last_seen
}

/// The two groups agree on everything but the avatar.
pub open spec fn group_same_but_avatar(a: RawGroup, b: RawGroup) -> bool {
    a.id == b.id && a.name@ == b.name@ && a.screen_name@ == b.screen_name@ && a.type_@
        == b.type_@ && a.is_member == b.is_member && a.is_advertiser == b.is_advertiser && opt_view(
        a.description,
    ) == opt_view(b.description)
}

/// A copy of a person with another small avatar.
fn with_avatar(p: &RawProfile, photo_50: Option<String>) -> (r: RawProfile)
    ensures
        same_but_avatar(r, *p),
        r.photo_50 == photo_50,
{
    RawProfile {
        id: p.id,
        first_name: p.first_name.clone(),
        last_name: p.last_name.clone(),
        photo_50,
        photo_100: clone_opt(&p.photo_100),
        photo_200: clone_opt(&p.photo_200),
        photo_200_orig: clone_opt(&p.photo_200_orig),
        photo_400_orig: clone_opt(&p.photo_400_orig),
        screen_name: clone_opt(&p.screen_name),
        last_seen: p.last_seen,
    }
}

/// A copy of a group with another avatar.
fn group_with_avatar(g: &RawGroup, photo_50: String) -> (r: RawGroup)
    ensures
        group_same_but_avatar(r, *g),
        r.photo_50 == photo_50,
{
    RawGroup {
        id: g.id,
        name: g.name.clone(),
        screen_name: g.screen_name.clone(),
        type_: g.type_.clone(),
        photo_50,
        is_member: g.is_member,
        is_advertiser: g.is_advertiser,
        description: clone_opt(&g.description),
    }
}

impl RawFeed {
    /// Substitutes the avatar URLs of the page's persons and groups by the
    /// local paths of their cached files. Where the outcome of some avatar is
    /// not known yet, the page is left as it is and the first such avatar,
    /// persons first, is asked for.
    pub fn localize_avatars(&mut self, table: &AssetTable) -> (r: Result<(), AssetRequest>)
        ensures
            r is Ok <==> all_avatars_known(table.entries(), *old(self)),
            r matches Err(q) ==> unknown_avatar(table.entries(), q.url@) && is_page_avatar(
                *old(self),
                q.url@,
            ) && q.tag@.len() == 0 && *final(self) == *old(self),
            r is Ok ==> {
                let t = table.entries();
                &&& final(self).items == old(self).items
                &&& final(self).next_from == old(self).next_from
                &&& final(self).profiles is Some <==> old(self).profiles is Some
                &&& final(self).groups is Some <==> old(self).groups is Some
                &&& seq_or_empty(final(self).profiles).len() == seq_or_empty(old(self).profiles).len()
                &&& seq_or_empty(final(self).groups).len() == seq_or_empty(old(self).groups).len()
                &&& forall|i: int|
                    0 <= i < seq_or_empty(old(self).profiles).len() ==> same_but_avatar(
                        #[trigger] seq_or_empty(final(self).profiles)[i],
                        seq_or_empty(old(self).profiles)[i],
                    ) && opt_view(seq_or_empty(final(self).profiles)[i].photo_50)
                        == localized_avatar(t, seq_or_empty(old(self).profiles)[i].photo_50)
                &&& forall|j: int|
                    0 <= j < seq_or_empty(old(self).groups).len() ==> group_same_but_avatar(
                        #[trigger] seq_or_empty(final(self).groups)[j],
                        seq_or_empty(old(self).groups)[j],
                    ) && seq_or_empty(final(self).groups)[j].photo_50@ == localized_group_avatar(
                        t,
                        seq_or_empty(old(self).groups)[j].photo_50@,
                    )
            },
    {
        let ghost t = table.entries();
        if let Some(ps) = &self.profiles {
            let mut i: usize = 0;
            while i < ps.len()
                invariant
                    i <= ps@.len(),
                    ps@ == seq_or_empty(self.profiles),
                    t == table.entries(),
                    forall|k: int| 0 <= k < i ==> profile_avatar_known(t, #[trigger] ps@[k]),
                decreases ps@.len() - i,
            {
                if let Some(u) = &ps[i].photo_50 {
                    if table.resolve(u.as_str()).is_none() {
                        assert(opt_view(ps@[i as int].photo_50) == Some(u@));
                        return Err(AssetRequest { url: u.clone(), tag: String::new() });
                    }
                }
                i = i + 1;
            }
        }
        assert(forall|k: int|
            0 <= k < seq_or_empty(self.profiles).len() ==> profile_avatar_known(
                t,
                #[trigger] seq_or_empty(self.profiles)[k],
            ));
        if let Some(gs) = &self.groups {
            let mut j: usize = 0;
            while j < gs.len()
                invariant
                    j <= gs@.len(),
                    gs@ == seq_or_empty(self.groups),
                    t == table.entries(),
                    forall|k: int| 0 <= k < j ==> !unknown_avatar(t, #[trigger] gs@[k].photo_50@),
                decreases gs@.len() - j,
            {
                if table.resolve(gs[j].photo_50.as_str()).is_none() {
                    return Err(AssetRequest { url: gs[j].photo_50.clone(), tag: String::new() });
                }
                j = j + 1;
            }
        }
        assert(all_avatars_known(t, *self));
        let new_profiles: Option<Vec<RawProfile>> = match &self.profiles {
            None => None,
            Some(ps) => {
                let mut out: Vec<RawProfile> = Vec::new();
                let mut i: usize = 0;
                while i < ps.len()
                    invariant
                        i <= ps@.len(),
                        out@.len() == i,
                        t == table.entries(),
                        forall|k: int|
                            0 <= k < i ==> same_but_avatar(#[trigger] out@[k], ps@[k]) && opt_view(
                                out@[k].photo_50,
                            ) == localized_avatar(t, ps@[k].photo_50),
                    decreases ps@.len() - i,
                {
                    let photo: Option<String> = match &ps[i].photo_50 {
                        Some(u) => match table.resolve(u.as_str()) {
                            Some(Some(p)) => Some(p),
                            _ => None,
                        },
                        None => None,
                    };
                    out.push(with_avatar(&ps[i], photo));
                    i = i + 1;
                }
                Some(out)
            },
        };
        let new_groups: Option<Vec<RawGroup>> = match &self.groups {
            None => None,
            Some(gs) => {
                let mut out: Vec<RawGroup> = Vec::new();
                let mut j: usize = 0;
                while j < gs.len()
                    invariant
                        j <= gs@.len(),
                        out@.len() == j,
                        t == table.entries(),
                        forall|k: int|
                            0 <= k < j ==> group_same_but_avatar(#[trigger] out@[k], gs@[k])
                                && out@[k].photo_50@ == localized_group_avatar(t, gs@[k].photo_50@),
                    decreases gs@.len() - j,
                {
                    let photo: String = match table.resolve(gs[j].photo_50.as_str()) {
                        Some(Some(p)) => p,
                        _ => String::new(),
                    };
                    out.push(group_with_avatar(&gs[j], photo));
                    j = j + 1;
                }
                Some(out)
            },
        };
        self.profiles = new_profiles;
        self.groups = new_groups;
        Ok(())
    }
}

} // verus!

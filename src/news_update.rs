//! The item transformer: raw feed entries into display models.
//!
//! Every asset is resolved through an [`AssetTable`]; see [`crate::assets`]
//! for how a walk that meets an unknown asset is resumed.

use crate::assets::{
    cands_view, probe, probe_candidates, resolve_spec, AssetRequest, AssetTable, Walk,
};
use crate::feed::{
    or_empty, seq_or_empty, string_or_empty, Attachment, HistoryItem, PostedPhoto, PhotoSize, RawDoc,
    RawFeed, RawGroup, RawItem, RawLink, RawPhoto, RawProfile, RawVideo, VideoImage,
};
use crate::models::{Link, NewsItemModel, Photo};
use crate::text::{process_text, processed_text};
use vstd::prelude::*;

verus! {

/// A photo entry as values: local path and caption.
pub type PhotoV = (Seq<char>, Seq<char>);

/// The views of photo entries.
pub open spec fn photos_v(v: Seq<Photo>) -> Seq<PhotoV> {
    v.map_values(|p: Photo| (p.uri@, p.text@))
}

proof fn lemma_photos_v_push(v: Seq<Photo>, p: Photo)
    ensures
        photos_v(v.push(p)) == photos_v(v).push((p.uri@, p.text@)),
{
    assert(photos_v(v.push(p)) =~= photos_v(v).push((p.uri@, p.text@)));
}

/// A photo walk of `old` ended as `r` says, leaving `now` behind.
pub open spec fn walked(w: Walk<Seq<PhotoV>>, r: Result<(), AssetRequest>, now: Seq<Photo>) -> bool {
    match r {
        Ok(_) => w == Walk::Done(photos_v(now)),
        Err(q) => w == Walk::<Seq<PhotoV>>::Need(q.url@, q.tag@),
    }
}

/// The rendition size codes, most wanted first.
pub open spec fn prio_codes() -> Seq<Seq<char>> {
    seq!["y"@, "x"@, "r"@, "q"@, "p"@, "o"@, "m"@, "s"@]
}

/// The first rendition with size code `code`.
pub open spec fn first_of_type(sizes: Seq<PhotoSize>, code: Seq<char>) -> Option<PhotoSize>
    decreases sizes.len(),
{
    if sizes.len() == 0 {
        None
    } else if sizes[0].type_@ == code {
        Some(sizes[0])
    } else {
        first_of_type(sizes.drop_first(), code)
    }
}

/// Where a rendition can be fetched: its url, else its src.
pub open spec fn size_source(s: PhotoSize) -> Option<Seq<char>> {
    match s.url {
        Some(u) => Some(u@),
        None => match s.src {
            Some(u) => Some(u@),
            None => None,
        },
    }
}

/// The candidate for one size code: the first rendition of that code, if it
/// says where it can be fetched, tagged with the code.
pub open spec fn code_cand(sizes: Seq<PhotoSize>, code: Seq<char>) -> Seq<(Seq<char>, Seq<char>)> {
    match first_of_type(sizes, code) {
        Some(s) => match size_source(s) {
            Some(u) => seq![(u, code)],
            None => seq![],
        },
        None => seq![],
    }
}

/// The candidates of all given size codes, in order.
pub open spec fn size_cands(sizes: Seq<PhotoSize>, codes: Seq<Seq<char>>) -> Seq<
    (Seq<char>, Seq<char>),
>
    decreases codes.len(),
{
    if codes.len() == 0 {
        seq![]
    } else {
        code_cand(sizes, codes[0]) + size_cands(sizes, codes.drop_first())
    }
}

/// The best rendition of a picture: the first size code in priority order
/// whose rendition is present and can be fetched.
pub open spec fn select_uri(t: Seq<(String, Option<String>)>, sizes: Seq<PhotoSize>) -> Walk<
    Option<Seq<char>>,
> {
    probe(t, size_cands(sizes, prio_codes()))
}

/// A picture's entry: its best rendition with the picture's caption.
pub open spec fn select_photo(t: Seq<(String, Option<String>)>, ph: RawPhoto) -> Walk<
    Option<PhotoV>,
> {
    match ph.sizes {
        None => Walk::Done(None),
        Some(sz) => match select_uri(t, sz@) {
            Walk::Need(u, g) => Walk::Need(u, g),
            Walk::Done(None) => Walk::Done(None),
            Walk::Done(Some(p)) => Walk::Done(Some((p, or_empty(ph.text)))),
        },
    }
}

/// Appends what a walk found, if anything.
pub open spec fn push_found(w: Walk<Option<PhotoV>>, acc: Seq<PhotoV>) -> Walk<Seq<PhotoV>> {
    match w {
        Walk::Need(u, g) => Walk::Need(u, g),
        Walk::Done(None) => Walk::Done(acc),
        Walk::Done(Some(x)) => Walk::Done(acc.push(x)),
    }
}

/// Appends the path a probe found, with an empty caption.
pub open spec fn push_path(w: Walk<Option<Seq<char>>>, acc: Seq<PhotoV>, caption: Seq<char>) -> Walk<
    Seq<PhotoV>,
> {
    match w {
        Walk::Need(u, g) => Walk::Need(u, g),
        Walk::Done(None) => Walk::Done(acc),
        Walk::Done(Some(p)) => Walk::Done(acc.push((p, caption))),
    }
}

/// Index of the first rendition with size code `code`.
fn find_code(sizes: &Vec<PhotoSize>, code: &String) -> (r: Option<usize>)
    ensures
        match r {
            Some(j) => j < sizes@.len() && first_of_type(sizes@, code@) == Some(sizes@[j as int]),
            None => first_of_type(sizes@, code@) is None,
        },
{
    let mut j: usize = 0;
    assert(sizes@.skip(0) =~= sizes@);
    while j < sizes.len()
        invariant
            j <= sizes@.len(),
            first_of_type(sizes@.skip(j as int), code@) == first_of_type(sizes@, code@),
        decreases sizes@.len() - j,
    {
        let ghost rest = sizes@.skip(j as int);
        assert(rest[0] == sizes@[j as int]);
        assert(rest.drop_first() =~= sizes@.skip(j + 1));
        if sizes[j].type_ == *code {
            return Some(j);
        }
        j = j + 1;
    }
    None
}

/// The candidates of all size codes in priority order.
fn size_candidates(sizes: &Vec<PhotoSize>) -> (r: Vec<(String, String)>)
    ensures
        cands_view(r@) == size_cands(sizes@, prio_codes()),
{
    let codes: [&str; 8] = ["y", "x", "r", "q", "p", "o", "m", "s"];
    let ghost all = prio_codes();
    assert(all.len() == 8);
    assert(forall|k: int| 0 <= k < 8 ==> #[trigger] codes@[k]@ == all[k]);
    let mut r: Vec<(String, String)> = Vec::new();
    let mut k: usize = 0;
    assert(all.skip(0) =~= all);
    assert(cands_view(r@) =~= Seq::<(Seq<char>, Seq<char>)>::empty());
    while k < 8
        invariant
            k <= 8,
            all == prio_codes(),
            all.len() == 8,
            forall|k: int| 0 <= k < 8 ==> #[trigger] codes@[k]@ == all[k],
            cands_view(r@) + size_cands(sizes@, all.skip(k as int)) == size_cands(sizes@, all),
        decreases 8 - k,
    {
        let ghost rest = all.skip(k as int);
        assert(rest[0] == all[k as int]);
        assert(rest.drop_first() =~= all.skip(k + 1));
        let code = codes[k].to_owned();
        let ghost before = r@;
        match find_code(sizes, &code) {
            Some(j) => {
                let size = &sizes[j];
                let source: Option<String> = match &size.url {
                    Some(u) => Some(u.clone()),
                    None => match &size.src {
                        Some(u) => Some(u.clone()),
                        None => None,
                    },
                };
                match source {
                    Some(u) => {
                        r.push((u, code));
                        assert(cands_view(r@) =~= cands_view(before) + code_cand(
                            sizes@,
                            all[k as int],
                        ));
                    },
                    None => {
                        assert(cands_view(r@) =~= cands_view(before) + code_cand(
                            sizes@,
                            all[k as int],
                        ));
                    },
                }
            },
            None => {
                assert(cands_view(r@) =~= cands_view(before) + code_cand(sizes@, all[k as int]));
            },
        }
        k = k + 1;
    }
    assert(all.skip(8) =~= Seq::<Seq<char>>::empty());
    assert(cands_view(r@) + Seq::<(Seq<char>, Seq<char>)>::empty() =~= cands_view(r@));
    r
}

/// The best rendition of a picture, as `select_uri` states.
fn select_photo_uri(table: &AssetTable, sizes: &Vec<PhotoSize>) -> (r: Result<
    Option<String>,
    AssetRequest,
>)
    ensures
        match r {
            Ok(o) => select_uri(table.entries(), sizes@) == Walk::Done(
                match o {
                    Some(p) => Some(p@),
                    None => None,
                },
            ),
            Err(q) => select_uri(table.entries(), sizes@) == Walk::<
                Option<Seq<char>>,
            >::Need(q.url@, q.tag@),
        },
{
    let cands = size_candidates(sizes);
    probe_candidates(table, &cands)
}

/// A picture's entry, as `select_photo` states.
fn photo_entry(table: &AssetTable, ph: &RawPhoto) -> (r: Result<Option<Photo>, AssetRequest>)
    ensures
        match r {
            Ok(o) => select_photo(table.entries(), *ph) == Walk::Done(
                match o {
                    Some(p) => Some((p.uri@, p.text@)),
                    None => None,
                },
            ),
            Err(q) => select_photo(table.entries(), *ph) == Walk::<
                Option<PhotoV>,
            >::Need(q.url@, q.tag@),
        },
{
    match &ph.sizes {
        None => Ok(None),
        Some(sizes) => match select_photo_uri(table, sizes) {
            Err(q) => Err(q),
            Ok(None) => Ok(None),
            Ok(Some(uri)) => Ok(Some(Photo { uri, text: string_or_empty(&ph.text) })),
        },
    }
}

/// Appends a picture's entry when it has one.
fn append_photo(acc: &mut Vec<Photo>, table: &AssetTable, ph: &RawPhoto) -> (r: Result<
    (),
    AssetRequest,
>)
    ensures
        walked(push_found(select_photo(table.entries(), *ph), photos_v(old(acc)@)), r, final(acc)@),
{
    match photo_entry(table, ph) {
        Err(q) => Err(q),
        Ok(None) => Ok(()),
        Ok(Some(p)) => {
            proof {
                lemma_photos_v_push(acc@, p);
            }
            acc.push(p);
            Ok(())
        },
    }
}

/// Appends the path of the first candidate that resolves, with the caption.
fn append_probed(
    acc: &mut Vec<Photo>,
    table: &AssetTable,
    cands: &Vec<(String, String)>,
    caption: String,
) -> (r: Result<bool, AssetRequest>)
    ensures
        match r {
            Ok(found) => push_path(
                probe(table.entries(), cands_view(cands@)),
                photos_v(old(acc)@),
                caption@,
            ) == Walk::Done(photos_v(final(acc)@)) && (found <==> probe(
                table.entries(),
                cands_view(cands@),
            ) matches Walk::Done(Some(_))),
            Err(q) => push_path(
                probe(table.entries(), cands_view(cands@)),
                photos_v(old(acc)@),
                caption@,
            ) == Walk::<Seq<PhotoV>>::Need(q.url@, q.tag@),
        },
{
    match probe_candidates(table, cands) {
        Err(q) => Err(q),
        Ok(None) => Ok(false),
        Ok(Some(uri)) => {
            let p = Photo { uri, text: caption };
            proof {
                lemma_photos_v_push(acc@, p);
            }
            acc.push(p);
            Ok(true)
        },
    }
}

/// The caption of a link's picture: the picture's own caption, else the
/// link's non-empty description, else its title.
pub open spec fn link_caption(l: RawLink, text: Seq<char>) -> Seq<char> {
    if text.len() > 0 {
        text
    } else {
        match l.description {
            Some(d) => if d@.len() > 0 {
                d@
            } else {
                l.title@
            },
            None => l.title@,
        }
    }
}

/// Appends the picture of a link, if it has one that resolves.
pub open spec fn from_link(t: Seq<(String, Option<String>)>, acc: Seq<PhotoV>, l: RawLink) -> Walk<
    Seq<PhotoV>,
> {
    match l.photo {
        None => Walk::Done(acc),
        Some(ph) => match select_photo(t, ph) {
            Walk::Need(u, g) => Walk::Need(u, g),
            Walk::Done(None) => Walk::Done(acc),
            Walk::Done(Some(x)) => Walk::Done(acc.push((x.0, link_caption(l, x.1)))),
        },
    }
}

/// How many photo slots get the larger video thumbnail.
pub const LARGE_VIDEO_SLOTS: usize = 2;

/// How many photo slots get the larger posted-photo rendition.
pub const LARGE_POSTED_SLOTS: usize = 3;

/// The width ceiling for a video preview image.
pub const VIDEO_WIDTH_CEILING: u32 = 832;

/// A one-element candidate list when the URL is present.
pub open spec fn opt_cand(u: Option<String>, tag: Seq<char>) -> Seq<(Seq<char>, Seq<char>)> {
    match u {
        Some(x) => seq![(x@, tag)],
        None => seq![],
    }
}

/// The size-keyed thumbnail of a video: the larger one while fewer than
/// `LARGE_VIDEO_SLOTS` photos are taken, the smaller one after.
pub open spec fn thumb_cands(v: RawVideo, taken: nat) -> Seq<(Seq<char>, Seq<char>)> {
    if taken < LARGE_VIDEO_SLOTS {
        opt_cand(v.photo_640, "vx"@)
    } else {
        opt_cand(v.photo_130, "vp"@)
    }
}

/// Scanning preview images left to right: the index of the first image of
/// greatest width among those strictly narrower than the ceiling, or none
/// when no image is narrower than the ceiling.
pub open spec fn best_image(imgs: Seq<VideoImage>) -> Option<int>
    decreases imgs.len(),
{
    if imgs.len() == 0 {
        None
    } else {
        let b = best_image(imgs.drop_last());
        let x = imgs.last().width;
        if x < VIDEO_WIDTH_CEILING && match b {
            None => true,
            Some(i) => x > imgs[i].width,
        } {
            Some(imgs.len() - 1)
        } else {
            b
        }
    }
}

/// `best_image` picks the first of the widest images under the ceiling, and
/// nothing only when every image reaches the ceiling.
pub proof fn lemma_best_image(imgs: Seq<VideoImage>)
    ensures
        match best_image(imgs) {
            Some(i) => 0 <= i < imgs.len() && imgs[i].width < VIDEO_WIDTH_CEILING && (forall|k: int|
                0 <= k < imgs.len() && #[trigger] imgs[k].width < VIDEO_WIDTH_CEILING ==> imgs[k].width
                    <= imgs[i].width) && (forall|k: int|
                0 <= k < i && #[trigger] imgs[k].width < VIDEO_WIDTH_CEILING ==> imgs[k].width
                    < imgs[i].width),
            None => forall|k: int| 0 <= k < imgs.len() ==> #[trigger] imgs[k].width >= VIDEO_WIDTH_CEILING,
        },
    decreases imgs.len(),
{
    if imgs.len() > 0 {
        let p = imgs.drop_last();
        let n = imgs.len() - 1;
        lemma_best_image(p);
        assert forall|k: int| 0 <= k < p.len() implies #[trigger] p[k] == imgs[k] by {}
        let x = imgs[n].width;
        match best_image(p) {
            None => {
                assert forall|k: int| 0 <= k < n implies #[trigger] imgs[k].width
                    >= VIDEO_WIDTH_CEILING by {
                    assert(p[k].width >= VIDEO_WIDTH_CEILING);
                }
            },
            Some(b) => {
                assert(p[b] == imgs[b]);
                assert forall|k: int|
                    0 <= k < n && #[trigger] imgs[k].width < VIDEO_WIDTH_CEILING implies imgs[k].width
                    <= imgs[b].width by {
                    assert(p[k].width < VIDEO_WIDTH_CEILING);
                }
                assert forall|k: int|
                    0 <= k < b && #[trigger] imgs[k].width < VIDEO_WIDTH_CEILING implies imgs[k].width
                    < imgs[b].width by {
                    assert(p[k].width < VIDEO_WIDTH_CEILING);
                }
            },
        }
    }
}

/// The preview image of a video to fall back on.
pub open spec fn fallback_cands(v: RawVideo) -> Seq<(Seq<char>, Seq<char>)> {
    match v.image {
        Some(imgs) => match best_image(imgs@) {
            Some(b) => seq![(imgs@[b].url@, "v"@)],
            None => seq![],
        },
        None => seq![],
    }
}

/// Appends a video's thumbnail: the size-keyed one, else the fallback.
pub open spec fn from_video(t: Seq<(String, Option<String>)>, acc: Seq<PhotoV>, v: RawVideo) -> Walk<
    Seq<PhotoV>,
> {
    match probe(t, thumb_cands(v, acc.len())) {
        Walk::Need(u, g) => Walk::Need(u, g),
        Walk::Done(Some(p)) => Walk::Done(acc.push((p, Seq::empty()))),
        Walk::Done(None) => push_path(probe(t, fallback_cands(v)), acc, Seq::empty()),
    }
}

/// The rendition of a posted photo: the larger one while fewer than
/// `LARGE_POSTED_SLOTS` photos are taken, the smaller one after.
pub open spec fn posted_cands(pp: PostedPhoto, taken: nat) -> Seq<(Seq<char>, Seq<char>)> {
    if taken < LARGE_POSTED_SLOTS {
        seq![(pp.photo_604@, "ppx"@)]
    } else {
        seq![(pp.photo_130@, "ppp"@)]
    }
}

/// Appends a posted photo.
pub open spec fn from_posted(t: Seq<(String, Option<String>)>, acc: Seq<PhotoV>, pp: PostedPhoto) -> Walk<
    Seq<PhotoV>,
> {
    push_path(probe(t, posted_cands(pp, acc.len())), acc, Seq::empty())
}

/// Appends a document's preview, captioned with its processed title.
pub open spec fn from_doc(t: Seq<(String, Option<String>)>, acc: Seq<PhotoV>, d: RawDoc) -> Walk<
    Seq<PhotoV>,
> {
    match d.preview_sizes {
        None => Walk::Done(acc),
        Some(sz) => push_path(select_uri(t, sz@), acc, processed_text(d.title@)),
    }
}

/// Continues a walk with `k` once it is done.
pub open spec fn and_then(w: Walk<Seq<PhotoV>>, k: spec_fn(Seq<PhotoV>) -> Walk<Seq<PhotoV>>) -> Walk<
    Seq<PhotoV>,
> {
    match w {
        Walk::Need(u, g) => Walk::Need(u, g),
        Walk::Done(a) => k(a),
    }
}

/// The photo of an attachment.
pub open spec fn step_photo(t: Seq<(String, Option<String>)>, acc: Seq<PhotoV>, a: Attachment) -> Walk<
    Seq<PhotoV>,
> {
    match a.photo {
        Some(ph) => push_found(select_photo(t, ph), acc),
        None => Walk::Done(acc),
    }
}

/// The link of an attachment.
pub open spec fn step_link(t: Seq<(String, Option<String>)>, acc: Seq<PhotoV>, a: Attachment) -> Walk<
    Seq<PhotoV>,
> {
    match a.link {
        Some(l) => from_link(t, acc, l),
        None => Walk::Done(acc),
    }
}

/// The video of an attachment.
pub open spec fn step_video(t: Seq<(String, Option<String>)>, acc: Seq<PhotoV>, a: Attachment) -> Walk<
    Seq<PhotoV>,
> {
    match a.video {
        Some(v) => from_video(t, acc, v),
        None => Walk::Done(acc),
    }
}

/// The posted photo of an attachment.
pub open spec fn step_posted(t: Seq<(String, Option<String>)>, acc: Seq<PhotoV>, a: Attachment) -> Walk<
    Seq<PhotoV>,
> {
    match a.posted_photo {
        Some(pp) => from_posted(t, acc, pp),
        None => Walk::Done(acc),
    }
}

/// The document of an attachment, where documents count.
pub open spec fn step_doc(
    t: Seq<(String, Option<String>)>,
    acc: Seq<PhotoV>,
    a: Attachment,
    with_doc: bool,
) -> Walk<Seq<PhotoV>> {
    if with_doc {
        match a.doc {
            Some(d) => from_doc(t, acc, d),
            None => Walk::Done(acc),
        }
    } else {
        Walk::Done(acc)
    }
}

/// The pictures of one attachment, in order: photo, link, video, posted
/// photo, then (where documents count) document.
pub open spec fn from_attachment(
    t: Seq<(String, Option<String>)>,
    acc: Seq<PhotoV>,
    a: Attachment,
    with_doc: bool,
) -> Walk<Seq<PhotoV>> {
    and_then(
        and_then(
            and_then(
                and_then(step_photo(t, acc, a), |a1: Seq<PhotoV>| step_link(t, a1, a)),
                |a2: Seq<PhotoV>| step_video(t, a2, a),
            ),
            |a3: Seq<PhotoV>| step_posted(t, a3, a),
        ),
        |a4: Seq<PhotoV>| step_doc(t, a4, a, with_doc),
    )
}

/// Appends the picture of a link.
fn append_from_link(acc: &mut Vec<Photo>, table: &AssetTable, link: &RawLink) -> (r: Result<
    (),
    AssetRequest,
>)
    ensures
        walked(from_link(table.entries(), photos_v(old(acc)@), *link), r, final(acc)@),
{
    match &link.photo {
        None => Ok(()),
        Some(ph) => match photo_entry(table, ph) {
            Err(q) => Err(q),
            Ok(None) => Ok(()),
            Ok(Some(p)) => {
                let text = if p.text.as_str().is_empty() {
                    match &link.description {
                        Some(d) => if d.as_str().is_empty() {
                            link.title.clone()
                        } else {
                            d.clone()
                        },
                        None => link.title.clone(),
                    }
                } else {
                    p.text
                };
                let entry = Photo { uri: p.uri, text };
                proof {
                    lemma_photos_v_push(acc@, entry);
                }
                acc.push(entry);
                Ok(())
            },
        },
    }
}

/// A one-element candidate list when the URL is present.
fn opt_candidate(u: &Option<String>, tag: &str) -> (r: Vec<(String, String)>)
    ensures
        cands_view(r@) == opt_cand(*u, tag@),
{
    let mut r: Vec<(String, String)> = Vec::new();
    match u {
        Some(x) => {
            r.push((x.clone(), tag.to_owned()));
        },
        None => {},
    }
    assert(cands_view(r@) =~= opt_cand(*u, tag@));
    r
}

/// The index of the preview image to fall back on, as `best_image` states.
fn best_image_index(imgs: &Vec<VideoImage>) -> (r: Option<usize>)
    ensures
        match r {
            Some(b) => best_image(imgs@) == Some(b as int) && b < imgs@.len(),
            None => best_image(imgs@) is None,
        },
{
    let mut best: Option<usize> = None;
    let mut wid_best: u32 = 0;
    let mut i: usize = 0;
    while i < imgs.len()
        invariant
            i <= imgs@.len(),
            match best {
                Some(b) => best_image(imgs@.take(i as int)) == Some(b as int) && b < i
                    && wid_best == imgs@[b as int].width,
                None => best_image(imgs@.take(i as int)) is None,
            },
        decreases imgs@.len() - i,
    {
        let ghost t = imgs@.take(i + 1);
        assert(t.drop_last() =~= imgs@.take(i as int));
        assert(t.last() == imgs@[i as int]);
        if let Some(b) = best {
            assert(t[b as int] == imgs@[b as int]);
        }
        let w = imgs[i].width;
        let better = match best {
            None => true,
            Some(_) => w > wid_best,
        };
        if w < VIDEO_WIDTH_CEILING && better {
            best = Some(i);
            wid_best = w;
        }
        i = i + 1;
    }
    assert(imgs@.take(i as int) =~= imgs@);
    best
}

/// Appends a video's thumbnail.
fn append_from_video(acc: &mut Vec<Photo>, table: &AssetTable, video: &RawVideo) -> (r: Result<
    (),
    AssetRequest,
>)
    ensures
        walked(from_video(table.entries(), photos_v(old(acc)@), *video), r, final(acc)@),
{
    let thumb = if acc.len() < LARGE_VIDEO_SLOTS {
        opt_candidate(&video.photo_640, "vx")
    } else {
        opt_candidate(&video.photo_130, "vp")
    };
    assert(photos_v(acc@).len() == acc@.len());
    let found = match append_probed(acc, table, &thumb, String::new()) {
        Err(q) => {
            return Err(q);
        },
        Ok(found) => found,
    };
    if found {
        return Ok(());
    }
    let ghost mid = acc@;
    assert(photos_v(mid) == photos_v(old(acc)@));
    let fallback: Vec<(String, String)> = match &video.image {
        Some(imgs) => match best_image_index(imgs) {
            Some(best) => {
                let mut c: Vec<(String, String)> = Vec::new();
                c.push((imgs[best].url.clone(), "v".to_owned()));
                assert(cands_view(c@) =~= fallback_cands(*video));
                c
            },
            None => {
                let c: Vec<(String, String)> = Vec::new();
                assert(cands_view(c@) =~= fallback_cands(*video));
                c
            },
        },
        None => {
            let c: Vec<(String, String)> = Vec::new();
            assert(cands_view(c@) =~= fallback_cands(*video));
            c
        },
    };
    match append_probed(acc, table, &fallback, String::new()) {
        Err(q) => Err(q),
        Ok(_) => Ok(()),
    }
}

/// Appends a posted photo.
fn append_from_posted_photo(acc: &mut Vec<Photo>, table: &AssetTable, pp: &PostedPhoto) -> (r:
    Result<(), AssetRequest>)
    ensures
        walked(from_posted(table.entries(), photos_v(old(acc)@), *pp), r, final(acc)@),
{
    let mut c: Vec<(String, String)> = Vec::new();
    if acc.len() < LARGE_POSTED_SLOTS {
        c.push((pp.photo_604.clone(), "ppx".to_owned()));
    } else {
        c.push((pp.photo_130.clone(), "ppp".to_owned()));
    }
    assert(cands_view(c@) =~= posted_cands(*pp, photos_v(acc@).len()));
    match append_probed(acc, table, &c, String::new()) {
        Err(q) => Err(q),
        Ok(_) => Ok(()),
    }
}

/// Appends a document's preview.
fn append_from_doc(acc: &mut Vec<Photo>, table: &AssetTable, doc: &RawDoc) -> (r: Result<
    (),
    AssetRequest,
>)
    ensures
        walked(from_doc(table.entries(), photos_v(old(acc)@), *doc), r, final(acc)@),
{
    match &doc.preview_sizes {
        None => Ok(()),
        Some(sizes) => {
            let cands = size_candidates(sizes);
            let caption = process_text(doc.title.as_str());
            match append_probed(acc, table, &cands, caption) {
                Err(q) => Err(q),
                Ok(_) => Ok(()),
            }
        },
    }
}

/// Appends the pictures of one attachment, as `from_attachment` states.
fn append_from_attachment(
    acc: &mut Vec<Photo>,
    table: &AssetTable,
    a: &Attachment,
    with_doc: bool,
) -> (r: Result<(), AssetRequest>)
    ensures
        walked(
            from_attachment(table.entries(), photos_v(old(acc)@), *a, with_doc),
            r,
            final(acc)@,
        ),
{
    let ghost t = table.entries();
    let ghost a0 = photos_v(acc@);
    if let Some(ph) = &a.photo {
        if let Err(q) = append_photo(acc, table, ph) {
            return Err(q);
        }
    }
    let ghost a1 = photos_v(acc@);
    assert(step_photo(t, a0, *a) == Walk::Done(a1));
    if let Some(l) = &a.link {
        if let Err(q) = append_from_link(acc, table, l) {
            return Err(q);
        }
    }
    let ghost a2 = photos_v(acc@);
    assert(step_link(t, a1, *a) == Walk::Done(a2));
    if let Some(v) = &a.video {
        if let Err(q) = append_from_video(acc, table, v) {
            return Err(q);
        }
    }
    let ghost a3 = photos_v(acc@);
    assert(step_video(t, a2, *a) == Walk::Done(a3));
    if let Some(pp) = &a.posted_photo {
        if let Err(q) = append_from_posted_photo(acc, table, pp) {
            return Err(q);
        }
    }
    let ghost a4 = photos_v(acc@);
    assert(step_posted(t, a3, *a) == Walk::Done(a4));
    if with_doc {
        if let Some(d) = &a.doc {
            if let Err(q) = append_from_doc(acc, table, d) {
                return Err(q);
            }
        }
    }
    Ok(())
}

/// The pictures of a list of attachments, in order.
pub open spec fn atts_walk(
    t: Seq<(String, Option<String>)>,
    acc: Seq<PhotoV>,
    atts: Seq<Attachment>,
    with_doc: bool,
) -> Walk<Seq<PhotoV>>
    decreases atts.len(),
{
    if atts.len() == 0 {
        Walk::Done(acc)
    } else {
        match from_attachment(t, acc, atts[0], with_doc) {
            Walk::Need(u, g) => Walk::Need(u, g),
            Walk::Done(a1) => atts_walk(t, a1, atts.drop_first(), with_doc),
        }
    }
}

/// The pictures of a repost history, entry by entry; documents do not count.
pub open spec fn history_walk(
    t: Seq<(String, Option<String>)>,
    acc: Seq<PhotoV>,
    hs: Seq<HistoryItem>,
) -> Walk<Seq<PhotoV>>
    decreases hs.len(),
{
    if hs.len() == 0 {
        Walk::Done(acc)
    } else {
        let w = match hs[0].attachments {
            Some(a) => atts_walk(t, acc, a@, false),
            None => Walk::Done(acc),
        };
        match w {
            Walk::Need(u, g) => Walk::Need(u, g),
            Walk::Done(a1) => history_walk(t, a1, hs.drop_first()),
        }
    }
}

/// The pictures of an item's own photo set.
pub open spec fn photoset_walk(t: Seq<(String, Option<String>)>, acc: Seq<PhotoV>, ps: Seq<RawPhoto>) -> Walk<
    Seq<PhotoV>,
>
    decreases ps.len(),
{
    if ps.len() == 0 {
        Walk::Done(acc)
    } else {
        match push_found(select_photo(t, ps[0]), acc) {
            Walk::Need(u, g) => Walk::Need(u, g),
            Walk::Done(a1) => photoset_walk(t, a1, ps.drop_first()),
        }
    }
}

/// Type tags of the feed.
pub const NEWS_TYPE_POST: &'static str = "post";
pub const NEWS_TYPE_PHOTO: &'static str = "photo";
pub const NEWS_TYPE_PHOTO_TAG: &'static str = "photo_tag";
pub const NEWS_TYPE_WALL_PHOTO: &'static str = "wall_photo";
pub const NEWS_TYPE_FRIEND: &'static str = "friend";

/// The item's tag names a photo item.
pub open spec fn is_photo_type(ty: Seq<char>) -> bool {
    ty == NEWS_TYPE_PHOTO@ || ty == NEWS_TYPE_PHOTO_TAG@ || ty == NEWS_TYPE_WALL_PHOTO@
}

/// The pictures of an item: its photo set (photo items) or its repost
/// history (posts), then its own attachments.
pub open spec fn extract_photos(t: Seq<(String, Option<String>)>, item: RawItem) -> Walk<
    Seq<PhotoV>,
> {
    let w = if is_photo_type(item.type_@) {
        photoset_walk(t, Seq::empty(), seq_or_empty(item.photos))
    } else if item.type_@ == NEWS_TYPE_POST@ {
        history_walk(t, Seq::empty(), seq_or_empty(item.copy_history))
    } else {
        Walk::Done(Seq::empty())
    };
    and_then(w, |a1: Seq<PhotoV>| atts_walk(t, a1, seq_or_empty(item.attachments), true))
}

/// Appends the pictures of a list of attachments.
fn append_from_attachments(
    acc: &mut Vec<Photo>,
    table: &AssetTable,
    atts: &Vec<Attachment>,
    with_doc: bool,
) -> (r: Result<(), AssetRequest>)
    ensures
        walked(atts_walk(table.entries(), photos_v(old(acc)@), atts@, with_doc), r, final(acc)@),
{
    let ghost t = table.entries();
    let ghost goal = atts_walk(t, photos_v(acc@), atts@, with_doc);
    let mut i: usize = 0;
    assert(atts@.skip(0) =~= atts@);
    while i < atts.len()
        invariant
            i <= atts@.len(),
            t == table.entries(),
            atts_walk(t, photos_v(acc@), atts@.skip(i as int), with_doc) == goal,
            goal == atts_walk(t, photos_v(old(acc)@), atts@, with_doc),
        decreases atts@.len() - i,
    {
        let ghost rest = atts@.skip(i as int);
        assert(rest[0] == atts@[i as int]);
        assert(rest.drop_first() =~= atts@.skip(i + 1));
        if let Err(q) = append_from_attachment(acc, table, &atts[i], with_doc) {
            return Err(q);
        }
        i = i + 1;
    }
    assert(atts@.skip(i as int) =~= Seq::<Attachment>::empty());
    Ok(())
}

/// Appends the pictures of a repost history.
fn append_from_history(acc: &mut Vec<Photo>, table: &AssetTable, hs: &Vec<HistoryItem>) -> (r:
    Result<(), AssetRequest>)
    ensures
        walked(history_walk(table.entries(), photos_v(old(acc)@), hs@), r, final(acc)@),
{
    let ghost t = table.entries();
    let ghost goal = history_walk(t, photos_v(acc@), hs@);
    let mut i: usize = 0;
    assert(hs@.skip(0) =~= hs@);
    while i < hs.len()
        invariant
            i <= hs@.len(),
            t == table.entries(),
            history_walk(t, photos_v(acc@), hs@.skip(i as int)) == goal,
            goal == history_walk(t, photos_v(old(acc)@), hs@),
        decreases hs@.len() - i,
    {
        let ghost rest = hs@.skip(i as int);
        assert(rest[0] == hs@[i as int]);
        assert(rest.drop_first() =~= hs@.skip(i + 1));
        if let Some(atts) = &hs[i].attachments {
            if let Err(q) = append_from_attachments(acc, table, atts, false) {
                return Err(q);
            }
        }
        i = i + 1;
    }
    assert(hs@.skip(i as int) =~= Seq::<HistoryItem>::empty());
    Ok(())
}

/// Appends the pictures of a photo set.
fn append_from_photoset(acc: &mut Vec<Photo>, table: &AssetTable, ps: &Vec<RawPhoto>) -> (r:
    Result<(), AssetRequest>)
    ensures
        walked(photoset_walk(table.entries(), photos_v(old(acc)@), ps@), r, final(acc)@),
{
    let ghost t = table.entries();
    let ghost goal = photoset_walk(t, photos_v(acc@), ps@);
    let mut i: usize = 0;
    assert(ps@.skip(0) =~= ps@);
    while i < ps.len()
        invariant
            i <= ps@.len(),
            t == table.entries(),
            photoset_walk(t, photos_v(acc@), ps@.skip(i as int)) == goal,
            goal == photoset_walk(t, photos_v(old(acc)@), ps@),
        decreases ps@.len() - i,
    {
        let ghost rest = ps@.skip(i as int);
        assert(rest[0] == ps@[i as int]);
        assert(rest.drop_first() =~= ps@.skip(i + 1));
        if let Err(q) = append_photo(acc, table, &ps[i]) {
            return Err(q);
        }
        i = i + 1;
    }
    assert(ps@.skip(i as int) =~= Seq::<RawPhoto>::empty());
    Ok(())
}

/// String equality with a literal.
fn is_tag(s: &String, tag: &str) -> (r: bool)
    ensures
        r == (s@ == tag@),
{
    *s == tag.to_owned()
}

/// The pictures of an item, as `extract_photos` states.
fn photos_of(table: &AssetTable, item: &RawItem) -> (r: Result<Vec<Photo>, AssetRequest>)
    ensures
        match r {
            Ok(v) => extract_photos(table.entries(), *item) == Walk::Done(photos_v(v@)),
            Err(q) => extract_photos(table.entries(), *item) == Walk::<Seq<PhotoV>>::Need(
                q.url@,
                q.tag@,
            ),
        },
{
    let mut acc: Vec<Photo> = Vec::new();
    assert(photos_v(acc@) =~= Seq::<PhotoV>::empty());
    let ty = &item.type_;
    if is_tag(ty, NEWS_TYPE_PHOTO) || is_tag(ty, NEWS_TYPE_PHOTO_TAG) || is_tag(
        ty,
        NEWS_TYPE_WALL_PHOTO,
    ) {
        if let Some(ps) = &item.photos {
            if let Err(q) = append_from_photoset(&mut acc, table, ps) {
                return Err(q);
            }
        }
    } else if is_tag(ty, NEWS_TYPE_POST) {
        if let Some(hs) = &item.copy_history {
            if let Err(q) = append_from_history(&mut acc, table, hs) {
                return Err(q);
            }
        }
    }
    if let Some(atts) = &item.attachments {
        if let Err(q) = append_from_attachments(&mut acc, table, atts, true) {
            return Err(q);
        }
    }
    Ok(acc)
}

/// A link entry as values: target and caption.
pub type LinkV = (Seq<char>, Seq<char>);

/// The views of link entries.
pub open spec fn links_v(v: Seq<Link>) -> Seq<LinkV> {
    v.map_values(|l: Link| (l.uri@, l.text@))
}

/// A link's caption: its description, else its non-empty title, else its
/// caption field, else empty.
pub open spec fn link_text(l: RawLink) -> Seq<char> {
    match l.description {
        Some(d) => d@,
        None => if l.title@.len() > 0 {
            l.title@
        } else {
            or_empty(l.caption)
        },
    }
}

/// The entry of a link attachment; a link with an empty URL gives none.
pub open spec fn link_entry(l: RawLink) -> Seq<LinkV> {
    if l.url@.len() == 0 {
        seq![]
    } else {
        seq![(l.url@, link_text(l))]
    }
}

/// The link entry of one attachment.
pub open spec fn att_links(a: Attachment) -> Seq<LinkV> {
    match a.link {
        Some(l) => link_entry(l),
        None => seq![],
    }
}

/// The link entries of a list of attachments.
pub open spec fn atts_links(atts: Seq<Attachment>) -> Seq<LinkV>
    decreases atts.len(),
{
    if atts.len() == 0 {
        seq![]
    } else {
        att_links(atts[0]) + atts_links(atts.drop_first())
    }
}

/// The link entries of a repost history.
pub open spec fn history_links(hs: Seq<HistoryItem>) -> Seq<LinkV>
    decreases hs.len(),
{
    if hs.len() == 0 {
        seq![]
    } else {
        atts_links(seq_or_empty(hs[0].attachments)) + history_links(hs.drop_first())
    }
}

/// The link entries of an item: its repost history's (posts), then its own.
pub open spec fn extract_links(item: RawItem) -> Seq<LinkV> {
    (if item.type_@ == NEWS_TYPE_POST@ {
        history_links(seq_or_empty(item.copy_history))
    } else {
        seq![]
    }) + atts_links(seq_or_empty(item.attachments))
}

proof fn lemma_links_v_push(v: Seq<Link>, l: Link)
    ensures
        links_v(v.push(l)) == links_v(v).push((l.uri@, l.text@)),
{
    assert(links_v(v.push(l)) =~= links_v(v).push((l.uri@, l.text@)));
}

/// Appends the entry of a link attachment.
fn append_link_model(acc: &mut Vec<Link>, link: &RawLink)
    ensures
        links_v(final(acc)@) == links_v(old(acc)@) + link_entry(*link),
{
    if link.url.as_str().is_empty() {
        assert(links_v(acc@) + link_entry(*link) =~= links_v(acc@));
        return ;
    }
    let uri = link.url.clone();
    let text = match &link.description {
        Some(d) => d.clone(),
        None => if !link.title.as_str().is_empty() {
            link.title.clone()
        } else {
            string_or_empty(&link.caption)
        },
    };
    let entry = Link { uri, text };
    proof {
        lemma_links_v_push(acc@, entry);
    }
    acc.push(entry);
    assert(links_v(acc@) =~= links_v(old(acc)@) + link_entry(*link));
}

/// Appends the link entries of a list of attachments.
fn append_links(acc: &mut Vec<Link>, atts: &Vec<Attachment>)
    ensures
        links_v(final(acc)@) == links_v(old(acc)@) + atts_links(atts@),
{
    let mut i: usize = 0;
    assert(atts@.skip(0) =~= atts@);
    while i < atts.len()
        invariant
            i <= atts@.len(),
            links_v(acc@) + atts_links(atts@.skip(i as int)) == links_v(old(acc)@) + atts_links(
                atts@,
            ),
        decreases atts@.len() - i,
    {
        let ghost rest = atts@.skip(i as int);
        let ghost before = links_v(acc@);
        assert(rest[0] == atts@[i as int]);
        assert(rest.drop_first() =~= atts@.skip(i + 1));
        if let Some(l) = &atts[i].link {
            append_link_model(acc, l);
        }
        assert(links_v(acc@) =~= before + att_links(rest[0]));
        assert(before + atts_links(rest) =~= links_v(acc@) + atts_links(atts@.skip(i + 1)));
        i = i + 1;
    }
    assert(atts@.skip(i as int) =~= Seq::<Attachment>::empty());
    assert(links_v(acc@) + Seq::<LinkV>::empty() =~= links_v(acc@));
}

/// The link entries of an item, as `extract_links` states.
fn links_of(item: &RawItem) -> (r: Vec<Link>)
    ensures
        links_v(r@) == extract_links(*item),
{
    let mut acc: Vec<Link> = Vec::new();
    assert(links_v(acc@) =~= Seq::<LinkV>::empty());
    if is_tag(&item.type_, NEWS_TYPE_POST) {
        if let Some(hs) = &item.copy_history {
            let mut i: usize = 0;
            assert(hs@.skip(0) =~= hs@);
            while i < hs.len()
                invariant
                    i <= hs@.len(),
                    links_v(acc@) + history_links(hs@.skip(i as int)) == history_links(hs@),
                decreases hs@.len() - i,
            {
                let ghost rest = hs@.skip(i as int);
                let ghost before = links_v(acc@);
                assert(rest[0] == hs@[i as int]);
                assert(rest.drop_first() =~= hs@.skip(i + 1));
                if let Some(atts) = &hs[i].attachments {
                    append_links(&mut acc, atts);
                } else {
                    assert(atts_links(seq_or_empty(rest[0].attachments)) =~= Seq::<LinkV>::empty());
                }
                assert(before + history_links(rest) =~= links_v(acc@) + history_links(
                    hs@.skip(i + 1),
                ));
                i = i + 1;
            }
            assert(hs@.skip(i as int) =~= Seq::<HistoryItem>::empty());
            assert(links_v(acc@) + Seq::<LinkV>::empty() =~= links_v(acc@));
        } else {
            assert(history_links(seq_or_empty(item.copy_history)) =~= Seq::<LinkV>::empty());
        }
    }
    let ghost mid = links_v(acc@);
    if let Some(atts) = &item.attachments {
        append_links(&mut acc, atts);
    } else {
        assert(atts_links(seq_or_empty(item.attachments)) =~= Seq::<LinkV>::empty());
        assert(links_v(acc@) =~= mid + Seq::<LinkV>::empty());
    }
    assert(links_v(acc@) =~= extract_links(*item));
    acc
}

/// The first profile with id `id`.
pub open spec fn find_profile(ps: Seq<RawProfile>, id: i64) -> Option<RawProfile>
    decreases ps.len(),
{
    if ps.len() == 0 {
        None
    } else if ps[0].id == id {
        Some(ps[0])
    } else {
        find_profile(ps.drop_first(), id)
    }
}

/// The first group with id `id`.
pub open spec fn find_group(gs: Seq<RawGroup>, id: i64) -> Option<RawGroup>
    decreases gs.len(),
{
    if gs.len() == 0 {
        None
    } else if gs[0].id == id {
        Some(gs[0])
    } else {
        find_group(gs.drop_first(), id)
    }
}

/// A person's full name: first name, a space, last name.
pub open spec fn full_name(p: RawProfile) -> Seq<char> {
    p.first_name@ + seq![' '] + p.last_name@
}

/// A person's largest picture: the first present of the 400, 200 original,
/// 200, 100 and 50 renditions, else empty.
pub open spec fn max_photo(p: RawProfile) -> Seq<char> {
    match p.photo_400_orig {
        Some(x) => x@,
        None => match p.photo_200_orig {
            Some(x) => x@,
            None => match p.photo_200 {
                Some(x) => x@,
                None => match p.photo_100 {
                    Some(x) => x@,
                    None => or_empty(p.photo_50),
                },
            },
        },
    }
}

/// The author of an item and its avatar path: the person with the source
/// id when it is positive, else the group with the negated id; empty when
/// not found. Avatars were localized when the page was fetched.
pub open spec fn author_of(ps: Seq<RawProfile>, gs: Seq<RawGroup>, sid: i64) -> (
    Seq<char>,
    Seq<char>,
) {
    if sid > 0 {
        match find_profile(ps, sid) {
            Some(p) => (full_name(p), or_empty(p.photo_50)),
            None => (Seq::empty(), Seq::empty()),
        }
    } else if sid == i64::MIN {
        (Seq::empty(), Seq::empty())
    } else {
        match find_group(gs, (-sid) as i64) {
            Some(g) => (g.name@, g.photo_50@),
            None => (Seq::empty(), Seq::empty()),
        }
    }
}

/// The entry of one announced friend: the friend's largest picture (empty
/// when its fetch failed) with the friend's name; empty when unknown.
pub open spec fn friend_entry(t: Seq<(String, Option<String>)>, ps: Seq<RawProfile>, id: i64) -> Walk<
    Option<PhotoV>,
> {
    match find_profile(ps, id) {
        None => Walk::Done(Some((Seq::empty(), Seq::empty()))),
        Some(p) => match resolve_spec(t, max_photo(p)) {
            None => Walk::Need(max_photo(p), Seq::empty()),
            Some(o) => Walk::Done(
                Some(
                    (
                        match o {
                            Some(x) => x,
                            None => Seq::empty(),
                        },
                        full_name(p),
                    ),
                ),
            ),
        },
    }
}

/// The entries of the announced friends, in order.
pub open spec fn friends_walk(
    t: Seq<(String, Option<String>)>,
    ps: Seq<RawProfile>,
    acc: Seq<PhotoV>,
    ids: Seq<i64>,
) -> Walk<Seq<PhotoV>>
    decreases ids.len(),
{
    if ids.len() == 0 {
        Walk::Done(acc)
    } else {
        match push_found(friend_entry(t, ps, ids[0]), acc) {
            Walk::Need(u, g) => Walk::Need(u, g),
            Walk::Done(a1) => friends_walk(t, ps, a1, ids.drop_first()),
        }
    }
}

/// Index of the first profile with id `id`.
fn profile_index(ps: &Vec<RawProfile>, id: i64) -> (r: Option<usize>)
    ensures
        match r {
            Some(j) => j < ps@.len() && find_profile(ps@, id) == Some(ps@[j as int]),
            None => find_profile(ps@, id) is None,
        },
{
    let mut j: usize = 0;
    assert(ps@.skip(0) =~= ps@);
    while j < ps.len()
        invariant
            j <= ps@.len(),
            find_profile(ps@.skip(j as int), id) == find_profile(ps@, id),
        decreases ps@.len() - j,
    {
        let ghost rest = ps@.skip(j as int);
        assert(rest[0] == ps@[j as int]);
        assert(rest.drop_first() =~= ps@.skip(j + 1));
        if ps[j].id == id {
            return Some(j);
        }
        j = j + 1;
    }
    None
}

/// Index of the first group with id `id`.
fn group_index(gs: &Vec<RawGroup>, id: i64) -> (r: Option<usize>)
    ensures
        match r {
            Some(j) => j < gs@.len() && find_group(gs@, id) == Some(gs@[j as int]),
            None => find_group(gs@, id) is None,
        },
{
    let mut j: usize = 0;
    assert(gs@.skip(0) =~= gs@);
    while j < gs.len()
        invariant
            j <= gs@.len(),
            find_group(gs@.skip(j as int), id) == find_group(gs@, id),
        decreases gs@.len() - j,
    {
        let ghost rest = gs@.skip(j as int);
        assert(rest[0] == gs@[j as int]);
        assert(rest.drop_first() =~= gs@.skip(j + 1));
        if gs[j].id == id {
            return Some(j);
        }
        j = j + 1;
    }
    None
}

/// A person's full name.
pub fn get_full_name(p: &RawProfile) -> (r: String)
    ensures
        r@ == full_name(*p),
{
    let mut name = p.first_name.clone();
    name.push(' ');
    name.concat(p.last_name.as_str())
}

/// A person's largest picture, as `max_photo` states.
pub fn get_max_photo(p: &RawProfile) -> (r: String)
    ensures
        r@ == max_photo(*p),
{
    if let Some(x) = &p.photo_400_orig {
        x.clone()
    } else if let Some(x) = &p.photo_200_orig {
        x.clone()
    } else if let Some(x) = &p.photo_200 {
        x.clone()
    } else if let Some(x) = &p.photo_100 {
        x.clone()
    } else {
        string_or_empty(&p.photo_50)
    }
}

/// The author of an item and its avatar path, as `author_of` states.
fn author_and_avatar(ps: &Vec<RawProfile>, gs: &Vec<RawGroup>, sid: i64) -> (r: (String, String))
    ensures
        (r.0@, r.1@) == author_of(ps@, gs@, sid),
{
    if sid > 0 {
        match profile_index(ps, sid) {
            Some(j) => (get_full_name(&ps[j]), string_or_empty(&ps[j].photo_50)),
            None => (String::new(), String::new()),
        }
    } else if sid == i64::MIN {
        (String::new(), String::new())
    } else {
        match group_index(gs, -sid) {
            Some(j) => (gs[j].name.clone(), gs[j].photo_50.clone()),
            None => (String::new(), String::new()),
        }
    }
}

/// Appends the entries of the announced friends.
fn append_friends(acc: &mut Vec<Photo>, table: &AssetTable, ps: &Vec<RawProfile>, ids: &Vec<i64>) -> (r:
    Result<(), AssetRequest>)
    ensures
        walked(friends_walk(table.entries(), ps@, photos_v(old(acc)@), ids@), r, final(acc)@),
{
    let ghost t = table.entries();
    let ghost goal = friends_walk(t, ps@, photos_v(acc@), ids@);
    let mut i: usize = 0;
    assert(ids@.skip(0) =~= ids@);
    while i < ids.len()
        invariant
            i <= ids@.len(),
            t == table.entries(),
            friends_walk(t, ps@, photos_v(acc@), ids@.skip(i as int)) == goal,
            goal == friends_walk(t, ps@, photos_v(old(acc)@), ids@),
        decreases ids@.len() - i,
    {
        let ghost rest = ids@.skip(i as int);
        assert(rest[0] == ids@[i as int]);
        assert(rest.drop_first() =~= ids@.skip(i + 1));
        let entry = match profile_index(ps, ids[i]) {
            None => Photo { uri: String::new(), text: String::new() },
            Some(j) => {
                let pic = get_max_photo(&ps[j]);
                match table.resolve(pic.as_str()) {
                    None => {
                        return Err(AssetRequest { url: pic, tag: String::new() });
                    },
                    Some(o) => Photo {
                        uri: match o {
                            Some(x) => x,
                            None => String::new(),
                        },
                        text: get_full_name(&ps[j]),
                    },
                }
            },
        };
        proof {
            lemma_photos_v_push(acc@, entry);
        }
        acc.push(entry);
        i = i + 1;
    }
    assert(ids@.skip(i as int) =~= Seq::<i64>::empty());
    Ok(())
}

/// A display item as values: author, avatar, type tag, date, content,
/// photos, links.
pub type ItemV = (
    Seq<char>,
    Seq<char>,
    Seq<char>,
    Seq<char>,
    Seq<char>,
    Option<Seq<PhotoV>>,
    Option<Seq<LinkV>>,
);

/// The views of optional photo entries.
pub open spec fn opt_photos_v(o: Option<Vec<Photo>>) -> Option<Seq<PhotoV>> {
    match o {
        Some(v) => Some(photos_v(v@)),
        None => None,
    }
}

/// The values of a display item.
pub open spec fn item_view(m: NewsItemModel) -> ItemV {
    (
        m.author@,
        m.avatar@,
        m.itemtype@,
        m.datetime@,
        m.content@,
        opt_photos_v(m.photos),
        match m.links {
            Some(v) => Some(links_v(v@)),
            None => None,
        },
    )
}

/// Items that are never shown: wall photos, and friend items that carry no
/// friends.
pub open spec fn is_dropped(item: RawItem) -> bool {
    item.type_@ == NEWS_TYPE_WALL_PHOTO@ || (item.type_@ == NEWS_TYPE_FRIEND@ && match item.friends {
        None => true,
        Some(f) => f.count == 0,
    })
}

/// The friend entries of a friend item, when it lists its friends.
pub open spec fn friends_of(t: Seq<(String, Option<String>)>, ps: Seq<RawProfile>, item: RawItem) -> Walk<
    Option<Seq<PhotoV>>,
> {
    if item.type_@ == NEWS_TYPE_FRIEND@ {
        match item.friends {
            Some(f) => match f.user_ids {
                Some(ids) => match friends_walk(t, ps, Seq::empty(), ids@) {
                    Walk::Need(u, g) => Walk::Need(u, g),
                    Walk::Done(a) => Walk::Done(Some(a)),
                },
                None => Walk::Done(None),
            },
            None => Walk::Done(None),
        }
    } else {
        Walk::Done(None)
    }
}

/// The photos shown: the extracted ones followed by the friend entries, or
/// the friend entries alone when nothing was extracted.
pub open spec fn merge_photos(extracted: Seq<PhotoV>, friends: Option<Seq<PhotoV>>) -> Option<
    Seq<PhotoV>,
> {
    if extracted.len() > 0 {
        Some(
            extracted + match friends {
                Some(f) => f,
                None => Seq::empty(),
            },
        )
    } else {
        friends
    }
}

/// A list, or nothing when it is empty.
pub open spec fn non_empty<T>(s: Seq<T>) -> Option<Seq<T>> {
    if s.len() > 0 {
        Some(s)
    } else {
        None
    }
}

/// The display item of a raw entry, shown with the date text `datetime`:
/// nothing for a dropped item, else its author, type, processed text,
/// photos and links.
pub open spec fn item_step(
    t: Seq<(String, Option<String>)>,
    ps: Seq<RawProfile>,
    gs: Seq<RawGroup>,
    item: RawItem,
    datetime: Seq<char>,
) -> Walk<Option<ItemV>> {
    if is_dropped(item) {
        Walk::Done(None)
    } else {
        match friends_of(t, ps, item) {
            Walk::Need(u, g) => Walk::Need(u, g),
            Walk::Done(fr) => match extract_photos(t, item) {
                Walk::Need(u, g) => Walk::Need(u, g),
                Walk::Done(ex) => Walk::Done(
                    Some(
                        (
                            author_of(ps, gs, item.source_id).0,
                            author_of(ps, gs, item.source_id).1,
                            item.type_@,
                            datetime,
                            match item.text {
                                Some(x) => processed_text(x@),
                                None => Seq::empty(),
                            },
                            merge_photos(ex, fr),
                            non_empty(extract_links(item)),
                        ),
                    ),
                ),
            },
        }
    }
}

/// A step of the transformer ended as `r` says.
pub open spec fn stepped(w: Walk<Option<ItemV>>, r: Result<Option<NewsItemModel>, AssetRequest>) -> bool {
    match r {
        Ok(Some(m)) => w == Walk::Done(Some(item_view(m))),
        Ok(None) => w == Walk::<Option<ItemV>>::Done(None),
        Err(q) => w == Walk::<Option<ItemV>>::Need(q.url@, q.tag@),
    }
}

/// A batch of display items.
pub struct NewsUpdate {
    items: Vec<NewsItemModel>,
}

impl NewsUpdate {
    /// The items, in order.
    pub closed spec fn items(&self) -> Seq<NewsItemModel> {
        self.items@
    }

    /// A batch of the given items.
    pub fn from_items(items: Vec<NewsItemModel>) -> (r: NewsUpdate)
        ensures
            r.items() == items@,
    {
        NewsUpdate { items }
    }

    /// The batch holds no item.
    pub fn is_empty(&self) -> (r: bool)
        ensures
            r == (self.items().len() == 0),
    {
        self.items.len() == 0
    }

    /// The items, in order.
    pub fn into_items(self) -> (r: Vec<NewsItemModel>)
        ensures
            r@ == self.items(),
    {
        self.items
    }

    /// Transforms one raw entry of `feed`, shown with the date text
    /// `datetime`: the display item, nothing for an entry that is dropped,
    /// or the first asset whose outcome `table` does not hold yet.
    pub fn transform_item(table: &AssetTable, feed: &RawFeed, item: &RawItem, datetime: String) -> (r:
        Result<Option<NewsItemModel>, AssetRequest>)
        ensures
            stepped(
                item_step(
                    table.entries(),
                    seq_or_empty(feed.profiles),
                    seq_or_empty(feed.groups),
                    *item,
                    datetime@,
                ),
                r,
            ),
    {
        let empty_profiles: Vec<RawProfile> = Vec::new();
        let empty_groups: Vec<RawGroup> = Vec::new();
        let ps: &Vec<RawProfile> = match &feed.profiles {
            Some(v) => v,
            None => &empty_profiles,
        };
        let gs: &Vec<RawGroup> = match &feed.groups {
            Some(v) => v,
            None => &empty_groups,
        };
        assert(ps@ == seq_or_empty(feed.profiles));
        assert(gs@ == seq_or_empty(feed.groups));
        let ghost t = table.entries();
        let ty = &item.type_;
        if is_tag(ty, NEWS_TYPE_WALL_PHOTO) {
            return Ok(None);
        }
        let is_friend = is_tag(ty, NEWS_TYPE_FRIEND);
        if is_friend {
            match &item.friends {
                None => {
                    return Ok(None);
                },
                Some(f) => if f.count == 0 {
                    return Ok(None);
                },
            }
        }
        assert(!is_dropped(*item));
        let mut friends_photos: Option<Vec<Photo>> = None;
        if is_friend {
            if let Some(f) = &item.friends {
                if let Some(ids) = &f.user_ids {
                    let mut acc: Vec<Photo> = Vec::new();
                    assert(photos_v(acc@) =~= Seq::<PhotoV>::empty());
                    if let Err(q) = append_friends(&mut acc, table, ps, ids) {
                        return Err(q);
                    }
                    friends_photos = Some(acc);
                }
            }
        }
        let ghost fr = opt_photos_v(friends_photos);
        assert(friends_of(t, ps@, *item) == Walk::<Option<Seq<PhotoV>>>::Done(fr));
        let extracted = match photos_of(table, item) {
            Err(q) => {
                return Err(q);
            },
            Ok(v) => v,
        };
        let (author, avatar) = author_and_avatar(ps, gs, item.source_id);
        let photos = if extracted.len() > 0 {
            let mut all = extracted;
            let ghost ex = photos_v(all@);
            if let Some(fv) = friends_photos {
                let mut k: usize = 0;
                while k < fv.len()
                    invariant
                        k <= fv@.len(),
                        photos_v(all@) == ex + photos_v(fv@).take(k as int),
                    decreases fv@.len() - k,
                {
                    let p = Photo { uri: fv[k].uri.clone(), text: fv[k].text.clone() };
                    proof {
                        lemma_photos_v_push(all@, p);
                        assert(photos_v(fv@).take(k + 1) =~= photos_v(fv@).take(k as int).push(
                            (p.uri@, p.text@),
                        ));
                    }
                    all.push(p);
                    k = k + 1;
                }
                assert(photos_v(fv@).take(fv@.len() as int) =~= photos_v(fv@));
            } else {
                assert(photos_v(all@) =~= ex + Seq::<PhotoV>::empty());
            }
            Some(all)
        } else {
            friends_photos
        };
        let link_list = links_of(item);
        let links = if link_list.len() > 0 {
            Some(link_list)
        } else {
            None
        };
        let content = match &item.text {
            Some(x) => process_text(x.as_str()),
            None => String::new(),
        };
        let model = NewsItemModel {
            author,
            avatar,
            itemtype: item.type_.clone(),
            datetime,
            content,
            photos,
            links,
        };
        Ok(Some(model))
    }

}

/// How many pictures a display row shows.
pub const MAX_IMAGES: usize = 10;

/// How many links a display row shows.
pub const MAX_LINKS: usize = 4;

/// One slot of a display row: target, caption, and whether it is shown.
pub struct Slot {
    pub uri: String,
    pub text: String,
    pub visible: bool,
}

/// The fixed slots of a display row.
pub struct RowSlots {
    pub images: Vec<Slot>,
    pub links: Vec<Slot>,
}

/// Slot `i` over a list of entries: the entry, shown, when there is one at
/// `i` with a non-empty target; else an empty hidden slot.
pub open spec fn slot_at(entries: Seq<(Seq<char>, Seq<char>)>, i: int) -> (Seq<char>, Seq<char>, bool) {
    if i < entries.len() && entries[i].0.len() > 0 {
        (entries[i].0, entries[i].1, true)
    } else {
        (Seq::empty(), Seq::empty(), false)
    }
}

/// The values of a slot.
pub open spec fn slot_view(s: Slot) -> (Seq<char>, Seq<char>, bool) {
    (s.uri@, s.text@, s.visible)
}

/// `n` slots over the entries `(uri, text)`.
fn fill_slots(uris: &Vec<(String, String)>, n: usize) -> (r: Vec<Slot>)
    ensures
        r@.len() == n,
        forall|i: int|
            0 <= i < n ==> #[trigger] slot_view(r@[i]) == slot_at(cands_view(uris@), i),
{
    let mut r: Vec<Slot> = Vec::new();
    let mut i: usize = 0;
    while i < n
        invariant
            i <= n,
            r@.len() == i,
            forall|k: int| 0 <= k < i ==> #[trigger] slot_view(r@[k]) == slot_at(cands_view(uris@), k),
        decreases n - i,
    {
        let slot = if i < uris.len() && !uris[i].0.as_str().is_empty() {
            Slot { uri: uris[i].0.clone(), text: uris[i].1.clone(), visible: true }
        } else {
            Slot { uri: String::new(), text: String::new(), visible: false }
        };
        r.push(slot);
        i = i + 1;
    }
    r
}

/// The display slots of an item: its first `MAX_IMAGES` photos and first
/// `MAX_LINKS` links, each shown when its target is not empty.
pub fn row_slots(model: &NewsItemModel) -> (r: RowSlots)
    ensures
        r.images@.len() == MAX_IMAGES,
        r.links@.len() == MAX_LINKS,
        forall|i: int|
            0 <= i < MAX_IMAGES ==> #[trigger] slot_view(r.images@[i]) == slot_at(
                match opt_photos_v(model.photos) {
                    Some(v) => v,
                    None => Seq::empty(),
                },
                i,
            ),
        forall|i: int|
            0 <= i < MAX_LINKS ==> #[trigger] slot_view(r.links@[i]) == slot_at(
                match model.links {
                    Some(v) => links_v(v@),
                    None => Seq::empty(),
                },
                i,
            ),
{
    let mut photos: Vec<(String, String)> = Vec::new();
    if let Some(ps) = &model.photos {
        let mut i: usize = 0;
        while i < ps.len()
            invariant
                i <= ps@.len(),
                cands_view(photos@) == photos_v(ps@).take(i as int),
            decreases ps@.len() - i,
        {
            let ghost before = photos@;
            photos.push((ps[i].uri.clone(), ps[i].text.clone()));
            assert(cands_view(photos@) =~= cands_view(before).push(
                (ps@[i as int].uri@, ps@[i as int].text@),
            ));
            assert(photos_v(ps@).take(i + 1) =~= photos_v(ps@).take(i as int).push(
                (ps@[i as int].uri@, ps@[i as int].text@),
            ));
            i = i + 1;
        }
        assert(photos_v(ps@).take(i as int) =~= photos_v(ps@));
    } else {
        assert(cands_view(photos@) =~= Seq::<PhotoV>::empty());
    }
    let mut links: Vec<(String, String)> = Vec::new();
    if let Some(ls) = &model.links {
        let mut i: usize = 0;
        while i < ls.len()
            invariant
                i <= ls@.len(),
                cands_view(links@) == links_v(ls@).take(i as int),
            decreases ls@.len() - i,
        {
            let ghost before = links@;
            links.push((ls[i].uri.clone(), ls[i].text.clone()));
            assert(cands_view(links@) =~= cands_view(before).push(
                (ls@[i as int].uri@, ls@[i as int].text@),
            ));
            assert(links_v(ls@).take(i + 1) =~= links_v(ls@).take(i as int).push(
                (ls@[i as int].uri@, ls@[i as int].text@),
            ));
            i = i + 1;
        }
        assert(links_v(ls@).take(i as int) =~= links_v(ls@));
    } else {
        assert(cands_view(links@) =~= Seq::<LinkV>::empty());
    }
    RowSlots { images: fill_slots(&photos, MAX_IMAGES), links: fill_slots(&links, MAX_LINKS) }
}

} // verus!

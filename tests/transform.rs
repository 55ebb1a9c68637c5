use gvk::assets::{AssetRequest, AssetTable};
use gvk::feed::{
    Attachment, FriendsList, PhotoSize, PostedPhoto, RawFeed, RawGroup, RawItem, RawLink,
    RawPhoto, RawProfile, RawVideo, VideoImage,
};
use gvk::models::{ActorModel, NewsItemModel};
use gvk::news_update::{row_slots, NewsUpdate};
use gvk::sources_manager::{SourcesManager, SourcesUpdate};

fn size(code: &str, url: &str) -> PhotoSize {
    PhotoSize { type_: code.to_string(), url: Some(url.to_string()), src: None }
}

fn attachment() -> Attachment {
    Attachment { photo: None, link: None, video: None, posted_photo: None, doc: None }
}

fn item(ty: &str, source_id: i64) -> RawItem {
    RawItem {
        type_: ty.to_string(),
        source_id,
        date: 0,
        text: None,
        attachments: None,
        copy_history: None,
        photos: None,
        friends: None,
    }
}

fn profile(id: i64, first: &str, last: &str) -> RawProfile {
    RawProfile {
        id,
        first_name: first.to_string(),
        last_name: last.to_string(),
        photo_50: Some(format!("/local/p{}.jpg", id)),
        photo_100: None,
        photo_200: None,
        photo_200_orig: None,
        photo_400_orig: Some(format!("http://img/p{}_400.jpg", id)),
        screen_name: Some(format!("id{}", id)),
        last_seen: None,
    }
}

fn group(id: i64, name: &str) -> RawGroup {
    RawGroup {
        id,
        name: name.to_string(),
        screen_name: format!("club{}", id),
        type_: "page".to_string(),
        photo_50: format!("/local/g{}.jpg", id),
        is_member: None,
        is_advertiser: None,
        description: None,
    }
}

fn feed() -> RawFeed {
    RawFeed {
        items: None,
        profiles: Some(vec![profile(5, "Ann", "Lee")]),
        groups: Some(vec![group(9, "News")]),
        next_from: None,
    }
}

/// Runs a transform step to the end, answering asset requests from `fetch`.
fn run(f: &RawFeed, it: &RawItem, fetch: &dyn Fn(&AssetRequest) -> Option<String>) -> (Option<NewsItemModel>, Vec<(String, String)>) {
    let mut table = AssetTable::new();
    let mut asked = Vec::new();
    loop {
        match NewsUpdate::transform_item(&table, f, it, "01.01.2021 10:00 (Fri)".to_string()) {
            Ok(m) => return (m, asked),
            Err(q) => {
                asked.push((q.url.clone(), q.tag.clone()));
                let outcome = fetch(&q);
                table.record(q.url, outcome);
            }
        }
    }
}

#[test]
fn best_rendition_is_asked_first_and_failures_fall_through() {
    let mut it = item("post", 5);
    let mut a = attachment();
    a.photo = Some(RawPhoto {
        sizes: Some(vec![size("m", "http://img/m.jpg"), size("x", "http://img/x.jpg")]),
        text: Some("cap".to_string()),
    });
    it.attachments = Some(vec![a]);
    it.text = Some("hi & bye".to_string());
    let (m, asked) = run(&feed(), &it, &|q| if q.tag == "x" { None } else { Some(format!("/f/{}", q.tag)) });
    assert_eq!(
        asked,
        vec![
            ("http://img/x.jpg".to_string(), "x".to_string()),
            ("http://img/m.jpg".to_string(), "m".to_string())
        ]
    );
    let m = m.expect("post is shown");
    assert_eq!(m.author, "Ann Lee");
    assert_eq!(m.avatar, "/local/p5.jpg");
    assert_eq!(m.itemtype, "post");
    assert_eq!(m.datetime, "01.01.2021 10:00 (Fri)");
    assert_eq!(m.content, "hi &amp; bye");
    let photos = m.photos.expect("one photo");
    assert_eq!(photos.len(), 1);
    assert_eq!(photos[0].uri, "/f/m");
    assert_eq!(photos[0].text, "cap");
    assert!(m.links.is_none());
}

#[test]
fn group_author_and_dropped_items() {
    let f = feed();
    let (m, asked) = run(&f, &item("post", -9), &|_| None);
    assert!(asked.is_empty());
    let m = m.unwrap();
    assert_eq!((m.author.as_str(), m.avatar.as_str()), ("News", "/local/g9.jpg"));
    assert!(m.photos.is_none());
    let (m, _) = run(&f, &item("post", 77), &|_| None);
    assert_eq!(m.unwrap().author, "");
    assert!(run(&f, &item("wall_photo", 5), &|_| None).0.is_none());
    assert!(run(&f, &item("friend", 5), &|_| None).0.is_none());
    let mut fr = item("friend", 5);
    fr.friends = Some(FriendsList { count: 0, user_ids: Some(vec![5]) });
    assert!(run(&f, &fr, &|_| None).0.is_none());
}

#[test]
fn friend_items_show_the_friends() {
    let mut fr = item("friend", 5);
    fr.friends = Some(FriendsList { count: 2, user_ids: Some(vec![5, 6]) });
    let (m, asked) = run(&feed(), &fr, &|q| Some(format!("/f{}", q.url.len())));
    assert_eq!(asked, vec![("http://img/p5_400.jpg".to_string(), String::new())]);
    let photos = m.unwrap().photos.unwrap();
    assert_eq!(photos.len(), 2);
    assert_eq!((photos[0].uri.as_str(), photos[0].text.as_str()), ("/f21", "Ann Lee"));
    assert_eq!((photos[1].uri.as_str(), photos[1].text.as_str()), ("", ""));
}

#[test]
fn video_thumbnail_depends_on_taken_slots() {
    let video = || RawVideo {
        photo_130: Some("http://v/130.jpg".to_string()),
        photo_640: Some("http://v/640.jpg".to_string()),
        image: Some(vec![
            VideoImage { url: "http://v/i900.jpg".to_string(), width: 900 },
            VideoImage { url: "http://v/i320.jpg".to_string(), width: 320 },
            VideoImage { url: "http://v/i800.jpg".to_string(), width: 800 },
        ]),
    };
    let mut it = item("post", 5);
    let mut atts = Vec::new();
    for _ in 0..3 {
        let mut a = attachment();
        a.video = Some(video());
        atts.push(a);
    }
    it.attachments = Some(atts);
    let (m, asked) = run(&feed(), &it, &|q| {
        if q.url == "http://v/640.jpg" {
            Some("/f/640".to_string())
        } else if q.url == "http://v/130.jpg" {
            None
        } else {
            Some(format!("/f/{}", q.tag))
        }
    });
    assert_eq!(
        asked,
        vec![
            ("http://v/640.jpg".to_string(), "vx".to_string()),
            ("http://v/130.jpg".to_string(), "vp".to_string()),
            ("http://v/i800.jpg".to_string(), "v".to_string())
        ]
    );
    let photos = m.unwrap().photos.unwrap();
    let uris: Vec<&str> = photos.iter().map(|p| p.uri.as_str()).collect();
    assert_eq!(uris, vec!["/f/640", "/f/640", "/f/v"]);
}

#[test]
fn posted_photos_and_links() {
    let mut it = item("post", 5);
    let mut a = attachment();
    a.posted_photo = Some(PostedPhoto {
        photo_130: "http://pp/130.jpg".to_string(),
        photo_604: "http://pp/604.jpg".to_string(),
    });
    a.link = Some(RawLink {
        url: "http://l.com/?a=1&b=2".to_string(),
        title: "Title".to_string(),
        caption: Some("cap".to_string()),
        description: None,
        photo: Some(RawPhoto { sizes: Some(vec![size("s", "http://l/s.jpg")]), text: None }),
    });
    let mut b = attachment();
    b.link = Some(RawLink {
        url: String::new(),
        title: "skipped".to_string(),
        caption: None,
        description: None,
        photo: None,
    });
    it.attachments = Some(vec![a, b]);
    let (m, _) = run(&feed(), &it, &|q| Some(format!("/f/{}", q.tag)));
    let m = m.unwrap();
    let photos = m.photos.unwrap();
    assert_eq!(photos.len(), 2);
    assert_eq!((photos[0].uri.as_str(), photos[0].text.as_str()), ("/f/s", "Title"));
    assert_eq!((photos[1].uri.as_str(), photos[1].text.as_str()), ("/f/ppx", ""));
    let links = m.links.unwrap();
    assert_eq!(links.len(), 1);
    assert_eq!(links[0].text, "Title");
    assert_eq!(links[0].uri, "http://l.com/?a=1&b=2");
}

#[test]
fn display_rows_are_capped() {
    let mut it = item("photo", 5);
    let mut ps = Vec::new();
    for k in 0..12 {
        ps.push(RawPhoto { sizes: Some(vec![size("y", &format!("http://p/{}", k))]), text: None });
    }
    it.photos = Some(ps);
    let (m, _) = run(&feed(), &it, &|q| Some(format!("/f{}", q.url)));
    let m = m.unwrap();
    assert_eq!(m.photos.as_ref().unwrap().len(), 12);
    let slots = row_slots(&m);
    assert_eq!(slots.images.len(), 10);
    assert_eq!(slots.links.len(), 4);
    assert!(slots.images.iter().all(|s| s.visible));
    assert_eq!(slots.images[9].uri, "/fhttp://p/9");
    assert!(slots.links.iter().all(|s| !s.visible));
}

fn actor(id: i64, name: &str) -> ActorModel {
    ActorModel {
        id,
        name: name.to_string(),
        avatar: String::new(),
        desc: String::new(),
        rel_uri: format!("id{}", id),
        comment: String::new(),
    }
}

#[test]
fn registry_yields_an_id_once() {
    let mut reg = SourcesManager::new();
    let first = reg
        .add_new_sources(SourcesUpdate { items: vec![actor(1, "a"), actor(2, "b"), actor(1, "dup")] })
        .unwrap();
    let names: Vec<&str> = first.items.iter().map(|a| a.name.as_str()).collect();
    assert_eq!(names, vec!["a", "b"]);
    let second = reg.add_new_sources(SourcesUpdate { items: vec![actor(2, "b"), actor(3, "c")] }).unwrap();
    assert_eq!(second.items.len(), 1);
    assert_eq!(second.items[0].id, 3);
    assert!(reg.add_new_sources(SourcesUpdate { items: vec![actor(1, "a")] }).is_none());
    assert_eq!(actor(4, "d").get_uri(), "https://vk.com/id4");
}

#[test]
fn sources_of_a_page() {
    let mut f = feed();
    let mut g = group(10, "Club");
    g.is_member = Some(1);
    let mut h = group(11, "Ads");
    h.is_advertiser = Some(1);
    h.description = Some("we sell".to_string());
    f.groups = Some(vec![group(9, "News"), g, h]);
    let u = SourcesUpdate::new(&f, &vec!["01.02.2021 10:00".to_string()]);
    assert_eq!(u.items.len(), 4);
    assert_eq!((u.items[0].name.as_str(), u.items[0].desc.as_str()), ("Ann Lee", "profile"));
    assert_eq!(u.items[0].comment, "");
    f.profiles.as_mut().unwrap()[0].last_seen = Some(1);
    let seen = SourcesUpdate::new(&f, &vec!["01.02.2021 10:00".to_string()]);
    assert_eq!(seen.items[0].comment, "01.02.2021 10:00");
    assert_eq!(u.items[0].rel_uri, "id5");
    assert_eq!(u.items[1].desc, "page");
    assert_eq!(u.items[2].desc, "subscription");
    assert_eq!((u.items[3].desc.as_str(), u.items[3].comment.as_str()), ("advertiser", "we sell"));
}

#[test]
fn avatars_are_localized_in_place() {
    let mut f = feed();
    f.profiles = Some(vec![{
        let mut p = profile(5, "Ann", "Lee");
        p.photo_50 = Some("http://img/a50.jpg".to_string());
        p
    }]);
    f.groups = Some(vec![{
        let mut g = group(9, "News");
        g.photo_50 = "http://img/g50.jpg".to_string();
        g
    }]);
    let mut table = AssetTable::new();
    let q = f.localize_avatars(&table).unwrap_err();
    assert_eq!(q.url, "http://img/a50.jpg");
    assert_eq!(f.profiles.as_ref().unwrap()[0].photo_50.as_deref(), Some("http://img/a50.jpg"));
    table.record(q.url, Some("/f/a50.jpg".to_string()));
    let q = f.localize_avatars(&table).unwrap_err();
    assert_eq!(q.url, "http://img/g50.jpg");
    table.record(q.url, None);
    assert!(f.localize_avatars(&table).is_ok());
    assert_eq!(f.profiles.as_ref().unwrap()[0].photo_50.as_deref(), Some("/f/a50.jpg"));
    assert_eq!(f.groups.as_ref().unwrap()[0].photo_50, "");
    assert_eq!(f.groups.as_ref().unwrap()[0].name, "News");
}

#[test]
fn update_batches() {
    let u = NewsUpdate::from_items(Vec::new());
    assert!(u.is_empty());
    assert!(u.into_items().is_empty());
}

#[test]
fn user_view_model() {
    let u = gvk::models::UserModel::from_profile("Ann", "Lee", "/f/a.jpg".to_string(), None);
    assert_eq!((u.name.as_str(), u.image.as_str(), u.status.as_str()), ("Ann Lee", "/f/a.jpg", ""));
}

#[test]
fn video_fallback_takes_the_widest_under_the_ceiling() {
    let video = |widths: &[u32]| RawVideo {
        photo_130: None,
        photo_640: None,
        image: Some(
            widths
                .iter()
                .enumerate()
                .map(|(k, w)| VideoImage { url: format!("http://v/{}", k), width: *w })
                .collect(),
        ),
    };
    let run_video = |v: RawVideo| {
        let mut it = item("post", 5);
        let mut a = attachment();
        a.video = Some(v);
        it.attachments = Some(vec![a]);
        run(&feed(), &it, &|q| Some(format!("/f/{}", q.url))).1
    };
    assert_eq!(run_video(video(&[1000, 0])), vec![("http://v/1".to_string(), "v".to_string())]);
    assert_eq!(
        run_video(video(&[900, 500, 700, 700])),
        vec![("http://v/2".to_string(), "v".to_string())]
    );
    assert!(run_video(video(&[832, 1000])).is_empty());
}

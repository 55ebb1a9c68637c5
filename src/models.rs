//! The values handed to the presentation layer.

use vstd::prelude::*;

verus! {

/// The base of the public profile addresses.
pub const URI_BASE: &'static str = "https://vk.com/";

/// A source of news: a person or a group, keyed by its id.
pub struct ActorModel {
    pub id: i64,
    pub name: String,
    pub avatar: String,
    pub desc: String,
    pub rel_uri: String,
    pub comment: String,
}

impl ActorModel {
    /// The public address of the source's page.
    pub fn get_uri(&self) -> (r: String)
        ensures
            r@ == URI_BASE@ + self.rel_uri@,
    {
        URI_BASE.to_owned().concat(self.rel_uri.as_str())
    }

    /// A copy with every field equal.
    pub fn duplicate(&self) -> (r: ActorModel)
        ensures
            r == *self,
    {
        ActorModel {
            id: self.id,
            name: self.name.clone(),
            avatar: self.avatar.clone(),
            desc: self.desc.clone(),
            rel_uri: self.rel_uri.clone(),
            comment: self.comment.clone(),
        }
    }
}

/// One picture of a news item: its local path and caption.
pub struct Photo {
    pub uri: String,
    pub text: String,
}

/// One link of a news item: its target and caption.
pub struct Link {
    pub uri: String,
    pub text: String,
}

/// A news item ready for display.
pub struct NewsItemModel {
    pub author: String,
    pub avatar: String,
    pub itemtype: String,
    pub datetime: String,
    pub content: String,
    pub photos: Option<Vec<Photo>>,
    pub links: Option<Vec<Link>>,
}

/// A news source as the presentation layer lists it.
pub struct NewsSourceModel {
    pub name: String,
    pub avatar: String,
    pub desc: String,
    pub uri: String,
    pub comment: String,
}

/// The signed-in user as the presentation layer shows it.
pub struct UserModel {
    pub name: String,
    pub image: String,
    pub status: String,
}

impl UserModel {
    /// The user shown with full name (first name, a space, last name), the
    /// local path of the picture, and the status, empty when there is none.
    pub fn from_profile(first_name: &str, last_name: &str, image: String, status: Option<String>) -> (r:
        UserModel)
        ensures
            r.name@ == first_name@ + seq![' '] + last_name@,
            r.image@ == image@,
            r.status@ == match status {
                Some(s) => s@,
                None => Seq::<char>::empty(),
            },
    {
        let mut name = first_name.to_owned();
        name.push(' ');
        UserModel {
            name: name.concat(last_name),
            image,
            status: match status {
                Some(s) => s,
                None => String::new(),
            },
        }
    }
}

} // verus!

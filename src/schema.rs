//! The catalog's records: games, tags and users.
use vstd::prelude::*;

verus! {

/// A tag that categorizes games.
#[derive(Debug, Clone, PartialEq, Eq)]
pub struct Tag {
    /// What the tag means.
    pub description: String,
    /// The tag's name, which identifies it.
    pub name: String,
}

/// The kind of account of a user.
#[derive(Debug, Clone, Copy, PartialEq, Eq, Structural)]
pub enum UserType {
    /// A member of the house, who can use the member directory.
    CSH,
    /// An outside account.
    GOOGLE,
}

/// A user of the catalog, such as the author of a game.
#[derive(Debug, Clone, PartialEq, Eq)]
pub struct User {
    pub admin: bool,
    pub email: String,
    pub first_name: String,
    pub id: String,
    pub last_name: String,
    /// A URL of the user's picture.
    pub picture: String,
    pub user_type: UserType,
}

/// A game of the catalog, and once installed, the handle of its installed
/// artifact.
#[derive(Debug, Clone, PartialEq, Eq)]
pub struct DevcadeGame {
    /// The game's id; it does not change when the game is updated.
    pub id: String,
    /// The fingerprint of the game's artifact, used to tell whether an
    /// installed copy is current.
    pub hash: Option<String>,
    pub name: String,
    pub author: String,
    pub description: String,
    /// The upload date, as `YYYY-MM-DD`.
    pub upload_date: String,
    pub tags: Vec<Tag>,
    pub user: User,
    /// The install reference the package installer returned, set once the
    /// game is installed.
    pub flatpak_app_id: Option<String>,
}

/// A game as listed under a tag: fewer fields than a full record.
#[derive(Debug, Clone, PartialEq, Eq)]
pub struct MinimalGame {
    pub id: String,
    pub author: String,
    pub upload_date: String,
    pub name: String,
    pub hash: String,
    pub description: String,
}

impl User {
    /// A user with empty fields.
    pub fn empty() -> (r: User)
        ensures
            r.id@ == Seq::<char>::empty(),
            r.user_type == UserType::GOOGLE,
    {
        User {
            admin: false,
            email: String::new(),
            first_name: String::new(),
            id: String::new(),
            last_name: String::new(),
            picture: String::new(),
            user_type: UserType::GOOGLE,
        }
    }
}

impl DevcadeGame {
    /// A game with empty fields, which stands for "no game" before the first
    /// launch.
    pub fn empty() -> (r: DevcadeGame)
        ensures
            r.id@ == Seq::<char>::empty(),
            r.hash is None,
            r.flatpak_app_id is None,
            r.tags@.len() == 0,
    {
        DevcadeGame {
            id: String::new(),
            hash: None,
            name: String::new(),
            author: String::new(),
            description: String::new(),
            upload_date: String::new(),
            tags: Vec::new(),
            user: User::empty(),
            flatpak_app_id: None,
        }
    }
}

} // verus!

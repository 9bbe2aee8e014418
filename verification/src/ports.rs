//! The tasks the service runs and the options they take.

use vstd::prelude::*;
use std::ops::RangeInclusive;

verus! {

/// Which posts of a user to back up.
#[derive(Debug, Clone, Copy, PartialEq, Eq)]
pub enum UserPostFilter {
    All,
    Original,
    Video,
    Picture,
}

impl Default for UserPostFilter {
    fn default() -> (res: Self)
        ensures
            res == UserPostFilter::All,
    {
        UserPostFilter::All
    }
}

/// The size a picture is fetched in.
#[derive(Debug, Clone, Copy, PartialEq, Eq)]
pub enum PictureDefinition {
    Thumbnail,
    Bmiddle,
    Large,
    Original,
    Largest,
    Mw2000,
}

impl Default for PictureDefinition {
    fn default() -> (res: Self)
        ensures
            res == PictureDefinition::Largest,
    {
        PictureDefinition::Largest
    }
}

/// The name the web API gives a picture size.
pub open spec fn definition_name(d: PictureDefinition) -> Seq<char> {
    match d {
        PictureDefinition::Thumbnail => "thumbnail"@,
        PictureDefinition::Bmiddle => "bmiddle"@,
        PictureDefinition::Large => "large"@,
        PictureDefinition::Original => "original"@,
        PictureDefinition::Largest => "largest"@,
        PictureDefinition::Mw2000 => "mw2000"@,
    }
}

impl PictureDefinition {
    /// The name the web API gives this size.
    pub fn as_str(self) -> (res: &'static str)
        ensures
            res@ == definition_name(self),
    {
        match self {
            PictureDefinition::Thumbnail => "thumbnail",
            PictureDefinition::Bmiddle => "bmiddle",
            PictureDefinition::Large => "large",
            PictureDefinition::Original => "original",
            PictureDefinition::Largest => "largest",
            PictureDefinition::Mw2000 => "mw2000",
        }
    }
}

/// What a task works on and how.
#[derive(Debug, Clone)]
pub struct TaskOptions {
    pub with_pic: bool,
    pub post_id: i64,
    pub uid: i64,
    pub pic_quality: PictureDefinition,
    pub reverse: bool,
    pub range: Option<RangeInclusive<u32>>,
    pub post_filter: UserPostFilter,
}

/// The options a task starts from.
pub open spec fn default_task_options(o: TaskOptions) -> bool {
    &&& !o.with_pic
    &&& o.post_id == 0
    &&& o.uid == 0
    &&& o.pic_quality == PictureDefinition::Largest
    &&& !o.reverse
    &&& o.range is None
    &&& o.post_filter == UserPostFilter::All
}

impl Default for TaskOptions {
    fn default() -> (res: Self)
        ensures
            default_task_options(res),
    {
        TaskOptions {
            with_pic: false,
            post_id: 0,
            uid: 0,
            pic_quality: PictureDefinition::default(),
            reverse: false,
            range: None,
            post_filter: UserPostFilter::default(),
        }
    }
}

impl TaskOptions {
    /// The default options: no pictures, no user or post, the largest
    /// pictures, in order, over everything, all posts.
    pub fn new() -> (res: Self)
        ensures
            default_task_options(res),
    {
        Self::default()
    }

    /// Also fetch pictures.
    pub fn with_pic(self) -> (res: Self)
        ensures
            res == (TaskOptions { with_pic: true, ..self }),
    {
        TaskOptions { with_pic: true, ..self }
    }

    /// Work on the user `uid`.
    pub fn with_user(self, uid: i64) -> (res: Self)
        ensures
            res == (TaskOptions { uid, ..self }),
    {
        TaskOptions { uid, ..self }
    }

    /// Work on the post `post_id`.
    pub fn with_post(self, post_id: i64) -> (res: Self)
        ensures
            res == (TaskOptions { post_id, ..self }),
    {
        TaskOptions { post_id, ..self }
    }

    /// Fetch pictures in size `quality`.
    pub fn pic_quality(self, quality: PictureDefinition) -> (res: Self)
        ensures
            res == (TaskOptions { pic_quality: quality, ..self }),
    {
        TaskOptions { pic_quality: quality, ..self }
    }

    /// Newest first.
    pub fn reverse(self) -> (res: Self)
        ensures
            res == (TaskOptions { reverse: true, ..self }),
    {
        TaskOptions { reverse: true, ..self }
    }

    /// Only the posts in `range`.
    pub fn range(self, range: RangeInclusive<u32>) -> (res: Self)
        ensures
            res == (TaskOptions { range: Some(range), ..self }),
    {
        TaskOptions { range: Some(range), ..self }
    }

    /// Only the posts that `filter` keeps.
    pub fn post_filter(self, filter: UserPostFilter) -> (res: Self)
        ensures
            res == (TaskOptions { post_filter: filter, ..self }),
    {
        TaskOptions { post_filter: filter, ..self }
    }
}

/// A task the service runs.
#[derive(Debug, Clone)]
pub enum Task {
    /// Fetch a user's screen name and avatar.
    FetchUserMeta(TaskOptions),
    /// Download favorites.
    BackupFavorites(TaskOptions),
    /// Export favorites from the local database.
    ExportFromLocal(TaskOptions),
    /// Remove from the favorites the posts stored locally.
    UnfavoritePosts,
    /// Back up a user's posts.
    BackupUser(TaskOptions),
}

} // verus!

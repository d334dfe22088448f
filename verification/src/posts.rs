//! The post records the table works on, and the shapes the backend
//! exchanges them in.
//!
//! Dates travel as Unix timestamps in seconds: the table only compares
//! and displays them, so a plain integer carries everything the logic
//! reads. Formatting a timestamp for the screen is presentation and
//! happens outside the crate.

use vstd::prelude::*;

verus! {

/// Publication status of a post.
#[derive(Clone, Copy, Debug, PartialEq, Eq, Structural)]
pub enum PostStatusEnum {
    Draft,
    Pending,
    Private,
    Scheduled,
    Published,
}

/// A record with a stable unique identifier. The table engine is generic
/// over this capability: it never reads anything else from a record.
pub trait Id {
    /// The identifier, at the specification level.
    spec fn spec_id(&self) -> u32;

    /// The identifier.
    fn id(&self) -> (r: u32)
        ensures
            r == self.spec_id(),
    ;
}

/// A category assigned to a post.
#[derive(Clone, Debug)]
pub struct Category {
    pub id: u32,
    pub name: String,
    pub description: String,
}

/// A post as the backend delivers it.
#[derive(Clone, Debug)]
pub struct PostStruct {
    /// The HTTP status the backend answered with when this record was
    /// created, where the caller attached it for user messaging.
    pub http_code: Option<u16>,
    pub id: u32,
    pub title: String,
    pub content: String,
    pub slug: String,
    pub author_id: u32,
    pub status: PostStatusEnum,
    pub date_published: Option<i64>,
    pub date_created: i64,
    pub categories: Vec<Category>,
}

impl Id for PostStruct {
    open spec fn spec_id(&self) -> u32 {
        self.id
    }

    fn id(&self) -> u32 {
        self.id
    }
}

/// A post as it is sent to the backend for creation.
#[derive(Clone, Debug)]
pub struct PostNewStruct {
    pub title: String,
    pub content: String,
    pub slug: String,
    pub author_id: u32,
    pub status: PostStatusEnum,
    pub date_published: Option<i64>,
}

/// The payload of a create request: the post and the ids of the
/// categories it belongs to.
#[derive(Clone, Debug)]
pub struct PostRequest {
    pub post: PostNewStruct,
    pub categories_ids: Vec<u32>,
}

/// The create request built from the new-content form: the slug is the
/// title, and content is authored as user one.
pub fn build_post_request(
    title: String,
    content: String,
    categories_ids: Vec<u32>,
    status: PostStatusEnum,
    date_published: Option<i64>,
) -> (r: PostRequest)
    ensures
        r.post.title == title,
        r.post.slug == title,
        r.post.content == content,
        r.post.author_id == 1,
        r.post.status == status,
        r.post.date_published == date_published,
        r.categories_ids == categories_ids,
{
    let slug = title.clone();
    PostRequest {
        post: PostNewStruct { title, content, slug, author_id: 1, status, date_published },
        categories_ids,
    }
}

/// The ids named in a bulk-delete request, and in the backend's answer
/// the ids it actually deleted.
#[derive(Clone, Debug)]
pub struct PostsIds {
    pub ids: Vec<u32>,
}

/// Where one page sits in the whole collection.
#[derive(Clone, Copy, Debug)]
pub struct PaginationMetadata {
    pub current_page: u32,
    pub total_pages: u32,
    pub total_items: u32,
}

/// One fetched page of posts with its pagination metadata.
#[derive(Clone, Debug)]
pub struct PaginatedPosts {
    pub data: Vec<PostStruct>,
    pub current_page: u32,
    pub total_pages: u32,
    pub total_items: u32,
}

} // verus!

//! Rows of the `posts` table.
use vstd::prelude::*;

verus! {

/// A stored post: a question, its answer in Markdown, and whether the
/// answer is published.
#[derive(Debug, Clone)]
pub struct Post {
    pub id: i32,
    pub title: String,
    pub asof: String,
    pub content: String,
    pub published: bool,
}

/// The columns written when a post is created; the id is assigned by the
/// database and a new post starts unpublished.
#[derive(Debug, Clone, Copy)]
pub struct NewPost<'a> {
    pub title: &'a str,
    pub asof: &'a str,
    pub content: &'a str,
}

} // verus!

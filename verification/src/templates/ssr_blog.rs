//! The server-rendered blog template's data.

use vstd::prelude::*;

verus! {

/// A blog post with its author and tags.
pub struct BlogPost {
    pub id: String,
    pub title: String,
    pub slug: String,
    pub excerpt: String,
    pub content: String,
    pub author: String,
    pub published_at: i64,
    pub tags: Vec<String>,
}

} // verus!

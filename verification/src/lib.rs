//! Rendering and request logic of a small question-and-answer site: posts
//! are written in Markdown, bare web addresses in them become links, code
//! blocks are highlighted, and only the site's owner may sign in and edit.
pub mod text;
pub mod links;
pub mod decimal;
pub mod calendar;
pub mod markup;
pub mod highlight;
pub mod models;
pub mod answer;
pub mod site;
pub mod json;
pub mod api;

pub use answer::{answers_for, Answer};
pub use models::{NewPost, Post};

//! The data and request logic of the project templates that `virust init`
//! writes: chat, todo lists, blog, home page and dashboard.

pub mod chat;
pub mod dashboard;
pub mod fullstack;
pub mod ssr_blog;
pub mod todo;

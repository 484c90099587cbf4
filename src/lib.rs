//! Archive service of a chat bot: query planning, post rendering, ordering of
//! listings and the replies of each command, over one table of posts.

pub mod decimal;
pub mod failure;
pub mod query;
pub mod post;
pub mod order;
pub mod reply;

//! The core of a flashcard application: the card records and their
//! repository, the classification of fetched HTTP responses, and the state
//! machine that a front end drives once per frame.
//!
//! - [`card`]: the records, a flashcard and a log entry.
//! - [`store`]: the table of cards, with listing, navigation, insertion,
//!   soft deletion and field updates, and what holds of them.
//! - [`http`]: a completed HTTP response.
//! - [`resource`]: what a response is shown as: an image, highlighted text,
//!   plain text or binary.
//! - [`session`]: the URL, the selection and the one fetch under way.

pub mod card;
pub mod http;
pub mod resource;
pub mod session;
pub mod store;

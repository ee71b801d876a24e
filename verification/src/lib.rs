//! The octos-one client's card pipeline and chat state, specified and
//! proved with Verus: reading, screening, composing and rendering the cards
//! an app agent streams; routing requests and agent events between the open
//! apps; and the small decisions of the shell around them.
pub mod text;
pub mod keyed;
pub mod scan;
pub mod tokens;
pub mod lines;
pub mod compose;
pub mod render;
pub mod fences;
pub mod nav;
pub mod routing;
pub mod weather;
pub mod prompts;
pub mod approval;
pub mod youtube;
pub mod levels;
pub mod saves;
pub mod events;
pub mod chat;
pub mod json;
pub mod kernel;
pub mod deck;
pub mod album;
pub mod status;
pub mod mermaid;
pub mod solo;

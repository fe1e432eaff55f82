//! Rules and decisions of an online game of five-in-a-row ("piškvorky") for
//! several players: the moves a server accepts, how a client detects a win, and
//! the checks on users, sessions and game invites.
pub mod board;
pub mod line;
pub mod play;
pub mod detect;
pub mod properties;
pub mod pattern;
pub mod reply;
pub mod invite;
pub mod session;
pub mod user;
pub mod notice;
pub mod forms;
pub mod client_game;
pub mod client_pages;

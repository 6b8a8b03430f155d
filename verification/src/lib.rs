//! The rules of Instavox, a social network that federates over ActivityPub.
//!
//! The library decides and computes; it neither reads nor sends anything. What a handler loads
//! from the database or the network comes in as plain values, and what is to be stored, sent or
//! shown goes out as plain values. [`web::Reply`] is an answer to a request, and [`web::Step`] is
//! either such an answer or what the handler needs to go on.

pub mod auth;
pub mod comments;
pub mod community;
pub mod encoding;
pub mod federation;
pub mod friends;
pub mod links;
pub mod markup;
pub mod messenger;
pub mod moderation;
pub mod notifications;
pub mod number;
pub mod page;
pub mod post_actions;
pub mod posts;
pub mod profile;
pub mod ranking;
pub mod search;
pub mod session;
pub mod settings;
pub mod text;
pub mod uploads;
pub mod visibility;
pub mod web;
pub mod weburl;


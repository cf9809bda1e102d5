//! Turns one inbound email message into a publish-ready blog post.
//!
//! A message arrives as a tree of parts with its headers ([`email`]). The
//! tree is walked for the body text and for the media attachments; the
//! headers give the sender, the date, and the subject, from which title
//! and tags are read ([`tag`]). The body loses its signature block
//! ([`signatureblock`]). One date and one slug name every file of the post
//! ([`filenames`]). Attachments in formats that browsers do not show are
//! converted and renamed ([`media`], [`image`], [`video`]), and the post is
//! written as a document with front matter ([`blog`]).
//!
//! The library reads no mailbox, writes no file and starts no program: it
//! says what to store, what to run and what to publish.

pub mod blog;
pub mod email;
pub mod filenames;
pub mod image;
pub mod media;
pub mod mishaps;
pub mod settings;
pub mod signatureblock;
pub mod tag;
pub mod text;
pub mod video;

//! Core of an image-rendering service, with its behaviour stated in contracts
//! and proved.
//!
//! The three parts that every endpoint shares:
//! - [`fetcher`]: the guarded fetcher, which decides what may be fetched and
//!   how much of an answer is accepted;
//! - [`cache`]: the ephemeral artifact cache, which keeps finished images
//!   under a token for a bounded time;
//! - [`oil`]: the oil-paint stylization filter on [`pixel`] buffers.
//!
//! Around them: the failures and their replies ([`error`]), the choice of
//! the endpoint ([`route`]), the request bodies ([`request`], [`profile`]),
//! the drawing plans of the templates ([`template`]), and the image
//! operations with their codecs ([`imageops`], [`decoder`], [`encoder`],
//! [`resize`], [`webp`], [`font`]).

pub mod cache;
pub mod decoder;
pub mod encoder;
pub mod error;
pub mod fetcher;
pub mod font;
pub mod imageops;
pub mod oil;
pub mod pixel;
pub mod profile;
pub mod request;
pub mod resize;
pub mod route;
pub mod template;
pub mod text;
pub mod token;
pub mod webp;

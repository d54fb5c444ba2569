//! Rendering and user-interface core of the Quest Sage client.
//!
//! The crate turns a tree of widgets into an ordered list of draw calls.
//! Widgets are laid out by flexbox rules and describe what to draw; the
//! multi-batch groups what can be drawn together; the vertex batch cuts each
//! group into draw calls that fit the index width of the graphics card. Rich
//! text is written span by span, typeset into words, and laid out like any
//! other widget.
//!
//! All geometry is held in whole pixels, all texture coordinates as exact
//! fractions and all measures of text in sixty-fourths of a pixel, so every
//! result is exact. Talking to the window, the graphics card, the glyph
//! cache and the flexbox solver is left to the program around the library,
//! which hands over plain values and takes plain values back.
//!
//! - [`batch`], [`multi_batch`]: from shapes to draw calls.
//! - [`widget`], [`style`], [`geometry`], [`input`]: the widget tree, its layout and its input.
//! - [`text`], [`rich_text`], [`font`], [`text_renderer`]: from styled text to glyph shapes.
//! - [`texture`], [`atlas`], [`ui_texture`], [`button`], [`field`], [`colour`]: what widgets show.
//! - [`assets`], [`profile`]: names of assets, and measures of time.

pub mod assets;
pub mod atlas;
pub mod batch;
pub mod button;
pub mod colour;
pub mod field;
pub mod font;
pub mod geometry;
pub mod input;
pub mod multi_batch;
pub mod profile;
pub mod rich_text;
pub mod style;
pub mod text;
pub mod text_renderer;
pub mod texture;
pub mod ui_texture;
pub mod widget;

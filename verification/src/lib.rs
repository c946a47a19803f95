//! Publishing a gemlog to a blogging service.
//!
//! A gemlog announces its posts in a feed: a gemtext page of dated links,
//! or an Atom document.  This library reads such a feed into entries
//! (`gemfeed`, `entry`, `link`), finds out which of them a remote service
//! lacks (`sync`), cuts the texts of the posts at markers where that is
//! asked for (`sanitization`), and says step by step what is to be fetched
//! and sent (`reconciler`, `report`, `wf`).  It talks to no network: its
//! caller fetches and sends, and hands over what came back.
//!
//! Texts are modelled as sequences of characters (`text`, `path`).  What
//! other crates compute (the match of a regular expression, the parts of a
//! URL, a date read from text, the nodes of a gemtext or Atom document)
//! is taken on trust and given a name in `pattern`, `urls`, `dates`,
//! `gemtext` and `atom`; everything else is proved.

pub mod atom;
pub mod dates;
pub mod entry;
pub mod error;
pub mod gemfeed;
pub mod gemtext;
pub mod link;
pub mod path;
pub mod pattern;
pub mod reconciler;
pub mod report;
pub mod sanitization;
pub mod sync;
pub mod text;
pub mod urls;
pub mod webmentions;
pub mod wf;

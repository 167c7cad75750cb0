//! Verified logic of a set of content-migration tools: the file names under
//! which Blogger post images are uploaded to Sanity and the pass that uploads
//! them, the reading of real-estate listing pages into listing records, and
//! the answers of a Wix app webhook.
pub mod blogger;
pub mod html;
pub mod numbers;
pub mod realestate;
pub mod sanity;
pub mod text;
pub mod webhook;

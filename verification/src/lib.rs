//! The decisions of a desktop client that moves large files to and from a media
//! library: naming and path safety, the download and upload state machines, the
//! wording of every message, and the bookkeeping of folder synchronisation.
//!
//! Nothing here touches the network or the disk: the application around the library
//! performs each action and hands back what came of it as a plain value.
pub mod framdrift;
pub mod hash;
pub mod jobb;
pub mod json;
pub mod kalender;
pub mod lokalt;
pub mod mapper;
pub mod media;
pub mod multipart;
pub mod navn;
pub mod nedlasting;
pub mod opplasting;
pub mod portal;
pub mod proxy;
pub mod skall;
pub mod struping;
pub mod synk;
pub mod tekst;

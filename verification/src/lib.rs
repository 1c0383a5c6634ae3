//! A thin bridge that prepares a media-export request for a platform-native
//! transcoder: it derives the output file name, resolves both paths inside the
//! application's private data directory, and gates the operation to mobile
//! hosts. The native transcoding itself is the host's business; this crate
//! proves the glue around it.

pub mod bridge;
pub mod naming;

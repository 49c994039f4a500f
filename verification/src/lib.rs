//! The logic of a desktop and Android shell around the NSCB backend: which backend
//! belongs to a platform, how an operation of it is started, followed and stopped,
//! how documents are brought into its reach, and what is kept in the settings.
//!
//! Nothing here touches the file system, the network or a process. What has to be
//! done there is handed out as an action, and what came of it is handed back as a
//! value.

pub mod backend;
pub mod dirs;
pub mod documents;
pub mod embedded;
pub mod events;
pub mod failure;
pub mod filelist;
pub mod output;
pub mod outside;
pub mod runner;
pub mod settings;
pub mod standard;
pub mod target;
pub mod text;
pub mod version;

pub mod sound_event;
pub mod settings;
pub mod scheme_meta;
pub mod translation;

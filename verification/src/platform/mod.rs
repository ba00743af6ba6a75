pub mod version;
pub mod imageres;
pub mod registry_scheme;
pub mod file_assoc;
pub mod startup_sound;
pub mod fs_admin;

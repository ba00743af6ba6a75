pub mod zipfile;
pub mod ths;
pub mod soundpack;

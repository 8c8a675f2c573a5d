pub mod paired;

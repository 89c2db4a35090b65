pub mod read;

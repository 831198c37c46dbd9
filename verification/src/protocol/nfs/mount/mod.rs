pub mod mnt;

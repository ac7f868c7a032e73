pub mod arg;
pub mod call;
pub mod composite;
pub mod config;
pub mod debug;
pub mod leafs;
pub mod observer;
pub mod rng;
pub mod serialize;
pub mod text;

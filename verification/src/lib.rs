//! The verified core of a small persistent task-list web service.
//!
//! The library decides; the program around it connects the store, binds the
//! listener and carries bytes. A request is turned into a [`routes::Plan`],
//! the outcome of the store into a [`routes::Response`], and an event of the
//! process into the next [`lifecycle::Phase`]. What the store does with a
//! query is stated by [`store::StoreView`] and carried out in memory by
//! [`store::TaskStore`] and [`service::Service`].

pub mod assets;
pub mod config;
pub mod decimal;
pub mod lifecycle;
pub mod render;
pub mod routes;
pub mod service;
pub mod store;
pub mod task;
pub mod text;

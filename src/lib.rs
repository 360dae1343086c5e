//! An inventory of vehicle parts: the data model, field validation, the
//! storage abstraction and the service that enforces the business rules.

pub mod laws;
pub mod model;
pub mod repository;
pub mod service;
pub mod validation;

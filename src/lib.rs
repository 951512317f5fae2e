//! Session bootstrapper for a tiling compositor: finds and replaces running
//! service instances, and orders the commands that configure the session.
pub mod command;
pub mod plan;
pub mod run;
pub mod scan;
pub mod supervisor;
pub mod text;

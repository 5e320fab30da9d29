//! Launching a distributed program under a multi-target debugger: the launcher
//! command line, the rendezvous that collects each rank's debug endpoint, the
//! attach artifacts built from those endpoints, and the orchestration steps.
pub mod artifact;
pub mod cli;
pub mod helper;
pub mod launch;
pub mod orchestrate;
pub mod rendezvous;
pub mod text;

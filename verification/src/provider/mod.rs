//! Provider adapters: what each back end decides, and the registries that hold them.
pub mod state_machine;
pub mod rootfs_manager;
pub mod routing;
pub mod process_view;
pub mod firecracker;
pub mod firecracker_create;
pub mod gvisor;
pub mod docker;
pub mod podman;
pub mod local;
pub mod wasm;
pub mod watch;
pub mod network;
pub mod config;
pub mod factory;
pub mod registry;
pub mod toml_repository;

//! The decisions behind each intercepted command.

pub mod acquire;
pub mod creation;
pub mod device;
pub mod dispatch;
pub mod display_timing;
pub mod lifetime;
pub mod maintenance;
pub mod native_generation;
pub mod present_chain;
pub mod present_id;
pub mod presentation;
pub mod submission;
pub mod surface;
pub mod swapchain_create;
pub mod swapchain_creation;
pub mod swapchain_metadata;
pub mod swapchain_route;
pub mod wsi_compatibility;

//! The decision logic of a Vulkan layer that scales a game's swapchain to the
//! output it is shown on.

pub mod capture;
pub mod config;
pub mod display;
pub mod gpu;
pub mod input;
pub mod layer;
pub mod motion;
pub mod seqs;
pub mod table;
pub mod text;
pub mod vk;

//! Compositor policy for Gamescope, free of Wayland, Vulkan, DRM and X11 handles.
//!
//! Every module is a state machine or a calculation over plain values. The event
//! loops, protocol dispatchers and device backends that drive them live outside.

pub mod action_binding;
pub mod control;
pub mod drm;
pub mod drm_worker;
pub mod edid;
pub mod environment;
pub mod frame_loop;
pub mod ime;
pub mod input_method;
pub mod input_routing;
pub mod lists;
pub mod modes;
pub mod options;
pub mod output;
pub mod perfetto;
pub mod protocol;
pub mod ratio;
pub mod refresh_rate;
pub mod scaling;
pub mod screenshot;
pub mod server;
pub mod state;
pub mod steam;
pub mod steam_process;
pub mod steam_properties;
pub mod steam_worker;
pub mod swapchain;
pub mod tables;
pub mod text;
pub mod vt;
pub mod window_policy;
pub mod wire;
pub mod xwayland;

//! Decision and data logic of the llm-proxy tray application: the proxy's
//! address and endpoints, the JSON answers of its admin API, the request
//! bodies sent to it, the tray menu, and what each menu event does.

pub mod text;
pub mod json;
pub mod model;
pub mod api;
pub mod menu;
pub mod events;
pub mod state;
pub mod process;

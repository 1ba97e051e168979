pub mod text;
pub mod ip;
pub mod metrics;
pub mod simple_net;
pub mod xs_request;
pub mod xs_std;
pub mod report_text;
pub mod xs_rfc;
pub mod console;
pub mod vif;
pub mod netlink;
pub mod netlink_cache;
pub mod named_pipe;
pub mod pipe_talker;
pub mod os;
pub mod agent;
pub mod win_clipboard;
pub mod wait;
pub mod win_service;
pub mod cache_publish;
pub mod win_app;

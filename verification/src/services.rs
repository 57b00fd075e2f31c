//! The kernel's daemon services: the shell, logging, the GUI command runner and
//! the network daemons.
pub mod shelld;
pub mod completion;
pub mod klogd;
pub mod gui_cmd;
pub mod gpuid;
pub mod netd;
pub mod sysmond;
pub mod httpd;

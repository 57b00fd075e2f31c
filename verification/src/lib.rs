pub mod task;
pub mod scheduler;
pub mod text;
pub mod lock;
pub mod perfstat;
pub mod net;
pub mod services;
pub mod fmt;
pub mod uart;
pub mod uart_dw;
pub mod mmio;
pub mod platform;
pub mod scripting;
pub mod sbi;
pub mod tcpd;
pub mod tls;
pub mod syscall;
pub mod plic;
pub mod trap;
pub mod paging;
pub mod shell;
pub mod tls12;

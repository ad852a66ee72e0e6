//! Opcode handlers: one module per top-level dispatch group, plus the
//! dispatch table itself.

pub mod operations_table;
pub mod opt_1;
pub mod opt_2;
pub mod opt_3;
pub mod opt_4;
pub mod opt_5;
pub mod opt_6;
pub mod opt_7;
pub mod opt_8;
pub mod opt_9;
pub mod opt_a;
pub mod opt_b;
pub mod opt_c;
pub mod opt_d;
pub mod opt_f;

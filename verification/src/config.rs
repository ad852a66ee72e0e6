//! Configuration records and the defaulting rules that turn the entries of a
//! parsed configuration file into a complete `ChipConfig`. Reading and
//! deserialising the file itself is left to the surrounding program, which
//! hands the parsed entries in as plain values.

use vstd::prelude::*;

use crate::chip8::{
    spec_default_config, ChipConfig, DISPLAY_HEIGHT, DISPLAY_WIDTH, EOP_OPT_CODE,
    FIRST_REGISTER_ADDR, PROGRAM_INIT_ADDR, RTI_DEFAULT_ADDR, STACK_CANARY, STACK_INIT_ADDR,
};

verus! {

pub const WINDOW_WIDTH: u32 = 768;

pub const WINDOW_HEIGHT: u32 = 600;

/// The window geometry handed to the renderer.
#[derive(Debug, Clone, Copy, PartialEq, Eq, Structural)]
pub struct DisplayConfig {
    pub window_width: u32,
    pub window_height: u32,
}

/// The whole configuration surface.
#[derive(Debug, Clone, Copy, PartialEq, Eq, Structural)]
pub struct Config {
    pub chip: ChipConfig,
    pub display: DisplayConfig,
}

/// One entry of the configuration file: machine values or window values,
/// each field optional.
#[derive(Debug, Clone, Copy, PartialEq, Eq, Structural)]
pub enum ConfigParserEnum {
    Chip {
        first_register_addr: Option<u16>,
        stack_init_addr: Option<u16>,
        stack_canary: Option<u16>,
        program_init: Option<u16>,
        rti_default_addr: Option<u16>,
        display_height: Option<usize>,
        display_width: Option<usize>,
        eop_opt_code: Option<u16>,
    },
    Display { window_height: Option<u32>, window_width: Option<u32> },
}

/// The entry the resolver consults: the first of the leading two entries
/// that carries machine values, if either does.
pub open spec fn spec_chip_entry(entries: Seq<ConfigParserEnum>) -> Option<ConfigParserEnum> {
    if entries.len() > 0 && entries[0] is Chip {
        Some(entries[0])
    } else if entries.len() > 1 && entries[1] is Chip {
        Some(entries[1])
    } else {
        None
    }
}

/// Machine configuration from the consulted entry: each present field wins,
/// each absent one falls back to its default.
pub open spec fn spec_resolve_chip(entries: Seq<ConfigParserEnum>) -> ChipConfig {
    match spec_chip_entry(entries) {
        Some(e) => match e {
            ConfigParserEnum::Chip {
                first_register_addr,
                stack_init_addr,
                stack_canary,
                program_init,
                rti_default_addr,
                display_height,
                display_width,
                eop_opt_code,
            } => ChipConfig {
                first_register_addr: match first_register_addr {
                    Some(v) => v,
                    None => FIRST_REGISTER_ADDR,
                },
                stack_init_addr: match stack_init_addr {
                    Some(v) => v,
                    None => STACK_INIT_ADDR,
                },
                stack_canary: match stack_canary {
                    Some(v) => v,
                    None => STACK_CANARY,
                },
                program_init: match program_init {
                    Some(v) => v,
                    None => PROGRAM_INIT_ADDR,
                },
                rti_default_addr: match rti_default_addr {
                    Some(v) => v,
                    None => RTI_DEFAULT_ADDR,
                },
                display_height: match display_height {
                    Some(v) => v,
                    None => DISPLAY_HEIGHT,
                },
                display_width: match display_width {
                    Some(v) => v,
                    None => DISPLAY_WIDTH,
                },
                eop_opt_code: match eop_opt_code {
                    Some(v) => v,
                    None => EOP_OPT_CODE,
                },
            },
            ConfigParserEnum::Display { .. } => spec_default_config(),
        },
        None => spec_default_config(),
    }
}

/// Resolve the machine configuration from parsed file entries.
pub fn resolve_chip_config(entries: &Vec<ConfigParserEnum>) -> (c: ChipConfig)
    ensures
        c == spec_resolve_chip(entries@),
{
    let entry: Option<ConfigParserEnum> = if entries.len() > 0 && matches!(
        entries[0],
        ConfigParserEnum::Chip { .. },
    ) {
        Some(entries[0])
    } else if entries.len() > 1 && matches!(entries[1], ConfigParserEnum::Chip { .. }) {
        Some(entries[1])
    } else {
        None
    };
    match entry {
        Some(
            ConfigParserEnum::Chip {
                first_register_addr,
                stack_init_addr,
                stack_canary,
                program_init,
                rti_default_addr,
                display_height,
                display_width,
                eop_opt_code,
            },
        ) => ChipConfig {
            first_register_addr: match first_register_addr {
                Some(v) => v,
                None => FIRST_REGISTER_ADDR,
            },
            stack_init_addr: match stack_init_addr {
                Some(v) => v,
                None => STACK_INIT_ADDR,
            },
            stack_canary: match stack_canary {
                Some(v) => v,
                None => STACK_CANARY,
            },
            program_init: match program_init {
                Some(v) => v,
                None => PROGRAM_INIT_ADDR,
            },
            rti_default_addr: match rti_default_addr {
                Some(v) => v,
                None => RTI_DEFAULT_ADDR,
            },
            display_height: match display_height {
                Some(v) => v,
                None => DISPLAY_HEIGHT,
            },
            display_width: match display_width {
                Some(v) => v,
                None => DISPLAY_WIDTH,
            },
            eop_opt_code: match eop_opt_code {
                Some(v) => v,
                None => EOP_OPT_CODE,
            },
        },
        _ => ChipConfig::defaults(),
    }
}

/// Window geometry from parsed file entries, as the source resolves it: the
/// consulted entry is the machine entry, which carries no window values, so
/// the defaults always stand.
pub open spec fn spec_resolve_display(entries: Seq<ConfigParserEnum>) -> DisplayConfig {
    match spec_chip_entry(entries) {
        Some(e) => match e {
            ConfigParserEnum::Display { window_height, window_width } => DisplayConfig {
                window_height: match window_height {
                    Some(v) => v,
                    None => WINDOW_HEIGHT,
                },
                window_width: match window_width {
                    Some(v) => v,
                    None => WINDOW_WIDTH,
                },
            },
            ConfigParserEnum::Chip { .. } => DisplayConfig {
                window_height: WINDOW_HEIGHT,
                window_width: WINDOW_WIDTH,
            },
        },
        None => DisplayConfig { window_height: WINDOW_HEIGHT, window_width: WINDOW_WIDTH },
    }
}

/// Resolve the window geometry from parsed file entries.
pub fn resolve_display_config(entries: &Vec<ConfigParserEnum>) -> (d: DisplayConfig)
    ensures
        d == spec_resolve_display(entries@),
{
    let entry: Option<ConfigParserEnum> = if entries.len() > 0 && matches!(
        entries[0],
        ConfigParserEnum::Chip { .. },
    ) {
        Some(entries[0])
    } else if entries.len() > 1 && matches!(entries[1], ConfigParserEnum::Chip { .. }) {
        Some(entries[1])
    } else {
        None
    };
    match entry {
        Some(ConfigParserEnum::Display { window_height, window_width }) => DisplayConfig {
            window_height: match window_height {
                Some(v) => v,
                None => WINDOW_HEIGHT,
            },
            window_width: match window_width {
                Some(v) => v,
                None => WINDOW_WIDTH,
            },
        },
        _ => DisplayConfig { window_height: WINDOW_HEIGHT, window_width: WINDOW_WIDTH },
    }
}

} // verus!

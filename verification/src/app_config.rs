//! What the application remembers of its window from run to run, and how it
//! is stored.

use vstd::bytes::{
    lemma_auto_spec_u32_to_from_le_bytes, spec_u32_from_le_bytes, spec_u32_to_le_bytes,
    u32_from_le_bytes, u32_to_le_bytes,
};
use vstd::prelude::*;
use vstd::slice::slice_subrange;

verus! {

/// A size as it is stored: width, then height, each as four bytes, lowest
/// byte first.
pub open spec fn size_bytes(size: (u32, u32)) -> Seq<u8> {
    spec_u32_to_le_bytes(size.0) + spec_u32_to_le_bytes(size.1)
}

/// The size that eight stored bytes stand for.
pub open spec fn size_from_bytes(bytes: Seq<u8>) -> (u32, u32) {
    (spec_u32_from_le_bytes(bytes.subrange(0, 4)), spec_u32_from_le_bytes(bytes.subrange(4, 8)))
}

/// Stores a size.
fn write_size(bytes: &mut Vec<u8>, size: (u32, u32))
    ensures
        final(bytes)@ == old(bytes)@ + size_bytes(size),
{
    let mut width = u32_to_le_bytes(size.0);
    let mut height = u32_to_le_bytes(size.1);
    bytes.append(&mut width);
    bytes.append(&mut height);
    assert(bytes@ =~= old(bytes)@ + size_bytes(size));
}

/// Reads a stored size.
fn read_size(bytes: &[u8]) -> (size: (u32, u32))
    requires
        bytes@.len() == 8,
    ensures
        size == size_from_bytes(bytes@),
{
    let width = u32_from_le_bytes(slice_subrange(bytes, 0, 4));
    let height = u32_from_le_bytes(slice_subrange(bytes, 4, 8));
    (width, height)
}

/// The window's geometry.
#[derive(Clone, Copy, Debug)]
pub struct WindowConfig {
    /// Width and height in physical pixels.
    pub size: (u32, u32),
}

/// The geometry of the monitor that a fullscreen window covers.
#[derive(Clone, Copy, Debug)]
pub struct MonitorConfig {
    /// Width and height in physical pixels.
    pub size: (u32, u32),
}

/// The configuration that is read at start-up and written back whenever the
/// window's size changes.
#[derive(Clone, Copy, Debug)]
pub struct AppConfig {
    pub window_config: WindowConfig,
    pub monitor_config: Option<MonitorConfig>,
}

impl AppConfig {
    /// The configuration once the window has the given size: the window and,
    /// where there is one, the monitor are noted with it.
    pub open spec fn spec_resized(self, size: (u32, u32)) -> AppConfig {
        AppConfig {
            window_config: WindowConfig { size },
            monitor_config: match self.monitor_config {
                Some(_) => Some(MonitorConfig { size }),
                None => None,
            },
        }
    }

    /// The configuration as it is stored: the window's size, then one byte
    /// that says whether a monitor follows, then the monitor's size if there
    /// is one. Nine bytes or seventeen.
    pub open spec fn spec_to_bytes(self) -> Seq<u8> {
        size_bytes(self.window_config.size) + (match self.monitor_config {
            None => seq![0u8],
            Some(monitor) => seq![1u8] + size_bytes(monitor.size),
        })
    }

    /// The configuration that stored bytes stand for, if they stand for one.
    pub open spec fn spec_from_bytes(bytes: Seq<u8>) -> Option<AppConfig> {
        if bytes.len() == 9 && bytes[8] == 0 {
            Some(
                AppConfig {
                    window_config: WindowConfig { size: size_from_bytes(bytes.subrange(0, 8)) },
                    monitor_config: None,
                },
            )
        } else if bytes.len() == 17 && bytes[8] == 1 {
            Some(
                AppConfig {
                    window_config: WindowConfig { size: size_from_bytes(bytes.subrange(0, 8)) },
                    monitor_config: Some(
                        MonitorConfig { size: size_from_bytes(bytes.subrange(9, 17)) },
                    ),
                },
            )
        } else {
            None
        }
    }

    /// The configuration as it is stored.
    pub fn to_bytes(&self) -> (bytes: Vec<u8>)
        ensures
            bytes@ == self.spec_to_bytes(),
    {
        let mut bytes: Vec<u8> = Vec::new();
        write_size(&mut bytes, self.window_config.size);
        match self.monitor_config {
            None => {
                bytes.push(0);
            },
            Some(monitor) => {
                bytes.push(1);
                write_size(&mut bytes, monitor.size);
            },
        }
        assert(bytes@ =~= self.spec_to_bytes());
        bytes
    }

    /// Reads a stored configuration. Bytes that no configuration is stored as
    /// are refused.
    pub fn from_bytes(bytes: &[u8]) -> (config: Option<AppConfig>)
        ensures
            config == AppConfig::spec_from_bytes(bytes@),
    {
        if bytes.len() == 9 && bytes[8] == 0 {
            let window = read_size(slice_subrange(bytes, 0, 8));
            Some(AppConfig { window_config: WindowConfig { size: window }, monitor_config: None })
        } else if bytes.len() == 17 && bytes[8] == 1 {
            let window = read_size(slice_subrange(bytes, 0, 8));
            let monitor = read_size(slice_subrange(bytes, 9, 17));
            Some(
                AppConfig {
                    window_config: WindowConfig { size: window },
                    monitor_config: Some(MonitorConfig { size: monitor }),
                },
            )
        } else {
            None
        }
    }

    /// The configuration once the window has the given size.
    #[verifier::when_used_as_spec(spec_resized)]
    pub fn resized(self, size: (u32, u32)) -> (config: AppConfig)
        ensures
            config == self.spec_resized(size),
    {
        AppConfig {
            window_config: WindowConfig { size },
            monitor_config: match self.monitor_config {
                Some(_) => Some(MonitorConfig { size }),
                None => None,
            },
        }
    }
}

/// Eight stored bytes and the size they stand for determine each other.
pub proof fn lemma_size_bytes_round_trip(size: (u32, u32), bytes: Seq<u8>)
    ensures
        size_bytes(size).len() == 8,
        size_from_bytes(size_bytes(size)) == size,
        bytes.len() == 8 ==> size_bytes(size_from_bytes(bytes)) == bytes,
{
    lemma_auto_spec_u32_to_from_le_bytes();
    let stored = size_bytes(size);
    assert(stored.subrange(0, 4) =~= spec_u32_to_le_bytes(size.0));
    assert(stored.subrange(4, 8) =~= spec_u32_to_le_bytes(size.1));
    if bytes.len() == 8 {
        assert(bytes.subrange(0, 4).len() == 4);
        assert(bytes.subrange(4, 8).len() == 4);
        assert(size_bytes(size_from_bytes(bytes)) =~= bytes.subrange(0, 4) + bytes.subrange(4, 8));
        assert(bytes.subrange(0, 4) + bytes.subrange(4, 8) =~= bytes);
    }
}

/// What is stored is read back as it was: every configuration is read back
/// from its bytes, and bytes that are read as a configuration are the bytes
/// of that configuration.
pub proof fn lemma_config_bytes_round_trip(config: AppConfig, bytes: Seq<u8>)
    ensures
        AppConfig::spec_from_bytes(config.spec_to_bytes()) == Some(config),
        AppConfig::spec_from_bytes(bytes) matches Some(read) ==> read.spec_to_bytes() == bytes,
{
    let stored = config.spec_to_bytes();
    lemma_size_bytes_round_trip(config.window_config.size, stored.subrange(0, 8));
    assert(stored.subrange(0, 8) =~= size_bytes(config.window_config.size));
    match config.monitor_config {
        None => {
            assert(stored.len() == 9 && stored[8] == 0);
        },
        Some(monitor) => {
            lemma_size_bytes_round_trip(monitor.size, stored.subrange(9, 17));
            assert(stored.len() == 17 && stored[8] == 1);
            assert(stored.subrange(9, 17) =~= size_bytes(monitor.size));
        },
    }
    match AppConfig::spec_from_bytes(bytes) {
        Some(read) => {
            lemma_size_bytes_round_trip(read.window_config.size, bytes.subrange(0, 8));
            if bytes.len() == 9 {
                assert(read.spec_to_bytes() =~= bytes.subrange(0, 8) + seq![0u8]);
                assert(bytes.subrange(0, 8) + seq![0u8] =~= bytes);
            } else {
                lemma_size_bytes_round_trip(read.window_config.size, bytes.subrange(9, 17));
                assert(read.spec_to_bytes() =~= bytes.subrange(0, 8) + (seq![1u8] + bytes.subrange(
                    9,
                    17,
                )));
                assert(bytes.subrange(0, 8) + (seq![1u8] + bytes.subrange(9, 17)) =~= bytes);
            }
        },
        None => {},
    }
}

} // verus!

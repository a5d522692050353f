//! Process configuration: server bind address and camera geometry, with the
//! fixed defaults and the rule for overriding them from externally supplied
//! text values.

use vstd::prelude::*;

use crate::digits::parse_u16;
use crate::digits::parse_u32;
use crate::digits::spec_parse_u16;
use crate::digits::spec_parse_u32;

verus! {

/// Default server bind port.
pub const DEFAULT_PORT: u16 = 8080;

/// Default capture width in pixels.
pub const DEFAULT_WIDTH: u32 = 640;

/// Default capture height in pixels.
pub const DEFAULT_HEIGHT: u32 = 480;

/// Default stream framerate in frames per second.
pub const DEFAULT_FRAMERATE: u32 = 15;

/// Where the HTTP server binds.
#[derive(Debug, Clone)]
pub struct ServerConfig {
    pub host: String,
    pub port: u16,
}

/// Camera geometry and rate, fixed for the process lifetime.
#[derive(Debug, Clone)]
pub struct CameraConfig {
    pub width: u32,
    pub height: u32,
    pub framerate: u32,
}

/// Whole-process configuration.
#[derive(Debug, Clone)]
pub struct Config {
    pub server: ServerConfig,
    pub camera: CameraConfig,
}

impl Default for Config {
    /// The built-in defaults: bind everywhere on port 8080, 640x480 at 15 fps.
    fn default() -> (c: Self)
        ensures
            c.server.host@ == "0.0.0.0"@,
            c.server.port == DEFAULT_PORT,
            c.camera.width == DEFAULT_WIDTH,
            c.camera.height == DEFAULT_HEIGHT,
            c.camera.framerate == DEFAULT_FRAMERATE,
    {
        Config {
            server: ServerConfig { host: "0.0.0.0".to_owned(), port: DEFAULT_PORT },
            camera: CameraConfig {
                width: DEFAULT_WIDTH,
                height: DEFAULT_HEIGHT,
                framerate: DEFAULT_FRAMERATE,
            },
        }
    }
}

impl Config {
    /// Build a configuration from the defaults and externally supplied
    /// override texts, one per setting, each given only when present. The
    /// host is taken verbatim; every numeric setting is taken exactly when its
    /// text parses as a decimal numeral in range, and keeps its default
    /// otherwise.
    pub fn from_overrides(
        host: Option<String>,
        port: Option<String>,
        width: Option<String>,
        height: Option<String>,
        framerate: Option<String>,
    ) -> (c: Config)
        ensures
            c.server.host@ == (match host {
                Some(h) => h@,
                None => "0.0.0.0"@,
            }),
            c.server.port == (match port {
                Some(p) => match spec_parse_u16(p@) {
                    Some(v) => v,
                    None => DEFAULT_PORT,
                },
                None => DEFAULT_PORT,
            }),
            c.camera.width == (match width {
                Some(w) => match spec_parse_u32(w@) {
                    Some(v) => v,
                    None => DEFAULT_WIDTH,
                },
                None => DEFAULT_WIDTH,
            }),
            c.camera.height == (match height {
                Some(h) => match spec_parse_u32(h@) {
                    Some(v) => v,
                    None => DEFAULT_HEIGHT,
                },
                None => DEFAULT_HEIGHT,
            }),
            c.camera.framerate == (match framerate {
                Some(f) => match spec_parse_u32(f@) {
                    Some(v) => v,
                    None => DEFAULT_FRAMERATE,
                },
                None => DEFAULT_FRAMERATE,
            }),
    {
        let mut c = Config::default();
        if let Some(h) = host {
            c.server.host = h;
        }
        if let Some(p) = port {
            if let Some(v) = parse_u16(p.as_str()) {
                c.server.port = v;
            }
        }
        if let Some(w) = width {
            if let Some(v) = parse_u32(w.as_str()) {
                c.camera.width = v;
            }
        }
        if let Some(h) = height {
            if let Some(v) = parse_u32(h.as_str()) {
                c.camera.height = v;
            }
        }
        if let Some(f) = framerate {
            if let Some(v) = parse_u32(f.as_str()) {
                c.camera.framerate = v;
            }
        }
        c
    }
}

} // verus!

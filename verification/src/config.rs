//! The server's configuration and its defaults.
use vstd::prelude::*;
use crate::text::owned;
use crate::types::RangeScreenshotPick;

verus! {

#[derive(Debug, Clone)]
pub struct AppConfig {
    pub server: ServerConfig,
    pub pipe: PipeConfig,
    pub screenshot: ScreenshotConfig,
    pub audio: AudioConfig,
    pub lines: LinesConfig,
    pub assets: AssetsConfig,
    pub mining: MiningConfig,
    pub anki: AnkiConfig,
    pub storage: StorageConfig,
}

#[derive(Debug, Clone)]
pub struct ServerConfig {
    pub bind: String,
}

#[derive(Debug, Clone)]
pub struct PipeConfig {
    pub name: String,
}

#[derive(Debug, Clone)]
pub struct ScreenshotConfig {
    pub backend: String,
}

#[derive(Debug, Clone)]
pub struct AudioConfig {
    pub backend: String,
}

#[derive(Debug, Clone, Copy)]
pub struct LinesConfig {
    pub join_progressive_text: bool,
}

#[derive(Debug, Clone, Copy)]
pub struct AssetsConfig {
    pub ttl_minutes: u64,
    pub max_storage_mb: u64,
}

/// Mining settings; `ffmpeg_path` is a file system path.
#[derive(Debug, Clone)]
pub struct MiningConfig {
    pub screenshot_quality: u8,
    pub audio_bitrate_kbps: u32,
    pub ffmpeg_path: Option<String>,
}

#[derive(Debug, Clone)]
pub struct AnkiConfig {
    pub range_sentence_separator: String,
    pub range_screenshot_pick: RangeScreenshotPick,
}

/// Storage settings; `data_dir` is a file system path.
#[derive(Debug, Clone)]
pub struct StorageConfig {
    pub data_dir: Option<String>,
}

impl Default for ServerConfig {
    fn default() -> (c: Self)
        ensures
            c.bind@ == "0.0.0.0:7788"@,
    {
        ServerConfig { bind: owned("0.0.0.0:7788") }
    }
}

impl Default for PipeConfig {
    fn default() -> (c: Self)
        ensures
            c.name@ == "auto"@,
    {
        PipeConfig { name: owned("auto") }
    }
}

impl Default for ScreenshotConfig {
    fn default() -> (c: Self)
        ensures
            c.backend@ == "auto"@,
    {
        ScreenshotConfig { backend: owned("auto") }
    }
}

impl Default for AudioConfig {
    fn default() -> (c: Self)
        ensures
            c.backend@ == "auto"@,
    {
        AudioConfig { backend: owned("auto") }
    }
}

impl Default for LinesConfig {
    fn default() -> (c: Self)
        ensures
            c.join_progressive_text,
    {
        LinesConfig { join_progressive_text: true }
    }
}

impl Default for AssetsConfig {
    fn default() -> (c: Self)
        ensures
            c.ttl_minutes == 120,
            c.max_storage_mb == 1024,
    {
        AssetsConfig { ttl_minutes: 120, max_storage_mb: 1024 }
    }
}

impl Default for MiningConfig {
    fn default() -> (c: Self)
        ensures
            c.screenshot_quality == 85,
            c.audio_bitrate_kbps == 96,
            c.ffmpeg_path is None,
    {
        MiningConfig { screenshot_quality: 85, audio_bitrate_kbps: 96, ffmpeg_path: None }
    }
}

impl Default for AnkiConfig {
    fn default() -> (c: Self)
        ensures
            c.range_sentence_separator@ == " "@,
            c.range_screenshot_pick == RangeScreenshotPick::Last,
    {
        AnkiConfig {
            range_sentence_separator: owned(" "),
            range_screenshot_pick: RangeScreenshotPick::Last,
        }
    }
}

impl Default for StorageConfig {
    fn default() -> (c: Self)
        ensures
            c.data_dir is None,
    {
        StorageConfig { data_dir: None }
    }
}

impl Default for AppConfig {
    fn default() -> (c: Self)
        ensures
            c.server.bind@ == "0.0.0.0:7788"@,
            c.pipe.name@ == "auto"@,
            c.screenshot.backend@ == "auto"@,
            c.audio.backend@ == "auto"@,
            c.lines.join_progressive_text,
            c.assets.ttl_minutes == 120,
            c.assets.max_storage_mb == 1024,
            c.mining.screenshot_quality == 85,
            c.mining.audio_bitrate_kbps == 96,
            c.mining.ffmpeg_path is None,
            c.anki.range_sentence_separator@ == " "@,
            c.anki.range_screenshot_pick == RangeScreenshotPick::Last,
            c.storage.data_dir is None,
    {
        AppConfig {
            server: ServerConfig::default(),
            pipe: PipeConfig::default(),
            screenshot: ScreenshotConfig::default(),
            audio: AudioConfig::default(),
            lines: LinesConfig::default(),
            assets: AssetsConfig::default(),
            mining: MiningConfig::default(),
            anki: AnkiConfig::default(),
            storage: StorageConfig::default(),
        }
    }
}

impl AudioConfig {
    pub fn duplicate(&self) -> (r: Self)
        ensures
            r == *self,
    {
        AudioConfig { backend: self.backend.clone() }
    }
}

impl AppConfig {
    /// A copy of the configuration.
    pub fn duplicate(&self) -> (r: Self)
        ensures
            r == *self,
    {
        AppConfig {
            server: ServerConfig { bind: self.server.bind.clone() },
            pipe: PipeConfig { name: self.pipe.name.clone() },
            screenshot: ScreenshotConfig { backend: self.screenshot.backend.clone() },
            audio: self.audio.duplicate(),
            lines: self.lines,
            assets: self.assets,
            mining: MiningConfig {
                screenshot_quality: self.mining.screenshot_quality,
                audio_bitrate_kbps: self.mining.audio_bitrate_kbps,
                ffmpeg_path: crate::types::copy_opt_string(&self.mining.ffmpeg_path),
            },
            anki: AnkiConfig {
                range_sentence_separator: self.anki.range_sentence_separator.clone(),
                range_screenshot_pick: self.anki.range_screenshot_pick,
            },
            storage: StorageConfig { data_dir: crate::types::copy_opt_string(&self.storage.data_dir) },
        }
    }

    /// The configuration with the settings that the browser may edit replaced.
    pub fn with_editable(&self, audio: AudioConfig, lines: LinesConfig) -> (r: Self)
        ensures
            r == (AppConfig { audio, lines, ..*self }),
    {
        let mut updated = self.duplicate();
        updated.audio = audio;
        updated.lines = lines;
        updated
    }

    /// The relative path of the configuration file that the server looks for first,
    /// with `/` between its components.
    pub fn default_path() -> (p: String)
        ensures
            p@ == "config/bridge.toml"@,
    {
        owned("config/bridge.toml")
    }
}

} // verus!

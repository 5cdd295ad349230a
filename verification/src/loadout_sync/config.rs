//! The automatic loadout's tuning parameters (the `loadout_sync` section of
//! the configuration) and their repair after a hand edit.
//!
//! The recognition threshold is a floating-point parameter and is repaired
//! by the application.
use vstd::prelude::*;

verus! {

/// One wheel notch.
pub const WHEEL_UNIT: i32 = 120;

/// The tuning parameters read by the automatic loadout (all but the
/// recognition threshold).
#[derive(Debug, Clone, Copy, PartialEq, Eq)]
pub struct LoadoutSyncConfig {
    /// Normal scroll amount (wheel units).
    pub scroll_delta: i32,
    /// Boundary probe scroll amount.
    pub scroll_probe_delta: i32,
    /// Longest wait for a hover to take effect (ms).
    pub hover_timeout_ms: u64,
    /// Longest wait for a click to be confirmed (ms).
    pub selection_timeout_ms: u64,
    /// Longest wait for a list to open (ms).
    pub list_timeout_ms: u64,
    /// Longest wait for the loadout home to settle (ms).
    pub home_timeout_ms: u64,
    /// Most scrolls in one target search.
    pub max_scroll_attempts: u32,
    /// Most retries of one step (click, hover, opening a list).
    pub max_retry_attempts: u32,
    /// Hard timeout of the whole run (ms).
    pub total_timeout_ms: u64,
    /// Whether a game loadout that already has stratagems may be overwritten.
    pub allow_overwrite_filled: bool,
    /// Whether debug screenshots are saved on failure.
    pub debug_screenshots: bool,
    /// Whether recognition overlays are drawn on debug screenshots.
    pub debug_overlay: bool,
}

/// `v` brought into `lo..=hi`.
pub open spec fn clamp_spec(v: int, lo: int, hi: int) -> int {
    if v < lo {
        lo
    } else if v > hi {
        hi
    } else {
        v
    }
}

/// The repaired parameters: every integer parameter is brought into its
/// range, the probe never scrolls further than a normal scroll, and the
/// flags are kept.
pub open spec fn sanitized(c: LoadoutSyncConfig) -> LoadoutSyncConfig {
    let scroll = clamp_spec(c.scroll_delta as int, WHEEL_UNIT as int, 10 * WHEEL_UNIT as int);
    LoadoutSyncConfig {
        scroll_delta: scroll as i32,
        scroll_probe_delta: clamp_spec(c.scroll_probe_delta as int, 1, scroll) as i32,
        hover_timeout_ms: clamp_spec(c.hover_timeout_ms as int, 100, 5_000) as u64,
        selection_timeout_ms: clamp_spec(c.selection_timeout_ms as int, 200, 10_000) as u64,
        list_timeout_ms: clamp_spec(c.list_timeout_ms as int, 200, 10_000) as u64,
        home_timeout_ms: clamp_spec(c.home_timeout_ms as int, 200, 10_000) as u64,
        max_scroll_attempts: clamp_spec(c.max_scroll_attempts as int, 1, 60) as u32,
        max_retry_attempts: clamp_spec(c.max_retry_attempts as int, 1, 8) as u32,
        total_timeout_ms: clamp_spec(c.total_timeout_ms as int, 2_000, 120_000) as u64,
        ..c
    }
}

fn clamp_i32(v: i32, lo: i32, hi: i32) -> (r: i32)
    requires
        lo <= hi,
    ensures
        r == clamp_spec(v as int, lo as int, hi as int),
{
    if v < lo {
        lo
    } else if v > hi {
        hi
    } else {
        v
    }
}

fn clamp_u64(v: u64, lo: u64, hi: u64) -> (r: u64)
    requires
        lo <= hi,
    ensures
        r == clamp_spec(v as int, lo as int, hi as int),
{
    if v < lo {
        lo
    } else if v > hi {
        hi
    } else {
        v
    }
}

fn clamp_u32(v: u32, lo: u32, hi: u32) -> (r: u32)
    requires
        lo <= hi,
    ensures
        r == clamp_spec(v as int, lo as int, hi as int),
{
    if v < lo {
        lo
    } else if v > hi {
        hi
    } else {
        v
    }
}

impl Default for LoadoutSyncConfig {
    /// The defaults.
    fn default() -> (r: LoadoutSyncConfig)
        ensures
            r == (LoadoutSyncConfig {
                scroll_delta: 600,
                scroll_probe_delta: WHEEL_UNIT,
                hover_timeout_ms: 800,
                selection_timeout_ms: 1500,
                list_timeout_ms: 1500,
                home_timeout_ms: 1500,
                max_scroll_attempts: 24,
                max_retry_attempts: 3,
                total_timeout_ms: 20_000,
                allow_overwrite_filled: false,
                debug_screenshots: false,
                debug_overlay: false,
            }),
    {
        LoadoutSyncConfig {
            scroll_delta: 600,
            scroll_probe_delta: WHEEL_UNIT,
            hover_timeout_ms: 800,
            selection_timeout_ms: 1500,
            list_timeout_ms: 1500,
            home_timeout_ms: 1500,
            max_scroll_attempts: 24,
            max_retry_attempts: 3,
            total_timeout_ms: 20_000,
            allow_overwrite_filled: false,
            debug_screenshots: false,
            debug_overlay: false,
        }
    }
}

impl LoadoutSyncConfig {
    /// Repairs values a hand edit made invalid, so that nothing retries
    /// without end or waits without bound (see `sanitized`).
    pub fn sanitize(self) -> (r: LoadoutSyncConfig)
        ensures
            r == sanitized(self),
            WHEEL_UNIT <= r.scroll_delta <= 10 * WHEEL_UNIT,
            1 <= r.scroll_probe_delta <= r.scroll_delta,
            1 <= r.max_scroll_attempts <= 60,
            1 <= r.max_retry_attempts <= 8,
            2_000 <= r.total_timeout_ms <= 120_000,
    {
        let scroll = clamp_i32(self.scroll_delta, WHEEL_UNIT, 10 * WHEEL_UNIT);
        LoadoutSyncConfig {
            scroll_delta: scroll,
            scroll_probe_delta: clamp_i32(self.scroll_probe_delta, 1, scroll),
            hover_timeout_ms: clamp_u64(self.hover_timeout_ms, 100, 5_000),
            selection_timeout_ms: clamp_u64(self.selection_timeout_ms, 200, 10_000),
            list_timeout_ms: clamp_u64(self.list_timeout_ms, 200, 10_000),
            home_timeout_ms: clamp_u64(self.home_timeout_ms, 200, 10_000),
            max_scroll_attempts: clamp_u32(self.max_scroll_attempts, 1, 60),
            max_retry_attempts: clamp_u32(self.max_retry_attempts, 1, 8),
            total_timeout_ms: clamp_u64(self.total_timeout_ms, 2_000, 120_000),
            ..self
        }
    }
}

/// Repairing twice changes nothing more than repairing once.
pub proof fn lemma_sanitize_idempotent(c: LoadoutSyncConfig)
    ensures
        sanitized(sanitized(c)) == sanitized(c),
{
}

} // verus!

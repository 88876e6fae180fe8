//! Decisions of the appearance cache: for one pixel layer, whether its
//! cached appearance is served as it is, whether its filter chain runs
//! again and whether the coverage of its masks is combined again, with
//! the counters the cache keeps. The unmasked image (source through the
//! filters) and the mask coverage are held apart, so that an edit made
//! only to masks never runs the filter chain again.
//!
//! The signatures of a filter chain and of a list of masks, and whether
//! the source image is still the one the entry was computed from (the
//! same shared buffer), are computed by the renderer and handed in.

use vstd::prelude::*;

verus! {

/// The keys an appearance was computed under.
#[derive(Debug, Clone, Copy, PartialEq, Eq, Structural)]
pub struct CacheKeys {
    /// Signature of the ordered filter chain.
    pub filter_signature: u64,
    /// Signature of the masks (which are on, their versions).
    pub mask_signature: u64,
}

/// What to do to give a layer its appearance.
#[derive(Debug, Clone, Copy, PartialEq, Eq, Structural)]
pub struct AppearancePlan {
    /// The cached appearance is served as it is: nothing is computed.
    pub reuse_appearance: bool,
    /// The filter chain runs again on the source (else the cached
    /// unmasked image is reused).
    pub run_chain: bool,
    /// The coverage of the active masks is combined again (else the cached
    /// coverage is reused).
    pub combine_cover: bool,
}

/// Counters of the cache (they change nothing that is drawn).
#[derive(Debug, Clone, Copy, PartialEq, Eq, Structural)]
pub struct AppearanceStats {
    /// Lookups served without running the filter chain.
    pub hits: u64,
    /// Lookups that ran the filter chain.
    pub misses: u64,
    /// Previews resampled.
    pub preview_rebuilds: u64,
    /// Thumbnails resampled.
    pub thumb_rebuilds: u64,
}

impl Default for AppearanceStats {
    fn default() -> (s: AppearanceStats)
        ensures
            s == (AppearanceStats { hits: 0, misses: 0, preview_rebuilds: 0, thumb_rebuilds: 0 }),
    {
        AppearanceStats { hits: 0, misses: 0, preview_rebuilds: 0, thumb_rebuilds: 0 }
    }
}

/// A counter advanced by one (wrapping).
pub open spec fn bumped(n: u64) -> u64 {
    if n == u64::MAX {
        0
    } else {
        (n + 1) as u64
    }
}

/// The plan for a layer whose entry was computed under `cached` (`None`
/// when the cache holds none), now under the keys `current`, its source
/// being the one of the entry or not (`same_source`):
/// - everything the same: the appearance is served as it is;
/// - else the chain runs again unless the entry has the same filter
///   signature and the same source; the coverage is combined again unless
///   the entry has the same mask signature.
pub open spec fn appearance_plan(cached: Option<CacheKeys>, same_source: bool, current: CacheKeys) -> AppearancePlan {
    match cached {
        Some(k) => if k == current && same_source {
            AppearancePlan { reuse_appearance: true, run_chain: false, combine_cover: false }
        } else {
            AppearancePlan {
                reuse_appearance: false,
                run_chain: !(k.filter_signature == current.filter_signature && same_source),
                combine_cover: k.mask_signature != current.mask_signature,
            }
        },
        None => AppearancePlan { reuse_appearance: false, run_chain: true, combine_cover: true },
    }
}

/// The counters after a plan: a served appearance or a reused unmasked
/// image is a hit, a chain run a miss; every appearance not served as it
/// is resamples its preview and its thumbnail.
pub open spec fn stats_after(s: AppearanceStats, p: AppearancePlan) -> AppearanceStats {
    if p.reuse_appearance {
        AppearanceStats { hits: bumped(s.hits), ..s }
    } else {
        AppearanceStats {
            hits: if p.run_chain {
                s.hits
            } else {
                bumped(s.hits)
            },
            misses: if p.run_chain {
                bumped(s.misses)
            } else {
                s.misses
            },
            preview_rebuilds: bumped(s.preview_rebuilds),
            thumb_rebuilds: bumped(s.thumb_rebuilds),
        }
    }
}

/// A counter advanced by one, wrapping.
fn bump(n: u64) -> (r: u64)
    ensures
        r == bumped(n),
{
    if n == u64::MAX {
        0
    } else {
        n + 1
    }
}

impl AppearanceStats {
    /// Decides how the layer gets its appearance and counts it. The entry
    /// of the layer then holds the keys `current`.
    pub fn plan_appearance(&mut self, cached: Option<CacheKeys>, same_source: bool, current: CacheKeys) -> (p:
        AppearancePlan)
        ensures
            p == appearance_plan(cached, same_source, current),
            *final(self) == stats_after(*old(self), p),
    {
        let p = match cached {
            Some(k) => if k.filter_signature == current.filter_signature && k.mask_signature
                == current.mask_signature && same_source {
                AppearancePlan { reuse_appearance: true, run_chain: false, combine_cover: false }
            } else {
                AppearancePlan {
                    reuse_appearance: false,
                    run_chain: !(k.filter_signature == current.filter_signature && same_source),
                    combine_cover: k.mask_signature != current.mask_signature,
                }
            },
            None => AppearancePlan { reuse_appearance: false, run_chain: true, combine_cover: true },
        };
        if p.reuse_appearance {
            self.hits = bump(self.hits);
        } else {
            if p.run_chain {
                self.misses = bump(self.misses);
            } else {
                self.hits = bump(self.hits);
            }
            self.preview_rebuilds = bump(self.preview_rebuilds);
            self.thumb_rebuilds = bump(self.thumb_rebuilds);
        }
        p
    }
}

/// An edit made only to the masks of a layer (same filter signature, same
/// source) never runs its filter chain again: the cached unmasked image is
/// reused and only the coverage is combined again.
pub proof fn law_mask_edit_keeps_chain(cached: CacheKeys, current: CacheKeys, same_source: bool)
    requires
        cached.filter_signature == current.filter_signature,
        same_source,
    ensures
        !appearance_plan(Some(cached), same_source, current).run_chain,
        cached.mask_signature != current.mask_signature ==> appearance_plan(
            Some(cached),
            same_source,
            current,
        ).combine_cover,
{
}

/// A second lookup under the keys the first one stored, on the same
/// source, serves the appearance as it is: nothing runs, nothing is
/// resampled.
pub proof fn law_second_lookup_is_served(current: CacheKeys)
    ensures
        appearance_plan(Some(current), true, current).reuse_appearance,
        !appearance_plan(Some(current), true, current).run_chain,
        !appearance_plan(Some(current), true, current).combine_cover,
{
}

} // verus!

//! Resolution of optional settings, and the effective output block.

use vstd::prelude::*;
use super::policy::{
    BackgroundPolicy, DeterminismMode, GeometryMode, GradientMode, PaletteMode, Precision,
    StrokeMode,
};
use crate::error::ConfigError;
use super::profile::{Modifier, has_modifier};

verus! {

/// Where an effective value came from.
#[derive(Debug, Clone, Copy, PartialEq, Eq, Structural)]
pub enum SettingSource {
    /// The profile's declared default.
    Profile,
    /// The caller set it explicitly.
    User,
    /// Chosen from image evidence, and therefore also reported as an automatic
    /// decision.
    AutoAnalysis,
    /// A documented fallback taken after something else failed or was
    /// unavailable.
    Fallback,
}

/// Resolved output settings.
#[derive(Debug, Clone, Copy, PartialEq, Eq)]
pub struct EffectiveOutput {
    /// Coordinate precision policy.
    pub precision: Precision,
    /// Whether metadata is emitted.
    pub metadata: bool,
    /// Whether output is indented.
    pub pretty: bool,
    /// Whether the output gates run.
    pub validate_output: bool,
}

/// Settings that a modifier stands for.
#[derive(Debug, Clone, Copy, PartialEq, Eq)]
pub struct ImpliedSettings {
    /// From `shared-mosaic`, else `stacked-layers`.
    pub geometry_mode: Option<GeometryMode>,
    /// From `transparent-background`.
    pub background: Option<BackgroundPolicy>,
    /// From `exact-palette`.
    pub palette_mode: Option<PaletteMode>,
    /// From `strict-determinism`.
    pub determinism: Option<DeterminismMode>,
}

/// Resolve one setting: the caller's value if present, else the profile's,
/// with the source of the value.
pub fn pick_setting<T>(user: Option<T>, profile_default: T) -> (r: (T, SettingSource))
    ensures
        match user {
            Some(v) => r == (v, SettingSource::User),
            None => r == (profile_default, SettingSource::Profile),
        },
{
    match user {
        Some(v) => (v, SettingSource::User),
        None => (profile_default, SettingSource::Profile),
    }
}

/// Resolve one setting in order of precedence: the caller's value, else the
/// value an active modifier implies, else the profile's. A value a modifier
/// implies is recorded as the caller's, since the caller chose the modifier.
pub fn pick_with_modifier<T>(user: Option<T>, implied: Option<T>, profile_default: T) -> (r: (
    T,
    SettingSource,
))
    ensures
        match user {
            Some(v) => r == (v, SettingSource::User),
            None => match implied {
                Some(v) => r == (v, SettingSource::User),
                None => r == (profile_default, SettingSource::Profile),
            },
        },
{
    match user {
        Some(v) => (v, SettingSource::User),
        None => pick_setting(implied, profile_default),
    }
}

/// Every modifier, in declaration order, which is the canonical order.
pub open spec fn all_modifiers() -> Seq<Modifier> {
    seq![
        Modifier::ExactPalette,
        Modifier::PreserveAlpha,
        Modifier::TransparentBackground,
        Modifier::SharedMosaic,
        Modifier::StackedLayers,
        Modifier::RecognizePrimitives,
        Modifier::PreferStrokes,
        Modifier::PhysicalScaleKnown,
        Modifier::AllowPortableGradients,
        Modifier::AllowExperimentalShading,
        Modifier::StrictDeterminism,
    ]
}

/// The position of a modifier in the canonical order.
pub open spec fn rank(m: Modifier) -> nat {
    match m {
        Modifier::ExactPalette => 0,
        Modifier::PreserveAlpha => 1,
        Modifier::TransparentBackground => 2,
        Modifier::SharedMosaic => 3,
        Modifier::StackedLayers => 4,
        Modifier::RecognizePrimitives => 5,
        Modifier::PreferStrokes => 6,
        Modifier::PhysicalScaleKnown => 7,
        Modifier::AllowPortableGradients => 8,
        Modifier::AllowExperimentalShading => 9,
        Modifier::StrictDeterminism => 10,
    }
}

/// The distinct members of `modifiers`, in canonical order.
pub open spec fn canonical(modifiers: Seq<Modifier>) -> Seq<Modifier> {
    all_modifiers().filter(|m: Modifier| modifiers.contains(m))
}

/// The active modifiers in canonical order without repeats, so two callers
/// who list them differently get the same effective configuration and the
/// same digest.
pub fn canonical_modifiers(modifiers: &[Modifier]) -> (r: Vec<Modifier>)
    ensures
        r@ == canonical(modifiers@),
        forall|m: Modifier| r@.contains(m) <==> modifiers@.contains(m),
        forall|i: int, j: int| 0 <= i < j < r@.len() ==> rank(r@[i]) < rank(r@[j]),
{
    let all: [Modifier; 11] = [
        Modifier::ExactPalette,
        Modifier::PreserveAlpha,
        Modifier::TransparentBackground,
        Modifier::SharedMosaic,
        Modifier::StackedLayers,
        Modifier::RecognizePrimitives,
        Modifier::PreferStrokes,
        Modifier::PhysicalScaleKnown,
        Modifier::AllowPortableGradients,
        Modifier::AllowExperimentalShading,
        Modifier::StrictDeterminism,
    ];
    let ghost pred = |m: Modifier| modifiers@.contains(m);
    let mut out: Vec<Modifier> = Vec::new();
    let mut i: usize = 0;
    proof {
        assert(all@ =~= all_modifiers());
        assert(all@.take(0).filter(pred) =~= Seq::<Modifier>::empty()) by {
            reveal(Seq::filter);
        }
    }
    while i < 11
        invariant
            i <= 11,
            all@ == all_modifiers(),
            pred == (|m: Modifier| modifiers@.contains(m)),
            out@ == all@.take(i as int).filter(pred),
            forall|k: int| 0 <= k < out@.len() ==> rank(#[trigger] out@[k]) < i,
            forall|m: Modifier| out@.contains(m) <==> (modifiers@.contains(m) && rank(m) < i),
            forall|a: int, b: int| 0 <= a < b < out@.len() ==> rank(out@[a]) < rank(out@[b]),
        decreases 11 - i,
    {
        let m = all[i];
        proof {
            assert(rank(m) == i);
            assert(forall|x: Modifier| rank(x) == i ==> x == m);
            assert(all@.take(i + 1) =~= all@.take(i as int).push(m));
            broadcast use Seq::lemma_filter_push;
        }
        let ghost before = out@;
        let present = has_modifier(modifiers, m);
        if present {
            out.push(m);
        }
        proof {
            assert forall|x: Modifier| out@.contains(x) <==> (modifiers@.contains(x) && rank(x) < i
                + 1) by {
                if x == m {
                    if present {
                        assert(out@[out@.len() - 1] == x);
                    }
                } else {
                    if out@.contains(x) {
                        let k = choose|k: int| 0 <= k < out@.len() && out@[k] == x;
                        assert(before[k] == x);
                    }
                    if before.contains(x) {
                        let k = choose|k: int| 0 <= k < before.len() && before[k] == x;
                        assert(out@[k] == x);
                    }
                }
            }
        }
        i += 1;
    }
    proof {
        assert(all@.take(11) =~= all@);
        assert forall|m: Modifier| rank(m) < 11 by {}
    }
    out
}

/// Two lists of modifiers with the same members have the same canonical
/// form: the order and repetition in which a caller lists modifiers never
/// reaches the effective configuration.
pub proof fn law_canonical_modifiers_ignore_order(a: Seq<Modifier>, b: Seq<Modifier>)
    requires
        forall|m: Modifier| a.contains(m) <==> b.contains(m),
    ensures
        canonical(a) == canonical(b),
{
    assert((|m: Modifier| a.contains(m)) =~= (|m: Modifier| b.contains(m)));
}

/// The settings the active modifiers stand for.
pub open spec fn implied(modifiers: Seq<Modifier>) -> ImpliedSettings {
    ImpliedSettings {
        geometry_mode: if modifiers.contains(Modifier::SharedMosaic) {
            Some(GeometryMode::SharedMosaic)
        } else if modifiers.contains(Modifier::StackedLayers) {
            Some(GeometryMode::Stacked)
        } else {
            None
        },
        background: if modifiers.contains(Modifier::TransparentBackground) {
            Some(BackgroundPolicy::Transparent)
        } else {
            None
        },
        palette_mode: if modifiers.contains(Modifier::ExactPalette) {
            Some(PaletteMode::Fixed)
        } else {
            None
        },
        determinism: if modifiers.contains(Modifier::StrictDeterminism) {
            Some(DeterminismMode::Strict)
        } else {
            None
        },
    }
}

impl ImpliedSettings {
    /// The settings the active modifiers stand for. A modifier is resolved
    /// before the setting it abbreviates, so an explicit setting still wins.
    pub fn from_modifiers(modifiers: &[Modifier]) -> (r: ImpliedSettings)
        ensures
            r == implied(modifiers@),
    {
        let geometry_mode = if has_modifier(modifiers, Modifier::SharedMosaic) {
            Some(GeometryMode::SharedMosaic)
        } else if has_modifier(modifiers, Modifier::StackedLayers) {
            Some(GeometryMode::Stacked)
        } else {
            None
        };
        let background = if has_modifier(modifiers, Modifier::TransparentBackground) {
            Some(BackgroundPolicy::Transparent)
        } else {
            None
        };
        let palette_mode = if has_modifier(modifiers, Modifier::ExactPalette) {
            Some(PaletteMode::Fixed)
        } else {
            None
        };
        let determinism = if has_modifier(modifiers, Modifier::StrictDeterminism) {
            Some(DeterminismMode::Strict)
        } else {
            None
        };
        ImpliedSettings { geometry_mode, background, palette_mode, determinism }
    }
}

/// Each modifier stands for its own setting, whatever else is listed:
/// `transparent-background` makes the background transparent,
/// `exact-palette` fixes the palette, `strict-determinism` makes the run
/// strict, `shared-mosaic` asks for a shared mosaic and, without it,
/// `stacked-layers` for stacked shapes; a setting no listed modifier stands
/// for is left to the caller and the profile.
pub proof fn law_each_modifier_implies_its_setting(modifiers: Seq<Modifier>)
    ensures
        modifiers.contains(Modifier::TransparentBackground) ==> implied(modifiers).background
            == Some(BackgroundPolicy::Transparent),
        !modifiers.contains(Modifier::TransparentBackground) ==> implied(modifiers).background
            is None,
        modifiers.contains(Modifier::ExactPalette) ==> implied(modifiers).palette_mode == Some(
            PaletteMode::Fixed,
        ),
        !modifiers.contains(Modifier::ExactPalette) ==> implied(modifiers).palette_mode is None,
        modifiers.contains(Modifier::StrictDeterminism) ==> implied(modifiers).determinism == Some(
            DeterminismMode::Strict,
        ),
        !modifiers.contains(Modifier::StrictDeterminism) ==> implied(modifiers).determinism is None,
        modifiers.contains(Modifier::SharedMosaic) ==> implied(modifiers).geometry_mode == Some(
            GeometryMode::SharedMosaic,
        ),
        !modifiers.contains(Modifier::SharedMosaic) && modifiers.contains(Modifier::StackedLayers)
            ==> implied(modifiers).geometry_mode == Some(GeometryMode::Stacked),
        !modifiers.contains(Modifier::SharedMosaic) && !modifiers.contains(Modifier::StackedLayers)
            ==> implied(modifiers).geometry_mode is None,
{
}

/// A setting a modifier stands for reaches the effective configuration when
/// the caller gave none, and is recorded as the caller's choice: with
/// `transparent-background` listed and no background given, the background
/// is transparent, whatever the profile's default.
pub proof fn law_implied_setting_is_the_callers(
    modifiers: Seq<Modifier>,
    user: Option<BackgroundPolicy>,
    profile_default: BackgroundPolicy,
    r: (BackgroundPolicy, SettingSource),
)
    requires
        match user {
            Some(v) => r == (v, SettingSource::User),
            None => match implied(modifiers).background {
                Some(v) => r == (v, SettingSource::User),
                None => r == (profile_default, SettingSource::Profile),
            },
        },
    ensures
        user is None && modifiers.contains(Modifier::TransparentBackground) ==> r == (
            BackgroundPolicy::Transparent,
            SettingSource::User,
        ),
        user is None && !modifiers.contains(Modifier::TransparentBackground) ==> r == (
            profile_default,
            SettingSource::Profile,
        ),
        user matches Some(v) ==> r == (v, SettingSource::User),
{
}

/// The refusal of a resolved stroke or gradient mode this build does not
/// implement; the stroke mode is checked first.
pub open spec fn feature_modes_check(strokes: StrokeMode, gradients: GradientMode) -> Option<ConfigError> {
    if strokes != StrokeMode::Off {
        Some(ConfigError::UnsupportedInThisBuild {
            field: "strokes.prefer",
            requirement: "PTE-STROKE-001 (§13 centrelines)",
        })
    } else if gradients != GradientMode::Off {
        Some(ConfigError::UnsupportedInThisBuild {
            field: "gradients.mode",
            requirement: "PTE-GRAD-001 (§14 gradients)",
        })
    } else {
        None
    }
}

/// Refuse a resolved stroke or gradient mode other than `off`: only filled
/// outlines and solid fills are implemented, and a request for more is
/// refused rather than ignored.
pub fn check_feature_modes(strokes: StrokeMode, gradients: GradientMode) -> (r: Result<(), ConfigError>)
    ensures
        match feature_modes_check(strokes, gradients) {
            Some(e) => r == Err::<(), ConfigError>(e),
            None => r is Ok,
        },
{
    if strokes != StrokeMode::Off {
        return Err(ConfigError::UnsupportedInThisBuild {
            field: "strokes.prefer",
            requirement: "PTE-STROKE-001 (§13 centrelines)",
        });
    }
    if gradients != GradientMode::Off {
        return Err(ConfigError::UnsupportedInThisBuild {
            field: "gradients.mode",
            requirement: "PTE-GRAD-001 (§14 gradients)",
        });
    }
    Ok(())
}

/// Refuse an effective fixed palette with no entries, once modifiers and
/// profile defaults have resolved the mode.
pub fn check_effective_palette(mode: PaletteMode, entry_count: usize) -> (r: Result<(), ConfigError>)
    ensures
        mode == PaletteMode::Fixed && entry_count == 0 ==> r == Err::<(), ConfigError>(
            ConfigError::Palette {
                reason: "the effective palette mode is `fixed` but no entries were supplied",
            },
        ),
        !(mode == PaletteMode::Fixed && entry_count == 0) ==> r is Ok,
{
    if mode == PaletteMode::Fixed && entry_count == 0 {
        return Err(ConfigError::Palette {
            reason: "the effective palette mode is `fixed` but no entries were supplied",
        });
    }
    Ok(())
}

/// Entry `a` comes before entry `b` in identifier order, ties broken by
/// declaration order.
pub open spec fn id_before(ids: Seq<u32>, a: int, b: int) -> bool {
    ids[a] < ids[b] || (ids[a] == ids[b] && a < b)
}

/// The order in which palette entries are held: by identifier, ties in
/// declaration order, never the caller's array order. The result lists each
/// index of `ids` once.
pub fn id_order(ids: &[u32]) -> (r: Vec<usize>)
    ensures
        r@.len() == ids@.len(),
        forall|k: int| 0 <= k < r@.len() ==> r@[k] < ids@.len(),
        forall|k: usize| k < ids@.len() ==> #[trigger] r@.contains(k),
        forall|a: int, b: int|
            0 <= a < b < r@.len() ==> id_before(ids@, r@[a] as int, r@[b] as int),
{
    let n = ids.len();
    let mut out: Vec<usize> = Vec::new();
    let mut i: usize = 0;
    while i < n
        invariant
            n == ids@.len(),
            i <= n,
            out@.len() == i,
            forall|k: int| 0 <= k < out@.len() ==> out@[k] < i,
            forall|k: usize| k < i ==> #[trigger] out@.contains(k),
            forall|a: int, b: int|
                0 <= a < b < out@.len() ==> id_before(ids@, out@[a] as int, out@[b] as int),
        decreases n - i,
    {
        let mut p: usize = 0;
        while p < out.len() && ids[out[p]] <= ids[i]
            invariant
                n == ids@.len(),
                i < n,
                out@.len() == i,
                p <= out@.len(),
                forall|k: int| 0 <= k < out@.len() ==> out@[k] < i,
                forall|k: int| 0 <= k < p ==> ids@[out@[k] as int] <= ids@[i as int],
            decreases out@.len() - p,
        {
            p += 1;
        }
        let ghost before = out@;
        out.insert(p, i);
        proof {
            assert forall|a: int, b: int|
                0 <= a < b < out@.len() implies id_before(ids@, out@[a] as int, out@[b] as int) by {
                if p < before.len() {
                    assert(ids@[before[p as int] as int] > ids@[i as int]);
                    if b > p as int && a >= p as int && a != p as int {
                        assert(id_before(ids@, before[a - 1] as int, before[b - 1] as int));
                    } else if b > p as int && a == p as int {
                        if b - 1 > p as int {
                            assert(id_before(ids@, before[p as int] as int, before[b - 1] as int));
                        }
                    } else if b > p as int && a < p as int {
                        assert(id_before(ids@, before[a] as int, before[b - 1] as int));
                    }
                }
            }
            assert forall|k: usize| k < i + 1 implies #[trigger] out@.contains(k) by {
                if k == i {
                    assert(out@[p as int] == i);
                } else {
                    assert(before.contains(k));
                    let w = choose|w: int| 0 <= w < before.len() && before[w] == k;
                    if w < p {
                        assert(out@[w] == k);
                    } else {
                        assert(out@[w + 1] == k);
                    }
                }
            }
        }
        i += 1;
    }
    out
}

} // verus!

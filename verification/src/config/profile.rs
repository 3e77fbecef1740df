//! Output profiles and modifiers, and which combinations this build honours.
//!
//! A profile is a versioned bundle of defaults, never an opaque code path.
//! Profiles and modifiers whose behaviour is not implemented are refused by
//! name, with the requirement that governs what is missing, rather than
//! accepted and quietly traced as something else.

use vstd::prelude::*;
use vstd::string::*;
use super::{Refused, checked_as};
use crate::error::ConfigError;

verus! {

/// Version of the frozen profile defaults; changing a default requires a
/// bump.
pub const PROFILE_SCHEMA_VERSION: u32 = 1;

/// Primary output profile.
#[derive(Debug, Clone, Copy, PartialEq, Eq, PartialOrd, Ord, Hash, Structural)]
pub enum Profile {
    /// Logos, marks, icons, signage.
    Logo,
    /// Cartoons, clip art, flat artwork.
    FlatIllustration,
    /// Adhesive vinyl and paper cutters.
    VinylCut,
    /// Cut, score, and engrave preparation.
    Laser,
    /// Printable outlines.
    ColoringBook,
    /// Drawings, plans, ink strokes.
    LineArt,
    /// Raster type and hand lettering.
    Lettering,
    /// Spot-colour separations.
    ScreenPrint,
    /// Modern shaded illustrations.
    GradientIllustration,
    /// Low-resolution pixel art.
    PixelArt,
    /// Stylised photos and complex art.
    Poster,
}

impl Profile {
    /// Every defined profile, in declaration order.
    pub const ALL: [Profile; 11] = [
        Profile::Logo,
        Profile::FlatIllustration,
        Profile::VinylCut,
        Profile::Laser,
        Profile::ColoringBook,
        Profile::LineArt,
        Profile::Lettering,
        Profile::ScreenPrint,
        Profile::GradientIllustration,
        Profile::PixelArt,
        Profile::Poster,
    ];

    /// The kebab-case identifier of each profile.
    pub open spec fn name(self) -> &'static str {
        match self {
            Profile::Logo => "logo",
            Profile::FlatIllustration => "flat-illustration",
            Profile::VinylCut => "vinyl-cut",
            Profile::Laser => "laser",
            Profile::ColoringBook => "coloring-book",
            Profile::LineArt => "line-art",
            Profile::Lettering => "lettering",
            Profile::ScreenPrint => "screen-print",
            Profile::GradientIllustration => "gradient-illustration",
            Profile::PixelArt => "pixel-art",
            Profile::Poster => "poster",
        }
    }

    /// Stable kebab-case identifier, as used on the command line.
    pub fn as_str(self) -> (s: &'static str)
        ensures
            s == self.name(),
    {
        match self {
            Profile::Logo => "logo",
            Profile::FlatIllustration => "flat-illustration",
            Profile::VinylCut => "vinyl-cut",
            Profile::Laser => "laser",
            Profile::ColoringBook => "coloring-book",
            Profile::LineArt => "line-art",
            Profile::Lettering => "lettering",
            Profile::ScreenPrint => "screen-print",
            Profile::GradientIllustration => "gradient-illustration",
            Profile::PixelArt => "pixel-art",
            Profile::Poster => "poster",
        }
    }

    /// The profiles this build implements end to end.
    pub open spec fn implemented(self) -> bool {
        self == Profile::FlatIllustration || self == Profile::ColoringBook || self
            == Profile::PixelArt || self == Profile::Logo
    }

    /// Whether this build implements the profile end to end.
    pub fn is_implemented(self) -> (b: bool)
        ensures
            b == self.implemented(),
    {
        match self {
            Profile::FlatIllustration | Profile::ColoringBook | Profile::PixelArt
            | Profile::Logo => true,
            _ => false,
        }
    }

    /// The requirement that governs what each unimplemented profile needs;
    /// empty for the implemented ones.
    pub open spec fn requirement(self) -> &'static str {
        match self {
            Profile::VinylCut | Profile::Laser | Profile::ScreenPrint => "PTE-FAB-001 (§16 fabrication)",
            Profile::LineArt | Profile::Lettering => "PTE-STROKE-001 (§13 centrelines)",
            Profile::GradientIllustration => "PTE-GRAD-001 (§14 gradients)",
            Profile::Poster => "PTE-GOAL-006 (§3 poster profile)",
            _ => "",
        }
    }

    /// The requirement that governs the behaviour a profile still needs.
    pub fn missing_requirement(self) -> (s: &'static str)
        ensures
            s == self.requirement(),
    {
        match self {
            Profile::VinylCut | Profile::Laser | Profile::ScreenPrint => "PTE-FAB-001 (§16 fabrication)",
            Profile::LineArt | Profile::Lettering => "PTE-STROKE-001 (§13 centrelines)",
            Profile::GradientIllustration => "PTE-GRAD-001 (§14 gradients)",
            Profile::Poster => "PTE-GOAL-006 (§3 poster profile)",
            _ => "",
        }
    }

    /// The refusal of a profile this build cannot honour.
    pub open spec fn unimplemented_error(self) -> ConfigError {
        ConfigError::UnsupportedInThisBuild { field: "profile", requirement: self.requirement() }
    }

    /// Reject a profile this build cannot honour, naming the governing
    /// requirement.
    pub fn check_implemented(self) -> (r: Result<(), ConfigError>)
        ensures
            self.implemented() ==> r is Ok,
            !self.implemented() ==> r == Err::<(), ConfigError>(self.unimplemented_error()),
    {
        if self.is_implemented() {
            Ok(())
        } else {
            Err(
                ConfigError::UnsupportedInThisBuild {
                    field: "profile",
                    requirement: self.missing_requirement(),
                },
            )
        }
    }

    /// The outcome of checking `modifiers` against this profile: the profile
    /// first, then the four forbidden pairings, then each modifier whose
    /// behaviour is not implemented.
    pub open spec fn modifier_check(self, modifiers: Seq<Modifier>) -> Result<(), Refused> {
        let has = |m: Modifier| modifiers.contains(m);
        if !self.implemented() {
            Err(Refused::Exactly(self.unimplemented_error()))
        } else if has(Modifier::SharedMosaic) && has(Modifier::StackedLayers) {
            Err(Refused::Conflict {
                first: "modifier `shared-mosaic`"@,
                second: "modifier `stacked-layers`"@,
                reason: "a partition and a stack are different semantics (PTE-TOPO-016)",
            })
        } else if has(Modifier::StackedLayers) && self == Profile::VinylCut {
            Err(Refused::Conflict {
                first: "modifier `stacked-layers`"@,
                second: "profile `vinyl-cut`"@,
                reason: "an exclusive cutout cannot contain hidden stacked geometry (PTE-FAB-004)",
            })
        } else if has(Modifier::PreferStrokes) && self == Profile::PixelArt {
            Err(Refused::Conflict {
                first: "modifier `prefer-strokes`"@,
                second: "profile `pixel-art`"@,
                reason: "pixel art has no medial model to infer (PTE-TOPO-010)",
            })
        } else if has(Modifier::AllowExperimentalShading) && !modifiers.contains(Modifier::AllowPortableGradients) {
            Err(Refused::Conflict {
                first: "modifier `allow-experimental-shading`"@,
                second: "no `allow-portable-gradients`"@,
                reason: "experimental shading requires a portable fallback (PTE-GRAD-009)",
            })
        } else {
            unimplemented_check(modifiers)
        }
    }

    /// Reject modifier combinations this profile forbids, naming both sides,
    /// and modifiers whose behaviour is not implemented, naming the governing
    /// requirement.
    pub fn check_modifiers(self, modifiers: &[Modifier]) -> (r: Result<(), ConfigError>)
        ensures
            checked_as(r, self.modifier_check(modifiers@)),
    {
        if let Err(e) = self.check_implemented() {
            return Err(e);
        }
        let shared = has_modifier(modifiers, Modifier::SharedMosaic);
        let stacked = has_modifier(modifiers, Modifier::StackedLayers);
        let strokes = has_modifier(modifiers, Modifier::PreferStrokes);
        let portable = has_modifier(modifiers, Modifier::AllowPortableGradients);
        let shading = has_modifier(modifiers, Modifier::AllowExperimentalShading);
        if shared && stacked {
            return Err(ConfigError::IncompatibleCombination {
                first: "modifier `shared-mosaic`".to_owned(),
                second: "modifier `stacked-layers`".to_owned(),
                reason: "a partition and a stack are different semantics (PTE-TOPO-016)",
            });
        }
        if stacked && self == Profile::VinylCut {
            return Err(ConfigError::IncompatibleCombination {
                first: "modifier `stacked-layers`".to_owned(),
                second: "profile `vinyl-cut`".to_owned(),
                reason: "an exclusive cutout cannot contain hidden stacked geometry (PTE-FAB-004)",
            });
        }
        if strokes && self == Profile::PixelArt {
            return Err(ConfigError::IncompatibleCombination {
                first: "modifier `prefer-strokes`".to_owned(),
                second: "profile `pixel-art`".to_owned(),
                reason: "pixel art has no medial model to infer (PTE-TOPO-010)",
            });
        }
        if shading && !portable {
            return Err(ConfigError::IncompatibleCombination {
                first: "modifier `allow-experimental-shading`".to_owned(),
                second: "no `allow-portable-gradients`".to_owned(),
                reason: "experimental shading requires a portable fallback (PTE-GRAD-009)",
            });
        }
        let unimplemented: [Modifier; 5] = [
            Modifier::PreferStrokes,
            Modifier::AllowPortableGradients,
            Modifier::AllowExperimentalShading,
            Modifier::RecognizePrimitives,
            Modifier::PhysicalScaleKnown,
        ];
        let mut i: usize = 0;
        while i < 5
            invariant
                i <= 5,
                self.modifier_check(modifiers@) == unimplemented_check(modifiers@),
                unimplemented@ == seq![
                    Modifier::PreferStrokes,
                    Modifier::AllowPortableGradients,
                    Modifier::AllowExperimentalShading,
                    Modifier::RecognizePrimitives,
                    Modifier::PhysicalScaleKnown,
                ],
                forall|j: int| 0 <= j < i ==> !modifiers@.contains(#[trigger] unimplemented@[j]),
            decreases 5 - i,
        {
            let m = unimplemented[i];
            if has_modifier(modifiers, m) {
                proof {
                    assert(!modifiers@.contains(unimplemented@[0]) || i == 0);
                    if i >= 2 {
                        assert(!modifiers@.contains(unimplemented@[1]));
                    }
                    if i >= 3 {
                        assert(!modifiers@.contains(unimplemented@[2]));
                    }
                    if i >= 4 {
                        assert(!modifiers@.contains(unimplemented@[3]));
                    }
                }
                return Err(
                    ConfigError::UnsupportedInThisBuild {
                        field: m.as_str(),
                        requirement: m.requirement_str(),
                    },
                );
            }
            i += 1;
        }
        proof {
            assert(!modifiers@.contains(unimplemented@[0]));
            assert(!modifiers@.contains(unimplemented@[1]));
            assert(!modifiers@.contains(unimplemented@[2]));
            assert(!modifiers@.contains(unimplemented@[3]));
            assert(!modifiers@.contains(unimplemented@[4]));
        }
        Ok(())
    }
}

/// A compatible modifier.
#[derive(Debug, Clone, Copy, PartialEq, Eq, PartialOrd, Ord, Hash, Structural)]
pub enum Modifier {
    /// Emit exactly the declared palette colours.
    ExactPalette,
    /// Carry source alpha into the output.
    PreserveAlpha,
    /// Remove the background while retaining foreground holes.
    TransparentBackground,
    /// Force shared-mosaic partition semantics.
    SharedMosaic,
    /// Force stacked-artwork semantics.
    StackedLayers,
    /// Recognise rectangles, circles, and other primitives.
    RecognizePrimitives,
    /// Prefer stroked centrelines where the medial model fits.
    PreferStrokes,
    /// Physical output scale is declared.
    PhysicalScaleKnown,
    /// Permit linear and radial gradients.
    AllowPortableGradients,
    /// Permit non-portable shading.
    AllowExperimentalShading,
    /// Require strict cross-target determinism.
    StrictDeterminism,
}

impl Modifier {
    /// The kebab-case identifier of each modifier.
    pub open spec fn name(self) -> &'static str {
        match self {
            Modifier::ExactPalette => "exact-palette",
            Modifier::PreserveAlpha => "preserve-alpha",
            Modifier::TransparentBackground => "transparent-background",
            Modifier::SharedMosaic => "shared-mosaic",
            Modifier::StackedLayers => "stacked-layers",
            Modifier::RecognizePrimitives => "recognize-primitives",
            Modifier::PreferStrokes => "prefer-strokes",
            Modifier::PhysicalScaleKnown => "physical-scale-known",
            Modifier::AllowPortableGradients => "allow-portable-gradients",
            Modifier::AllowExperimentalShading => "allow-experimental-shading",
            Modifier::StrictDeterminism => "strict-determinism",
        }
    }

    /// Stable kebab-case identifier.
    pub fn as_str(self) -> (s: &'static str)
        ensures
            s == self.name(),
    {
        match self {
            Modifier::ExactPalette => "exact-palette",
            Modifier::PreserveAlpha => "preserve-alpha",
            Modifier::TransparentBackground => "transparent-background",
            Modifier::SharedMosaic => "shared-mosaic",
            Modifier::StackedLayers => "stacked-layers",
            Modifier::RecognizePrimitives => "recognize-primitives",
            Modifier::PreferStrokes => "prefer-strokes",
            Modifier::PhysicalScaleKnown => "physical-scale-known",
            Modifier::AllowPortableGradients => "allow-portable-gradients",
            Modifier::AllowExperimentalShading => "allow-experimental-shading",
            Modifier::StrictDeterminism => "strict-determinism",
        }
    }

    /// The requirement governing a modifier whose behaviour is not
    /// implemented; empty for the others.
    pub open spec fn requirement(self) -> &'static str {
        match self {
            Modifier::PreferStrokes => "PTE-STROKE-001 (§13 centrelines)",
            Modifier::AllowPortableGradients => "PTE-GRAD-001 (§14 gradients)",
            Modifier::AllowExperimentalShading => "PTE-GRAD-009 (§14.7 experimental shading)",
            Modifier::RecognizePrimitives => "PTE-GEO-010 (§11.7 primitive recognition)",
            Modifier::PhysicalScaleKnown => "PTE-FAB-001 (§16 fabrication)",
            _ => "",
        }
    }

    fn requirement_str(self) -> (s: &'static str)
        ensures
            s == self.requirement(),
    {
        match self {
            Modifier::PreferStrokes => "PTE-STROKE-001 (§13 centrelines)",
            Modifier::AllowPortableGradients => "PTE-GRAD-001 (§14 gradients)",
            Modifier::AllowExperimentalShading => "PTE-GRAD-009 (§14.7 experimental shading)",
            Modifier::RecognizePrimitives => "PTE-GEO-010 (§11.7 primitive recognition)",
            Modifier::PhysicalScaleKnown => "PTE-FAB-001 (§16 fabrication)",
            _ => "",
        }
    }

    /// The refusal of a modifier whose behaviour is not implemented.
    pub open spec fn unimplemented_error(self) -> ConfigError {
        ConfigError::UnsupportedInThisBuild { field: self.name(), requirement: self.requirement() }
    }
}

/// The first modifier among `modifiers` whose behaviour this build does not
/// implement, refused.
pub open spec fn unimplemented_check(modifiers: Seq<Modifier>) -> Result<(), Refused> {
    if modifiers.contains(Modifier::PreferStrokes) {
        Err(Refused::Exactly(Modifier::PreferStrokes.unimplemented_error()))
    } else if modifiers.contains(Modifier::AllowPortableGradients) {
        Err(Refused::Exactly(Modifier::AllowPortableGradients.unimplemented_error()))
    } else if modifiers.contains(Modifier::AllowExperimentalShading) {
        Err(Refused::Exactly(Modifier::AllowExperimentalShading.unimplemented_error()))
    } else if modifiers.contains(Modifier::RecognizePrimitives) {
        Err(Refused::Exactly(Modifier::RecognizePrimitives.unimplemented_error()))
    } else if modifiers.contains(Modifier::PhysicalScaleKnown) {
        Err(Refused::Exactly(Modifier::PhysicalScaleKnown.unimplemented_error()))
    } else {
        Ok(())
    }
}

/// Whether `m` is among `modifiers`.
pub fn has_modifier(modifiers: &[Modifier], m: Modifier) -> (b: bool)
    ensures
        b == modifiers@.contains(m),
{
    let mut i: usize = 0;
    while i < modifiers.len()
        invariant
            i <= modifiers@.len(),
            forall|j: int| 0 <= j < i ==> modifiers@[j] != m,
        decreases modifiers@.len() - i,
    {
        if modifiers[i] == m {
            return true;
        }
        i += 1;
    }
    false
}


/// The length, first and fourth characters of an identifier: enough to tell
/// every profile, and every modifier, from the others.
spec fn id_signature(s: Seq<char>) -> (nat, char, char) {
    (s.len(), s[0], s[3])
}

/// Every profile has an identifier of its own: two profiles are the same
/// exactly when their identifiers are.
pub proof fn law_profile_ids_are_distinct(p: Profile, q: Profile)
    ensures
        (p == q) == (p.name()@ == q.name()@),
{
    reveal_strlit("logo");
    reveal_strlit("flat-illustration");
    reveal_strlit("vinyl-cut");
    reveal_strlit("laser");
    reveal_strlit("coloring-book");
    reveal_strlit("line-art");
    reveal_strlit("lettering");
    reveal_strlit("screen-print");
    reveal_strlit("gradient-illustration");
    reveal_strlit("pixel-art");
    reveal_strlit("poster");
    if p != q {
        assert(id_signature(p.name()@) != id_signature(q.name()@));
    }
}

/// Every modifier has an identifier of its own: two modifiers are the same
/// exactly when their identifiers are.
pub proof fn law_modifier_ids_are_distinct(a: Modifier, b: Modifier)
    ensures
        (a == b) == (a.name()@ == b.name()@),
{
    reveal_strlit("exact-palette");
    reveal_strlit("preserve-alpha");
    reveal_strlit("transparent-background");
    reveal_strlit("shared-mosaic");
    reveal_strlit("stacked-layers");
    reveal_strlit("recognize-primitives");
    reveal_strlit("prefer-strokes");
    reveal_strlit("physical-scale-known");
    reveal_strlit("allow-portable-gradients");
    reveal_strlit("allow-experimental-shading");
    reveal_strlit("strict-determinism");
    if a != b {
        assert(id_signature(a.name()@) != id_signature(b.name()@));
    }
}

} // verus!

//! The render targets of the effect and the bind groups that sample them,
//! tracked by identity across resizes.
//!
//! Every texture carries a generation that changes exactly when the texture
//! is replaced. A bind group records the generations of the textures it was
//! built from, so a stale bind group is one whose record differs from the
//! texture it names. [`ResourceSet::resize`] decides what has to be replaced
//! and rebuilt; the renderer performs it.

use vstd::prelude::*;

verus! {

/// A size in pixels.
#[derive(Clone, Copy, Debug, PartialEq, Eq, Structural)]
pub struct Extent {
    pub width: u32,
    pub height: u32,
}

/// The size of the render target, as the shaders receive it. The reciprocals
/// that accompany it on the GPU are derived from these two fields whenever
/// they are uploaded.
#[derive(Clone, Copy, Debug, PartialEq, Eq, Structural)]
pub struct Dimensions {
    pub width: u32,
    pub height: u32,
}

impl Dimensions {
    /// The dimensions of a target of `width` by `height` pixels.
    pub fn new(width: u32, height: u32) -> (d: Dimensions)
        ensures
            d == (Dimensions { width, height }),
    {
        Dimensions { width, height }
    }

    /// The same size as an extent.
    pub open spec fn extent(&self) -> Extent {
        Extent { width: self.width, height: self.height }
    }
}

/// The textures that the effect owns.
#[derive(Clone, Copy, Debug, PartialEq, Eq, Structural)]
pub enum TextureRole {
    /// Multisampled target of the mask pass.
    MaskMultisample,
    /// Single-sample resolve target of the mask pass.
    MaskOutput,
    /// Jump-flood buffer that the seeding pass fills.
    JfaPrimary,
    /// Jump-flood scratch buffer.
    JfaSecondary,
    /// Jump-flood buffer that the last round fills.
    JfaFinal,
}

/// The pixel formats that the effect's textures use.
#[derive(Clone, Copy, Debug, PartialEq, Eq, Structural)]
pub enum TargetFormat {
    /// One 8-bit normalized channel: occupancy.
    R8Unorm,
    /// Two signed normalized 16-bit channels: a seed coordinate.
    Rg16Snorm,
}

/// What a texture is created with. Every texture of the effect is
/// two-dimensional, has one mip level and is usable both as a render
/// attachment and as a sampled texture.
#[derive(Clone, Copy, Debug, PartialEq, Eq, Structural)]
pub struct TextureSpec {
    pub role: TextureRole,
    pub size: Extent,
    pub sample_count: u32,
    pub format: TargetFormat,
}

/// The number of samples per pixel of the multisampled mask target.
pub const MASK_SAMPLES: u32 = 4;

/// The creation parameters of the texture `role` at `size`.
pub open spec fn texture_spec(role: TextureRole, size: Extent) -> TextureSpec {
    TextureSpec {
        role,
        size,
        sample_count: if role == TextureRole::MaskMultisample { MASK_SAMPLES } else { 1 },
        format: if role == TextureRole::MaskMultisample || role == TextureRole::MaskOutput {
            TargetFormat::R8Unorm
        } else {
            TargetFormat::Rg16Snorm
        },
    }
}

/// The creation parameters of the texture `role` at `size`.
pub fn tex_desc(role: TextureRole, size: Extent) -> (spec: TextureSpec)
    ensures
        spec == texture_spec(role, size),
{
    let (sample_count, format) = match role {
        TextureRole::MaskMultisample => (MASK_SAMPLES, TargetFormat::R8Unorm),
        TextureRole::MaskOutput => (1, TargetFormat::R8Unorm),
        TextureRole::JfaPrimary => (1, TargetFormat::Rg16Snorm),
        TextureRole::JfaSecondary => (1, TargetFormat::Rg16Snorm),
        TextureRole::JfaFinal => (1, TargetFormat::Rg16Snorm),
    };
    TextureSpec { role, size, sample_count, format }
}

/// A texture as the resource set tracks it.
#[derive(Clone, Copy, Debug, PartialEq, Eq, Structural)]
pub struct TextureState {
    /// The size the texture was created with.
    pub size: Extent,
    /// Changes exactly when the texture is replaced.
    pub generation: u64,
}

/// A bind group that samples one texture.
#[derive(Clone, Copy, Debug, PartialEq, Eq, Structural)]
pub struct GroupState {
    /// Changes exactly when the bind group is rebuilt.
    pub generation: u64,
    /// The generation of the texture that the bind group was built from.
    pub source: u64,
}

/// The bind group of the composite pass, which samples the final jump-flood
/// buffer and the mask.
#[derive(Clone, Copy, Debug, PartialEq, Eq, Structural)]
pub struct PairGroupState {
    /// Changes exactly when the bind group is rebuilt.
    pub generation: u64,
    /// The generation of the final jump-flood buffer it was built from.
    pub jfa: u64,
    /// The generation of the mask output it was built from.
    pub mask: u64,
}

/// Why the resources could not be brought to a size.
#[derive(Clone, Copy, Debug, PartialEq, Eq, Structural)]
pub enum ResourceError {
    /// A side of the requested size is zero: no texture can have it.
    EmptyViewport,
    /// A generation counter has no successor left.
    IdentityExhausted,
}

/// What one resize asks the renderer to do. A `true` field names a texture to
/// create anew, a bind group to rebuild, or the dimensions uniform to upload.
#[derive(Clone, Copy, Debug, PartialEq, Eq, Structural)]
pub struct ResizePlan {
    pub write_dimensions: bool,
    pub mask_multisample: bool,
    pub mask_output: bool,
    pub jfa_primary: bool,
    pub jfa_secondary: bool,
    pub jfa_final: bool,
    pub jfa_init_group: bool,
    pub from_primary_group: bool,
    pub from_secondary_group: bool,
    pub ripples_src_group: bool,
}

impl ResizePlan {
    /// The plan asks for nothing.
    pub open spec fn is_noop(&self) -> bool {
        *self == (ResizePlan {
            write_dimensions: false,
            mask_multisample: false,
            mask_output: false,
            jfa_primary: false,
            jfa_secondary: false,
            jfa_final: false,
            jfa_init_group: false,
            from_primary_group: false,
            from_secondary_group: false,
            ripples_src_group: false,
        })
    }

    /// Whether the plan asks for nothing.
    pub fn is_empty(&self) -> (b: bool)
        ensures
            b == self.is_noop(),
    {
        !(self.write_dimensions || self.mask_multisample || self.mask_output || self.jfa_primary
            || self.jfa_secondary || self.jfa_final || self.jfa_init_group
            || self.from_primary_group || self.from_secondary_group || self.ripples_src_group)
    }

    /// Whether the plan replaces the texture `role`.
    pub open spec fn replaces(&self, role: TextureRole) -> bool {
        match role {
            TextureRole::MaskMultisample => self.mask_multisample,
            TextureRole::MaskOutput => self.mask_output,
            TextureRole::JfaPrimary => self.jfa_primary,
            TextureRole::JfaSecondary => self.jfa_secondary,
            TextureRole::JfaFinal => self.jfa_final,
        }
    }

    /// The textures to create, each with its parameters at `size`, in the
    /// order mask output, mask multisample, primary, secondary, final.
    pub fn textures(&self, size: Extent) -> (specs: Vec<TextureSpec>)
        ensures
            specs@ == self.textures_spec(size),
    {
        let mut specs: Vec<TextureSpec> = Vec::new();
        if self.mask_output {
            specs.push(tex_desc(TextureRole::MaskOutput, size));
        }
        if self.mask_multisample {
            specs.push(tex_desc(TextureRole::MaskMultisample, size));
        }
        if self.jfa_primary {
            specs.push(tex_desc(TextureRole::JfaPrimary, size));
        }
        if self.jfa_secondary {
            specs.push(tex_desc(TextureRole::JfaSecondary, size));
        }
        if self.jfa_final {
            specs.push(tex_desc(TextureRole::JfaFinal, size));
        }
        assert(specs@ =~= self.textures_spec(size));
        specs
    }

    /// The parameters of the textures to create, in creation order.
    pub open spec fn textures_spec(&self, size: Extent) -> Seq<TextureSpec> {
        let a = if self.mask_output {
            seq![texture_spec(TextureRole::MaskOutput, size)]
        } else {
            Seq::empty()
        };
        let b = if self.mask_multisample {
            a.push(texture_spec(TextureRole::MaskMultisample, size))
        } else {
            a
        };
        let c = if self.jfa_primary {
            b.push(texture_spec(TextureRole::JfaPrimary, size))
        } else {
            b
        };
        let d = if self.jfa_secondary {
            c.push(texture_spec(TextureRole::JfaSecondary, size))
        } else {
            c
        };
        if self.jfa_final {
            d.push(texture_spec(TextureRole::JfaFinal, size))
        } else {
            d
        }
    }
}

/// A texture after a resize to `size`: replaced where its size differs, kept
/// as it is otherwise.
pub open spec fn resized_texture(t: TextureState, size: Extent) -> TextureState {
    if t.size == size {
        t
    } else {
        TextureState { size, generation: (t.generation + 1) as u64 }
    }
}

/// Everything the effect owns that depends on the size of the render target.
#[derive(Clone, Copy, Debug, PartialEq, Eq, Structural)]
pub struct ResourceSet {
    pub dimensions: Dimensions,
    pub mask_multisample: TextureState,
    pub mask_output: TextureState,
    pub jfa_primary: TextureState,
    pub jfa_secondary: TextureState,
    pub jfa_final: TextureState,
    /// Bind group of the seeding pass: samples the mask output.
    pub jfa_init_group: GroupState,
    /// Bind group of rounds that read the primary buffer.
    pub from_primary_group: GroupState,
    /// Bind group of rounds that read the secondary buffer.
    pub from_secondary_group: GroupState,
    /// Bind group of the composite pass: samples the final buffer and the mask.
    pub ripples_src_group: PairGroupState,
}

impl ResourceSet {
    /// The state of the texture `role`.
    pub open spec fn texture(&self, role: TextureRole) -> TextureState {
        match role {
            TextureRole::MaskMultisample => self.mask_multisample,
            TextureRole::MaskOutput => self.mask_output,
            TextureRole::JfaPrimary => self.jfa_primary,
            TextureRole::JfaSecondary => self.jfa_secondary,
            TextureRole::JfaFinal => self.jfa_final,
        }
    }

    /// No bind group is stale: each was built from the textures that are
    /// current now.
    pub open spec fn bound(&self) -> bool {
        &&& self.jfa_init_group.source == self.mask_output.generation
        &&& self.from_primary_group.source == self.jfa_primary.generation
        &&& self.from_secondary_group.source == self.jfa_secondary.generation
        &&& self.ripples_src_group.jfa == self.jfa_final.generation
        &&& self.ripples_src_group.mask == self.mask_output.generation
    }

    /// Every texture, and the dimensions uniform, has the size `size`.
    pub open spec fn sized(&self, size: Extent) -> bool {
        &&& self.dimensions.extent() == size
        &&& forall|role: TextureRole| (#[trigger] self.texture(role)).size == size
    }

    /// The set is usable: nothing is stale and no texture is empty.
    pub open spec fn wf(&self) -> bool {
        &&& self.bound()
        &&& forall|role: TextureRole|
            (#[trigger] self.texture(role)).size.width > 0 && self.texture(role).size.height > 0
    }

    /// Some generation counter has reached its last value.
    pub open spec fn exhausted(&self) -> bool {
        ||| exists|role: TextureRole| (#[trigger] self.texture(role)).generation == u64::MAX
        ||| self.jfa_init_group.generation == u64::MAX
        ||| self.from_primary_group.generation == u64::MAX
        ||| self.from_secondary_group.generation == u64::MAX
        ||| self.ripples_src_group.generation == u64::MAX
    }

    /// A resize to `size` would replace something.
    pub open spec fn differs(&self, size: Extent) -> bool {
        !self.sized(size)
    }

    /// What a resize to `size` asks for.
    pub open spec fn plan_spec(&self, size: Extent) -> ResizePlan {
        let mask = self.mask_output.size != size;
        let primary = self.jfa_primary.size != size;
        let secondary = self.jfa_secondary.size != size;
        let last = self.jfa_final.size != size;
        ResizePlan {
            write_dimensions: self.dimensions.extent() != size,
            mask_multisample: self.mask_multisample.size != size,
            mask_output: mask,
            jfa_primary: primary,
            jfa_secondary: secondary,
            jfa_final: last,
            jfa_init_group: mask,
            from_primary_group: primary,
            from_secondary_group: secondary,
            ripples_src_group: last || mask,
        }
    }

    /// The set after a resize to `size`.
    pub open spec fn resized_spec(&self, size: Extent) -> ResourceSet {
        let plan = self.plan_spec(size);
        let mask_output = resized_texture(self.mask_output, size);
        let jfa_primary = resized_texture(self.jfa_primary, size);
        let jfa_secondary = resized_texture(self.jfa_secondary, size);
        let jfa_final = resized_texture(self.jfa_final, size);
        ResourceSet {
            dimensions: Dimensions { width: size.width, height: size.height },
            mask_multisample: resized_texture(self.mask_multisample, size),
            mask_output,
            jfa_primary,
            jfa_secondary,
            jfa_final,
            jfa_init_group: if plan.jfa_init_group {
                GroupState {
                    generation: (self.jfa_init_group.generation + 1) as u64,
                    source: mask_output.generation,
                }
            } else {
                self.jfa_init_group
            },
            from_primary_group: if plan.from_primary_group {
                GroupState {
                    generation: (self.from_primary_group.generation + 1) as u64,
                    source: jfa_primary.generation,
                }
            } else {
                self.from_primary_group
            },
            from_secondary_group: if plan.from_secondary_group {
                GroupState {
                    generation: (self.from_secondary_group.generation + 1) as u64,
                    source: jfa_secondary.generation,
                }
            } else {
                self.from_secondary_group
            },
            ripples_src_group: if plan.ripples_src_group {
                PairGroupState {
                    generation: (self.ripples_src_group.generation + 1) as u64,
                    jfa: jfa_final.generation,
                    mask: mask_output.generation,
                }
            } else {
                self.ripples_src_group
            },
        }
    }

    /// The resources of a render target of `size` pixels: every texture at
    /// that size and in its first generation, every bind group built from
    /// them. A size with a zero side is refused.
    pub fn initialize(size: Extent) -> (r: Result<ResourceSet, ResourceError>)
        ensures
            (size.width == 0 || size.height == 0) <==> r == Err::<ResourceSet, ResourceError>(
                ResourceError::EmptyViewport,
            ),
            size.width > 0 && size.height > 0 ==> r is Ok && r->Ok_0.wf() && r->Ok_0.sized(size)
                && !r->Ok_0.exhausted() && r->Ok_0 == Self::initial_spec(size),
    {
        if size.width == 0 || size.height == 0 {
            return Err(ResourceError::EmptyViewport);
        }
        let texture = TextureState { size, generation: 0 };
        let group = GroupState { generation: 0, source: 0 };
        let set = ResourceSet {
            dimensions: Dimensions::new(size.width, size.height),
            mask_multisample: texture,
            mask_output: texture,
            jfa_primary: texture,
            jfa_secondary: texture,
            jfa_final: texture,
            jfa_init_group: group,
            from_primary_group: group,
            from_secondary_group: group,
            ripples_src_group: PairGroupState { generation: 0, jfa: 0, mask: 0 },
        };
        assert(forall|role: TextureRole| #[trigger] set.texture(role) == texture);
        Ok(set)
    }

    /// The set that `initialize` builds for `size`.
    pub open spec fn initial_spec(size: Extent) -> ResourceSet {
        let texture = TextureState { size, generation: 0 };
        let group = GroupState { generation: 0, source: 0 };
        ResourceSet {
            dimensions: Dimensions { width: size.width, height: size.height },
            mask_multisample: texture,
            mask_output: texture,
            jfa_primary: texture,
            jfa_secondary: texture,
            jfa_final: texture,
            jfa_init_group: group,
            from_primary_group: group,
            from_secondary_group: group,
            ripples_src_group: PairGroupState { generation: 0, jfa: 0, mask: 0 },
        }
    }

    /// Whether no bind group is stale.
    pub fn is_bound(&self) -> (b: bool)
        ensures
            b == self.bound(),
    {
        self.jfa_init_group.source == self.mask_output.generation && self.from_primary_group.source
            == self.jfa_primary.generation && self.from_secondary_group.source
            == self.jfa_secondary.generation && self.ripples_src_group.jfa
            == self.jfa_final.generation && self.ripples_src_group.mask
            == self.mask_output.generation
    }

    /// Whether some generation counter has reached its last value.
    pub fn is_exhausted(&self) -> (b: bool)
        ensures
            b == self.exhausted(),
    {
        let b = self.mask_multisample.generation == u64::MAX || self.mask_output.generation
            == u64::MAX || self.jfa_primary.generation == u64::MAX || self.jfa_secondary.generation
            == u64::MAX || self.jfa_final.generation == u64::MAX || self.jfa_init_group.generation
            == u64::MAX || self.from_primary_group.generation == u64::MAX
            || self.from_secondary_group.generation == u64::MAX || self.ripples_src_group.generation
            == u64::MAX;
        proof {
            if b {
                if self.mask_multisample.generation == u64::MAX {
                    assert(self.texture(TextureRole::MaskMultisample).generation == u64::MAX);
                } else if self.mask_output.generation == u64::MAX {
                    assert(self.texture(TextureRole::MaskOutput).generation == u64::MAX);
                } else if self.jfa_primary.generation == u64::MAX {
                    assert(self.texture(TextureRole::JfaPrimary).generation == u64::MAX);
                } else if self.jfa_secondary.generation == u64::MAX {
                    assert(self.texture(TextureRole::JfaSecondary).generation == u64::MAX);
                } else if self.jfa_final.generation == u64::MAX {
                    assert(self.texture(TextureRole::JfaFinal).generation == u64::MAX);
                }
            }
        }
        b
    }

    /// Whether every texture and the dimensions uniform have the size `size`.
    pub fn has_size(&self, size: Extent) -> (b: bool)
        ensures
            b == self.sized(size),
    {
        let b = self.dimensions.width == size.width && self.dimensions.height == size.height
            && self.mask_multisample.size == size && self.mask_output.size == size
            && self.jfa_primary.size == size && self.jfa_secondary.size == size
            && self.jfa_final.size == size;
        proof {
            if !b {
                if self.mask_multisample.size != size {
                    assert(self.texture(TextureRole::MaskMultisample).size != size);
                } else if self.mask_output.size != size {
                    assert(self.texture(TextureRole::MaskOutput).size != size);
                } else if self.jfa_primary.size != size {
                    assert(self.texture(TextureRole::JfaPrimary).size != size);
                } else if self.jfa_secondary.size != size {
                    assert(self.texture(TextureRole::JfaSecondary).size != size);
                } else if self.jfa_final.size != size {
                    assert(self.texture(TextureRole::JfaFinal).size != size);
                }
            }
        }
        b
    }

    /// Brings the set to `size` and says what the renderer has to do for it.
    ///
    /// A texture is replaced exactly when its size differs from `size`, and a
    /// bind group is rebuilt, in the same call, exactly when a texture that it
    /// samples is replaced. A set that already has the size is left untouched
    /// and the plan is empty. On an error nothing changes.
    pub fn resize(&mut self, size: Extent) -> (r: Result<ResizePlan, ResourceError>)
        requires
            old(self).bound(),
        ensures
            r == Err::<ResizePlan, ResourceError>(ResourceError::EmptyViewport) <==> (size.width
                == 0 || size.height == 0),
            r == Err::<ResizePlan, ResourceError>(ResourceError::IdentityExhausted) <==> (
            size.width > 0 && size.height > 0 && old(self).differs(size) && old(
                self,
            ).exhausted()),
            r is Err ==> *final(self) == *old(self),
            r is Ok ==> r->Ok_0 == old(self).plan_spec(size),
            r is Ok ==> *final(self) == old(self).resized_spec(size),
            r is Ok ==> final(self).wf() && final(self).sized(size),
            r is Ok && old(self).sized(size) ==> r->Ok_0.is_noop() && *final(self) == *old(self),
            r is Ok ==> forall|role: TextureRole|
                r->Ok_0.replaces(role) == (old(self).texture(role).size != size),
            r is Ok ==> forall|role: TextureRole|
                (#[trigger] r->Ok_0.replaces(role)) == (final(self).texture(role).generation
                    != old(self).texture(role).generation),
    {
        if size.width == 0 || size.height == 0 {
            return Err(ResourceError::EmptyViewport);
        }
        if self.has_size(size) {
            let plan = ResizePlan {
                write_dimensions: false,
                mask_multisample: false,
                mask_output: false,
                jfa_primary: false,
                jfa_secondary: false,
                jfa_final: false,
                jfa_init_group: false,
                from_primary_group: false,
                from_secondary_group: false,
                ripples_src_group: false,
            };
            proof {
                assert(self.texture(TextureRole::MaskMultisample).size == size);
                assert(self.texture(TextureRole::MaskOutput).size == size);
                assert(self.texture(TextureRole::JfaPrimary).size == size);
                assert(self.texture(TextureRole::JfaSecondary).size == size);
                assert(self.texture(TextureRole::JfaFinal).size == size);
            }
            return Ok(plan);
        }
        if self.is_exhausted() {
            return Err(ResourceError::IdentityExhausted);
        }
        proof {
            assert(self.texture(TextureRole::MaskMultisample).generation < u64::MAX);
            assert(self.texture(TextureRole::MaskOutput).generation < u64::MAX);
            assert(self.texture(TextureRole::JfaPrimary).generation < u64::MAX);
            assert(self.texture(TextureRole::JfaSecondary).generation < u64::MAX);
            assert(self.texture(TextureRole::JfaFinal).generation < u64::MAX);
        }
        let write_dimensions = self.dimensions.width != size.width || self.dimensions.height
            != size.height;
        let mask_multisample = self.mask_multisample.size != size;
        let mask_output = self.mask_output.size != size;
        let jfa_primary = self.jfa_primary.size != size;
        let jfa_secondary = self.jfa_secondary.size != size;
        let jfa_final = self.jfa_final.size != size;

        self.dimensions = Dimensions::new(size.width, size.height);
        self.mask_multisample = replace_texture(self.mask_multisample, size);
        self.mask_output = replace_texture(self.mask_output, size);
        self.jfa_primary = replace_texture(self.jfa_primary, size);
        self.jfa_secondary = replace_texture(self.jfa_secondary, size);
        self.jfa_final = replace_texture(self.jfa_final, size);
        if mask_output {
            self.jfa_init_group = GroupState {
                generation: self.jfa_init_group.generation + 1,
                source: self.mask_output.generation,
            };
        }
        if jfa_primary {
            self.from_primary_group = GroupState {
                generation: self.from_primary_group.generation + 1,
                source: self.jfa_primary.generation,
            };
        }
        if jfa_secondary {
            self.from_secondary_group = GroupState {
                generation: self.from_secondary_group.generation + 1,
                source: self.jfa_secondary.generation,
            };
        }
        if jfa_final || mask_output {
            self.ripples_src_group = PairGroupState {
                generation: self.ripples_src_group.generation + 1,
                jfa: self.jfa_final.generation,
                mask: self.mask_output.generation,
            };
        }
        Ok(
            ResizePlan {
                write_dimensions,
                mask_multisample,
                mask_output,
                jfa_primary,
                jfa_secondary,
                jfa_final,
                jfa_init_group: mask_output,
                from_primary_group: jfa_primary,
                from_secondary_group: jfa_secondary,
                ripples_src_group: jfa_final || mask_output,
            },
        )
    }
}

/// Brings the set to the size of the window, if there is one: without a
/// window nothing is asked for and nothing changes; with one this is
/// [`ResourceSet::resize`] to its size.
pub fn recreate(set: &mut ResourceSet, window: Option<Extent>) -> (r: Result<
    ResizePlan,
    ResourceError,
>)
    requires
        old(set).bound(),
    ensures
        window is None ==> r is Ok && r->Ok_0.is_noop() && *final(set) == *old(set),
        window matches Some(size) ==> {
            &&& (r == Err::<ResizePlan, ResourceError>(ResourceError::EmptyViewport) <==> (
            size.width == 0 || size.height == 0))
            &&& (r == Err::<ResizePlan, ResourceError>(ResourceError::IdentityExhausted) <==> (
            size.width > 0 && size.height > 0 && old(set).differs(size) && old(set).exhausted()))
            &&& (r is Err ==> *final(set) == *old(set))
            &&& (r is Ok ==> r->Ok_0 == old(set).plan_spec(size) && *final(set) == old(
                set,
            ).resized_spec(size) && final(set).wf() && final(set).sized(size))
        },
        final(set).bound(),
{
    match window {
        None => Ok(
            ResizePlan {
                write_dimensions: false,
                mask_multisample: false,
                mask_output: false,
                jfa_primary: false,
                jfa_secondary: false,
                jfa_final: false,
                jfa_init_group: false,
                from_primary_group: false,
                from_secondary_group: false,
                ripples_src_group: false,
            },
        ),
        Some(size) => set.resize(size),
    }
}

/// Replaces a texture whose size differs from `size`.
pub fn replace_texture(t: TextureState, size: Extent) -> (r: TextureState)
    requires
        t.generation < u64::MAX,
    ensures
        r == resized_texture(t, size),
        r.size == size,
        (r.generation != t.generation) == (t.size != size),
{
    if t.size == size {
        t
    } else {
        TextureState { size, generation: t.generation + 1 }
    }
}

/// Resizing twice to one size replaces nothing the second time: the second
/// plan is empty and every texture and bind group keeps its identity.
pub proof fn lemma_resize_idempotent(set: ResourceSet, size: Extent)
    ensures
        set.resized_spec(size).sized(size),
        set.resized_spec(size).plan_spec(size).is_noop(),
        set.resized_spec(size).resized_spec(size) == set.resized_spec(size),
{
    let once = set.resized_spec(size);
    assert(forall|role: TextureRole| (#[trigger] once.texture(role)).size == size);
}

/// A resize leaves no bind group stale, whatever it replaced.
pub proof fn lemma_resize_keeps_bound(set: ResourceSet, size: Extent)
    requires
        set.bound(),
    ensures
        set.resized_spec(size).bound(),
{
}

/// A resize rebuilds a bind group exactly when it replaces a texture that the
/// bind group samples.
pub proof fn lemma_rebuild_follows_replace(set: ResourceSet, size: Extent)
    ensures
        set.plan_spec(size).jfa_init_group == set.plan_spec(size).replaces(
            TextureRole::MaskOutput,
        ),
        set.plan_spec(size).from_primary_group == set.plan_spec(size).replaces(
            TextureRole::JfaPrimary,
        ),
        set.plan_spec(size).from_secondary_group == set.plan_spec(size).replaces(
            TextureRole::JfaSecondary,
        ),
        set.plan_spec(size).ripples_src_group == (set.plan_spec(size).replaces(
            TextureRole::JfaFinal,
        ) || set.plan_spec(size).replaces(TextureRole::MaskOutput)),
{
}

} // verus!

use vstd::prelude::*;

verus! {

/// `anyhow::Error`, carried opaquely in results that the library hands back.
#[verifier::external_type_specification]
#[verifier::external_body]
pub struct ExAnyhowError(anyhow::Error);

/// Render quality settings
#[derive(Debug, Clone, Copy, PartialEq, Eq, Structural)]
pub enum RenderQuality {
    /// Fastest rendering, lower quality
    Fast,
    /// Balanced quality and performance
    Balanced,
    /// Highest quality rendering
    HighQuality,
    /// Maximum quality with all effects
    Ultra,
}

/// The GPU-accelerated rendering pipeline settings.
pub struct RenderPipeline {
    initialized: bool,
    quality: RenderQuality,
    sample_count: u32,
}

/// The multisample counts that a pipeline accepts as they are.
pub open spec fn is_valid_sample_count(count: u32) -> bool {
    count == 1 || count == 2 || count == 4 || count == 8
}

impl RenderPipeline {
    /// The sample count is always one that a pipeline accepts.
    #[verifier::type_invariant]
    spec fn sample_count_is_valid(&self) -> bool {
        is_valid_sample_count(self.sample_count)
    }

    pub closed spec fn spec_initialized(&self) -> bool {
        self.initialized
    }

    pub closed spec fn spec_quality(&self) -> RenderQuality {
        self.quality
    }

    pub closed spec fn spec_sample_count(&self) -> u32 {
        self.sample_count
    }

    /// Create a new render pipeline
    pub fn new() -> (r: Self)
        ensures
            !r.spec_initialized(),
            r.spec_quality() == RenderQuality::Balanced,
            r.spec_sample_count() == 4,
    {
        RenderPipeline { initialized: false, quality: RenderQuality::Balanced, sample_count: 4 }
    }

    /// Initialize the pipeline; this cannot fail.
    pub fn initialize(&mut self) -> (r: Result<(), anyhow::Error>)
        ensures
            r is Ok,
            final(self).spec_initialized(),
            final(self).spec_quality() == old(self).spec_quality(),
            final(self).spec_sample_count() == old(self).spec_sample_count(),
    {
        proof {
            use_type_invariant(&*self);
        }
        self.initialized = true;
        Ok(())
    }

    /// Check if the pipeline is initialized
    pub fn is_initialized(&self) -> (r: bool)
        ensures
            r == self.spec_initialized(),
    {
        self.initialized
    }

    /// Set the rendering quality
    pub fn set_quality(&mut self, quality: RenderQuality)
        ensures
            final(self).spec_quality() == quality,
            final(self).spec_initialized() == old(self).spec_initialized(),
            final(self).spec_sample_count() == old(self).spec_sample_count(),
    {
        proof {
            use_type_invariant(&*self);
        }
        self.quality = quality;
    }

    /// Get the current rendering quality
    pub fn quality(&self) -> (r: RenderQuality)
        ensures
            r == self.spec_quality(),
    {
        self.quality
    }

    /// Get the current MSAA sample count: always 1, 2, 4 or 8.
    pub fn sample_count(&self) -> (r: u32)
        ensures
            r == self.spec_sample_count(),
            is_valid_sample_count(r),
    {
        proof {
            use_type_invariant(self);
        }
        self.sample_count
    }

    /// Set the MSAA sample count: 1, 2, 4 and 8 are taken as they are, anything else becomes 4.
    pub fn set_sample_count(&mut self, count: u32)
        ensures
            final(self).spec_sample_count() == (if is_valid_sample_count(count) { count } else { 4 }),
            final(self).spec_initialized() == old(self).spec_initialized(),
            final(self).spec_quality() == old(self).spec_quality(),
    {
        self.sample_count = if count == 1 || count == 2 || count == 4 || count == 8 {
            count
        } else {
            4
        };
    }

    /// Get supported texture formats for the current adapter
    pub fn supported_formats() -> (r: Vec<&'static str>)
        ensures
            r@.len() == 4,
            r@[0]@ == "Rgba8UnormSrgb"@,
            r@[1]@ == "Bgra8UnormSrgb"@,
            r@[2]@ == "Rgba16Float"@,
            r@[3]@ == "Rgba32Float"@,
    {
        vec!["Rgba8UnormSrgb", "Bgra8UnormSrgb", "Rgba16Float", "Rgba32Float"]
    }
}

impl Default for RenderPipeline {
    fn default() -> (r: Self)
        ensures
            !r.spec_initialized(),
            r.spec_quality() == RenderQuality::Balanced,
            r.spec_sample_count() == 4,
    {
        Self::new()
    }
}

} // verus!

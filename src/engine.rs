//! The engine that coordinates model loading, inference and blending.
use vstd::prelude::*;
use crate::blend::{blend, blend_spec};
use crate::cache::{next_attempt, LoadStep, ModelCache, Slot};
use crate::layout::{interleaved_spec, to_interleaved};
use crate::codec::{ints, postprocess, postprocess_spec, preprocess, preprocess_spec};
use crate::error::EngineError;
use crate::fixed::ONE;
use crate::registry::{
    find_style, registry, style_at, style_description, style_id, style_named, style_size, style_url, tensor_len,
    ModelMetadata, Style, CHANNELS, STYLE_COUNT, STYLE_SIDE,
};
use crate::simulate::{simulate, simulate_spec};

verus! {

/// A read-only summary of the engine's state.
pub struct EngineStats {
    pub models_loaded: usize,
    pub webgpu_available: bool,
    /// Model bytes held by the cache.
    pub total_cached_bytes: u128,
}

/// The style-transfer engine.
pub struct StyleTransferEngine {
    cache: ModelCache,
    webgpu_available: bool,
}

/// What inference gives for style `s` on `input`: the compiled model's
/// channel-planar output, reordered to the interleaved layout, when a compiled
/// model is cached and its output has the input's length; the simulated
/// transform otherwise.
pub open spec fn infer_spec(
    compiled: bool,
    s: Style,
    input: Seq<int>,
    neural_output: Option<Vec<i32>>,
) -> Seq<int> {
    if compiled && neural_output is Some && neural_output->0@.len() == input.len() {
        ints(interleaved_spec(neural_output->0@, pixel_count() as int))
    } else {
        simulate_spec(s, input, STYLE_SIDE as int)
    }
}

/// The tensor that reaches the output stage: the inferred one at full strength,
/// else its blend with the input.
pub open spec fn stage_spec(input: Seq<int>, inferred: Seq<int>, strength: int) -> Seq<int> {
    if strength >= ONE {
        inferred
    } else {
        blend_spec(input, inferred, strength)
    }
}

/// Number of pixels of every style's input raster.
pub open spec fn pixel_count() -> nat {
    (STYLE_SIDE * STYLE_SIDE) as nat
}

impl StyleTransferEngine {
    /// The cache is well formed.
    pub closed spec fn wf(&self) -> bool {
        self.cache.wf()
    }

    /// The cache of model entries.
    pub closed spec fn cache_spec(&self) -> ModelCache {
        self.cache
    }

    /// Whether an accelerated backend was reported available.
    pub closed spec fn gpu_spec(&self) -> bool {
        self.webgpu_available
    }

    /// An engine with an empty cache and no accelerated backend.
    pub fn new() -> (r: StyleTransferEngine)
        ensures
            r.wf(),
            forall|s: Style| r.cache_spec().slot(s) is Empty,
            forall|s: Style| r.cache_spec().entry(s) is None,
            r.cache_spec().loaded_spec() == 0,
            r.cache_spec().bytes_spec() == 0,
            !r.gpu_spec(),
    {
        StyleTransferEngine { cache: ModelCache::new(), webgpu_available: false }
    }

    /// Records whether the accelerated backend probe succeeded.
    pub fn initialize(&mut self, gpu_ready: bool)
        requires
            old(self).wf(),
        ensures
            final(self).wf(),
            final(self).gpu_spec() == gpu_ready,
            final(self).cache_spec() == old(self).cache_spec(),
    {
        self.webgpu_available = gpu_ready;
    }

    /// The descriptors of every style, in registry order.
    pub fn get_models(&self) -> (r: Vec<ModelMetadata>)
        ensures
            r@.len() == STYLE_COUNT,
            forall|i: int|
                0 <= i < STYLE_COUNT ==> {
                    &&& (#[trigger] r@[i]).name@ == style_id(style_at(i))
                    &&& r@[i].model_url@ == style_url(style_at(i))
                    &&& r@[i].description@ == style_description(style_at(i))
                    &&& r@[i].size_mb_tenths == style_size(style_at(i))
                    &&& r@[i].input_width == STYLE_SIDE
                    &&& r@[i].input_height == STYLE_SIDE
                    &&& r@[i].input_channels == CHANNELS
                },
    {
        registry()
    }

    /// The first step of loading a style's model: see `ModelCache::ensure_loaded`.
    pub fn load_model(&mut self, model_name: &str) -> (r: Result<LoadStep, EngineError>)
        requires
            old(self).wf(),
        ensures
            final(self).wf(),
            final(self).gpu_spec() == old(self).gpu_spec(),
            match r {
                Err(e) => e == EngineError::UnknownStyle && style_named(model_name@) is None
                    && forall|o: Style| final(self).cache_spec().slot(o) == old(self).cache_spec().slot(o),
                Ok(LoadStep::Ready) => style_named(model_name@) is Some && old(self).cache_spec().entry(
                    style_named(model_name@)->0,
                ) is Some && forall|o: Style|
                    final(self).cache_spec().slot(o) == old(self).cache_spec().slot(o),
                Ok(LoadStep::Wait { attempt }) => style_named(model_name@) is Some && old(self).cache_spec().slot(style_named(model_name@)->0) == (Slot::Pending { attempt })
                    && forall|o: Style|
                    final(self).cache_spec().slot(o) == old(self).cache_spec().slot(o),
                Ok(LoadStep::Fetch { style, url, attempt }) => {
                    &&& style_named(model_name@) == Some(style)
                    &&& (old(self).cache_spec().slot(style) is Empty || old(self).cache_spec().slot(
                        style,
                    ) is Failed)
                    &&& attempt == next_attempt(old(self).cache_spec().slot(style))
                    &&& final(self).cache_spec().slot(style) == (Slot::Pending { attempt })
                    &&& url@ == style_url(style)
                    &&& forall|o: Style|
                        o != style ==> final(self).cache_spec().slot(o) == old(self).cache_spec().slot(o)
                },
            },
            final(self).cache_spec().loaded_spec() == old(self).cache_spec().loaded_spec(),
            final(self).cache_spec().bytes_spec() == old(self).cache_spec().bytes_spec(),
    {
        self.cache.ensure_loaded(model_name)
    }

    /// What a caller waiting on fetch attempt `attempt` learns: see
    /// `ModelCache::poll_load`.
    pub fn poll_load(&self, model_name: &str, attempt: u64) -> (r: Result<LoadStep, EngineError>)
        requires
            self.wf(),
        ensures
            match r {
                Err(e) => (e == EngineError::UnknownStyle && style_named(model_name@) is None) || (e
                    == EngineError::AcquisitionError && style_named(model_name@) is Some
                    && self.cache_spec().entry(style_named(model_name@)->0) is None
                    && self.cache_spec().slot(style_named(model_name@)->0) != (Slot::Pending {
                    attempt,
                })),
                Ok(LoadStep::Ready) => style_named(model_name@) is Some && self.cache_spec().entry(
                    style_named(model_name@)->0,
                ) is Some,
                Ok(LoadStep::Wait { attempt: a }) => style_named(model_name@) is Some && a == attempt
                    && self.cache_spec().slot(style_named(model_name@)->0) == (Slot::Pending {
                    attempt,
                }),
                Ok(LoadStep::Fetch { .. }) => false,
            },
    {
        self.cache.poll_load(model_name, attempt)
    }

    /// The last step of fetch attempt `attempt`: see `ModelCache::complete_load`.
    pub fn finish_load(
        &mut self,
        style: Style,
        attempt: u64,
        fetched: Option<Vec<u8>>,
        compiled: bool,
    ) -> (r: Result<(), EngineError>)
        requires
            old(self).wf(),
        ensures
            final(self).wf(),
            final(self).gpu_spec() == old(self).gpu_spec(),
            forall|o: Style|
                o != style ==> final(self).cache_spec().slot(o) == old(self).cache_spec().slot(o),
            old(self).cache_spec().entry(style) is Some ==> r is Ok && final(self).cache_spec().slot(
                style,
            ) == old(self).cache_spec().slot(style) && final(self).cache_spec().loaded_spec() == old(self).cache_spec().loaded_spec() && final(self).cache_spec().bytes_spec() == old(self).cache_spec().bytes_spec(),
            old(self).cache_spec().entry(style) is None && fetched is None ==> {
                &&& r == Err::<(), EngineError>(EngineError::AcquisitionError)
                &&& old(self).cache_spec().slot(style) == (Slot::Pending { attempt }) ==> final(self).cache_spec().slot(style) == (Slot::Failed { attempt })
                &&& old(self).cache_spec().slot(style) != (Slot::Pending { attempt }) ==> final(self).cache_spec().slot(style) == old(self).cache_spec().slot(style)
                &&& final(self).cache_spec().loaded_spec() == old(self).cache_spec().loaded_spec()
                &&& final(self).cache_spec().bytes_spec() == old(self).cache_spec().bytes_spec()
            },
            old(self).cache_spec().entry(style) is None && fetched is Some ==> {
                &&& r is Ok
                &&& final(self).cache_spec().entry(style) is Some
                &&& final(self).cache_spec().entry(style)->0.raw_bytes@ == fetched->0@
                &&& final(self).cache_spec().entry(style)->0.compiled == compiled
                &&& final(self).cache_spec().loaded_spec() == old(self).cache_spec().loaded_spec() + 1
                &&& final(self).cache_spec().bytes_spec() == old(self).cache_spec().bytes_spec()
                    + fetched->0@.len()
            },
    {
        self.cache.complete_load(style, attempt, fetched, compiled)
    }

    /// Whether a compiled model is cached for the style named `style_name`.
    pub fn has_compiled_model(&self, style_name: &str) -> (r: bool)
        requires
            self.wf(),
        ensures
            r == (style_named(style_name@) is Some && self.cache_spec().compiled_spec(
                style_named(style_name@)->0,
            )),
    {
        match find_style(style_name) {
            Some(s) => self.cache.is_compiled(s),
            None => false,
        }
    }

    /// Produces the stylized tensor of `input` for the style named `style_id`.
    /// `neural_output` is what the compiled model gave on `input`, if it ran;
    /// it is used only when a compiled model is cached and its length matches,
    /// and the style's simulated transform runs otherwise.
    pub fn infer(&self, style_id: &str, input: &Vec<i32>, neural_output: Option<Vec<i32>>) -> (r:
        Result<Vec<i32>, EngineError>)
        requires
            self.wf(),
        ensures
            match r {
                Ok(out) => style_named(style_id@) is Some && input@.len() == tensor_len() && out@.len()
                    == input@.len() && ints(out@) == infer_spec(
                    self.cache_spec().compiled_spec(style_named(style_id@)->0),
                    style_named(style_id@)->0,
                    ints(input@),
                    neural_output,
                ),
                Err(e) => (style_named(style_id@) is None && e == EngineError::UnknownStyle) || (
                style_named(style_id@) is Some && input@.len() != tensor_len() && e
                    == EngineError::ShapeMismatch),
            },
    {
        let style = match find_style(style_id) {
            Some(s) => s,
            None => {
                return Err(EngineError::UnknownStyle);
            },
        };
        let expected: usize = 196608;
        assert(tensor_len() == 196608);
        assert(pixel_count() == 65536);
        if input.len() != expected {
            return Err(EngineError::ShapeMismatch);
        }
        if self.cache.is_compiled(style) {
            match neural_output {
                Some(out) => {
                    if out.len() == input.len() {
                        return Ok(to_interleaved(&out, STYLE_SIDE as usize, STYLE_SIDE as usize));
                    }
                },
                None => {},
            }
        }
        Ok(simulate(style, input, STYLE_SIDE))
    }

    /// Stylizes an RGBA raster of the style's input size, the style's model
    /// having been loaded (an acquisition error otherwise): normalizes it, runs
    /// inference, blends toward the input by `strength` millionths (skipped at
    /// full strength), and returns the opaque RGBA raster of the result.
    /// `neural_output` is as for `infer`, the compiled model having been run on
    /// the normalized raster.
    pub fn process_image(
        &self,
        pixels: &Vec<u8>,
        style_name: &str,
        strength: i64,
        neural_output: Option<Vec<i32>>,
    ) -> (r: Result<Vec<u8>, EngineError>)
        requires
            self.wf(),
        ensures
            match r {
                Ok(out) => {
                    &&& style_named(style_name@) is Some
                    &&& self.cache_spec().entry(style_named(style_name@)->0) is Some
                    &&& pixels@.len() == pixel_count() * 4
                    &&& out@ == postprocess_spec(
                        stage_spec(
                            preprocess_spec(pixels@),
                            infer_spec(
                                self.cache_spec().compiled_spec(style_named(style_name@)->0),
                                style_named(style_name@)->0,
                                preprocess_spec(pixels@),
                                neural_output,
                            ),
                            strength as int,
                        ),
                        pixel_count(),
                    )
                },
                Err(e) => (style_named(style_name@) is None && e == EngineError::UnknownStyle) || (
                style_named(style_name@) is Some && self.cache_spec().entry(
                    style_named(style_name@)->0,
                ) is None && e == EngineError::AcquisitionError) || (style_named(style_name@) is Some
                    && self.cache_spec().entry(style_named(style_name@)->0) is Some
                    && pixels@.len() != pixel_count() * 4 && e == EngineError::DecodeError),
            },
    {
        match find_style(style_name) {
            None => {
                return Err(EngineError::UnknownStyle);
            },
            Some(style) => {
                if !self.cache.is_loaded(style) {
                    return Err(EngineError::AcquisitionError);
                }
            },
        }
        let input = preprocess(pixels, STYLE_SIDE, STYLE_SIDE)?;
        proof {
            assert(pixels@.len() == 262144);
            assert(ints(input@).len() == input@.len());
            assert(input@.len() == tensor_len());
        }
        let styled = match self.infer(style_name, &input, neural_output) {
            Ok(t) => t,
            Err(e) => {
                return Err(e);
            },
        };
        proof {
            assert(ints(styled@).len() == styled@.len());
            assert(ints(styled@).len() == ints(input@).len());
        }
        let out_tensor = if strength >= ONE {
            styled
        } else {
            blend(&input, &styled, strength)
        };
        assert(ints(out_tensor@).len() == out_tensor@.len());
        Ok(postprocess(&out_tensor, STYLE_SIDE, STYLE_SIDE))
    }

    /// Number of model bytes held by the cache.
    pub fn get_memory_usage(&self) -> (r: u128)
        requires
            self.wf(),
        ensures
            r == self.cache_spec().bytes_spec(),
    {
        self.cache.cached_bytes()
    }

    /// A summary of the cache and the accelerated backend.
    pub fn get_stats(&self) -> (r: EngineStats)
        requires
            self.wf(),
        ensures
            r.models_loaded == self.cache_spec().loaded_spec(),
            r.webgpu_available == self.gpu_spec(),
            r.total_cached_bytes == self.cache_spec().bytes_spec(),
    {
        EngineStats {
            models_loaded: self.cache.models_loaded(),
            webgpu_available: self.webgpu_available,
            total_cached_bytes: self.get_memory_usage(),
        }
    }
}

} // verus!

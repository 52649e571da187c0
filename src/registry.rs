//! The fixed catalogue of styles and their model descriptors.
use vstd::prelude::*;

verus! {

/// Number of registered styles.
pub const STYLE_COUNT: usize = 5;

/// Width and height, in pixels, of every style's input tensor.
pub const STYLE_SIDE: u32 = 256;

/// Channels per pixel of every style's input tensor.
pub const CHANNELS: u32 = 3;

/// One of the registered styles.
#[derive(Debug, Clone, Copy, PartialEq, Eq, Hash, Structural)]
pub enum Style {
    /// Painterly swirl.
    VanGoghStarryNight,
    /// Geometric blocks.
    PicassoCubist,
    /// Neon colour grading.
    CyberpunkNeon,
    /// Soft impressionist light.
    MonetWaterLilies,
    /// Cel-shaded animation.
    AnimeStudioGhibli,
}

/// Descriptor of a style's model.
#[derive(Debug, Clone)]
pub struct ModelMetadata {
    pub name: String,
    /// Size of the model file in tenths of a megabyte.
    pub size_mb_tenths: u32,
    pub input_width: u32,
    pub input_height: u32,
    pub input_channels: u32,
    pub model_url: String,
    pub description: String,
}

/// The style at position `i` of the registry.
pub open spec fn style_at(i: int) -> Style {
    if i == 0 {
        Style::VanGoghStarryNight
    } else if i == 1 {
        Style::PicassoCubist
    } else if i == 2 {
        Style::CyberpunkNeon
    } else if i == 3 {
        Style::MonetWaterLilies
    } else {
        Style::AnimeStudioGhibli
    }
}

/// The identifier of a style.
pub open spec fn style_id(s: Style) -> Seq<char> {
    match s {
        Style::VanGoghStarryNight => "van_gogh_starry_night"@,
        Style::PicassoCubist => "picasso_cubist"@,
        Style::CyberpunkNeon => "cyberpunk_neon"@,
        Style::MonetWaterLilies => "monet_water_lilies"@,
        Style::AnimeStudioGhibli => "anime_studio_ghibli"@,
    }
}

/// Where a style's model weights are fetched from.
pub open spec fn style_url(s: Style) -> Seq<char> {
    match s {
        Style::VanGoghStarryNight => "/models/van_gogh_starry_night.onnx"@,
        Style::PicassoCubist => "/models/picasso_cubist.onnx"@,
        Style::CyberpunkNeon => "/models/cyberpunk_neon.onnx"@,
        Style::MonetWaterLilies => "/models/monet_water_lilies.onnx"@,
        Style::AnimeStudioGhibli => "/models/anime_studio_ghibli.onnx"@,
    }
}

/// A one-line description of a style.
pub open spec fn style_description(s: Style) -> Seq<char> {
    match s {
        Style::VanGoghStarryNight => "Neural style transfer trained on Van Gogh's masterpiece"@,
        Style::PicassoCubist => "Geometric abstraction in revolutionary cubist style"@,
        Style::CyberpunkNeon => "Futuristic digital enhancement with neon aesthetics"@,
        Style::MonetWaterLilies => "Impressionist technique capturing light and atmosphere"@,
        Style::AnimeStudioGhibli => "Studio Ghibli inspired animation transformation"@,
    }
}

/// The size of a style's model file, in tenths of a megabyte.
pub open spec fn style_size(s: Style) -> u32 {
    match s {
        Style::VanGoghStarryNight => 24,
        Style::PicassoCubist => 21,
        Style::CyberpunkNeon => 28,
        Style::MonetWaterLilies => 23,
        Style::AnimeStudioGhibli => 26,
    }
}

/// Number of elements of a style's input tensor.
pub open spec fn tensor_len() -> int {
    STYLE_SIDE * STYLE_SIDE * CHANNELS
}

/// The style whose identifier is `id`, if any.
pub open spec fn style_named(id: Seq<char>) -> Option<Style> {
    if id == style_id(Style::VanGoghStarryNight) {
        Some(Style::VanGoghStarryNight)
    } else if id == style_id(Style::PicassoCubist) {
        Some(Style::PicassoCubist)
    } else if id == style_id(Style::CyberpunkNeon) {
        Some(Style::CyberpunkNeon)
    } else if id == style_id(Style::MonetWaterLilies) {
        Some(Style::MonetWaterLilies)
    } else if id == style_id(Style::AnimeStudioGhibli) {
        Some(Style::AnimeStudioGhibli)
    } else {
        None
    }
}

/// No two styles share an identifier.
pub proof fn lemma_ids_distinct(a: Style, b: Style)
    requires
        a != b,
    ensures
        style_id(a) != style_id(b),
{
    reveal_strlit("van_gogh_starry_night");
    reveal_strlit("picasso_cubist");
    reveal_strlit("cyberpunk_neon");
    reveal_strlit("monet_water_lilies");
    reveal_strlit("anime_studio_ghibli");
    assert(style_id(a).len() != style_id(b).len() || style_id(a)[0] != style_id(b)[0]
        || style_id(a)[1] != style_id(b)[1]);
}

impl Style {
    /// Position of the style in the registry.
    pub open spec fn index_spec(self) -> int {
        match self {
            Style::VanGoghStarryNight => 0,
            Style::PicassoCubist => 1,
            Style::CyberpunkNeon => 2,
            Style::MonetWaterLilies => 3,
            Style::AnimeStudioGhibli => 4,
        }
    }

    /// Position of the style in the registry.
    pub fn index(self) -> (r: usize)
        ensures
            r == self.index_spec(),
            r < STYLE_COUNT,
            style_at(r as int) == self,
    {
        match self {
            Style::VanGoghStarryNight => 0,
            Style::PicassoCubist => 1,
            Style::CyberpunkNeon => 2,
            Style::MonetWaterLilies => 3,
            Style::AnimeStudioGhibli => 4,
        }
    }

    /// The style's identifier.
    pub fn id(self) -> (r: String)
        ensures
            r@ == style_id(self),
    {
        match self {
            Style::VanGoghStarryNight => "van_gogh_starry_night".to_owned(),
            Style::PicassoCubist => "picasso_cubist".to_owned(),
            Style::CyberpunkNeon => "cyberpunk_neon".to_owned(),
            Style::MonetWaterLilies => "monet_water_lilies".to_owned(),
            Style::AnimeStudioGhibli => "anime_studio_ghibli".to_owned(),
        }
    }

    /// Where the style's model weights are fetched from.
    pub fn model_url(self) -> (r: String)
        ensures
            r@ == style_url(self),
    {
        match self {
            Style::VanGoghStarryNight => "/models/van_gogh_starry_night.onnx".to_owned(),
            Style::PicassoCubist => "/models/picasso_cubist.onnx".to_owned(),
            Style::CyberpunkNeon => "/models/cyberpunk_neon.onnx".to_owned(),
            Style::MonetWaterLilies => "/models/monet_water_lilies.onnx".to_owned(),
            Style::AnimeStudioGhibli => "/models/anime_studio_ghibli.onnx".to_owned(),
        }
    }

    /// A one-line description of the style.
    pub fn description(self) -> (r: String)
        ensures
            r@ == style_description(self),
    {
        match self {
            Style::VanGoghStarryNight => "Neural style transfer trained on Van Gogh's masterpiece".to_owned(),
            Style::PicassoCubist => "Geometric abstraction in revolutionary cubist style".to_owned(),
            Style::CyberpunkNeon => "Futuristic digital enhancement with neon aesthetics".to_owned(),
            Style::MonetWaterLilies => "Impressionist technique capturing light and atmosphere".to_owned(),
            Style::AnimeStudioGhibli => "Studio Ghibli inspired animation transformation".to_owned(),
        }
    }

    /// The style's model descriptor.
    pub fn metadata(self) -> (r: ModelMetadata)
        ensures
            r.name@ == style_id(self),
            r.model_url@ == style_url(self),
            r.description@ == style_description(self),
            r.size_mb_tenths == style_size(self),
            r.input_width == STYLE_SIDE,
            r.input_height == STYLE_SIDE,
            r.input_channels == CHANNELS,
    {
        let size: u32 = match self {
            Style::VanGoghStarryNight => 24,
            Style::PicassoCubist => 21,
            Style::CyberpunkNeon => 28,
            Style::MonetWaterLilies => 23,
            Style::AnimeStudioGhibli => 26,
        };
        ModelMetadata {
            name: self.id(),
            size_mb_tenths: size,
            input_width: STYLE_SIDE,
            input_height: STYLE_SIDE,
            input_channels: CHANNELS,
            model_url: self.model_url(),
            description: self.description(),
        }
    }
}

/// Every style's descriptor, in registry order.
pub fn registry() -> (r: Vec<ModelMetadata>)
    ensures
        r@.len() == STYLE_COUNT,
        forall|i: int|
            0 <= i < STYLE_COUNT ==> {
                &&& (#[trigger] r@[i]).name@ == style_id(style_at(i))
                &&& r@[i].model_url@ == style_url(style_at(i))
                &&& r@[i].description@ == style_description(style_at(i))
                &&& r@[i].size_mb_tenths == style_size(style_at(i))
                &&& r@[i].input_width == STYLE_SIDE
                &&& r@[i].input_height == STYLE_SIDE
                &&& r@[i].input_channels == CHANNELS
            },
{
    let mut r: Vec<ModelMetadata> = Vec::new();
    r.push(Style::VanGoghStarryNight.metadata());
    r.push(Style::PicassoCubist.metadata());
    r.push(Style::CyberpunkNeon.metadata());
    r.push(Style::MonetWaterLilies.metadata());
    r.push(Style::AnimeStudioGhibli.metadata());
    r
}

/// Looks a style up by its identifier.
pub fn find_style(id: &str) -> (r: Option<Style>)
    ensures
        r == style_named(id@),
        match r {
            Some(s) => style_id(s) == id@,
            None => forall|s: Style| style_id(s) != id@,
        },
{
    let owned = id.to_owned();
    let candidates: [Style; 5] = [
        Style::VanGoghStarryNight,
        Style::PicassoCubist,
        Style::CyberpunkNeon,
        Style::MonetWaterLilies,
        Style::AnimeStudioGhibli,
    ];
    let mut i: usize = 0;
    while i < 5
        invariant
            owned@ == id@,
            forall|k: int| 0 <= k < 5 ==> candidates@[k] == style_at(k),
            forall|k: int| 0 <= k < i ==> style_id(#[trigger] style_at(k)) != id@,
        decreases 5 - i,
    {
        let s = candidates[i];
        if s.id() == owned {
            proof {
                assert forall|o: Style| o != s implies style_id(o) != id@ by {
                    lemma_ids_distinct(o, s);
                }
            }
            return Some(s);
        }
        i = i + 1;
    }
    proof {
        assert forall|s: Style| style_id(s) != id@ by {
            assert(style_at(s.index_spec()) == s);
        }
    }
    None
}

} // verus!

//! Displacement map filter.
use crate::commands::BitmapHandle;
use crate::filters::{FilterBinding, FilterPipeline};
use crate::geometry::{Color, Size};
use vstd::prelude::*;

verus! {

/// What lies beyond the edges of a displaced image.
#[derive(Clone, Copy, PartialEq, Eq, Structural, Debug)]
pub enum DisplacementMapFilterMode {
    Wrap,
    Clamp,
    Ignore,
    Color,
}

/// A displacement map filter. Scales are IEEE-754 single precision bit patterns,
/// which are passed on to the GPU untouched.
#[derive(Clone, Copy, PartialEq, Eq, Structural, Debug)]
pub struct DisplacementMapFilter {
    pub color: Color,
    pub component_x: u8,
    pub component_y: u8,
    pub map_bitmap: Option<BitmapHandle>,
    pub map_x: i32,
    pub map_y: i32,
    pub mode: DisplacementMapFilterMode,
    pub scale_x: u32,
    pub scale_y: u32,
    pub viewscale_x: u32,
    pub viewscale_y: u32,
}

/// What the displacement map shader needs to know.
#[derive(Clone, Copy, PartialEq, Eq, Structural, Debug)]
pub struct DisplacementMapUniform {
    pub color: Color,
    /// 00000000 00000000 XXXXXXXX YYYYYYYY
    pub components: u32,
    /// 0 wrap, 1 clamp, 2 ignore, 3 color
    pub mode: u32,
    pub scale_x: u32,
    pub scale_y: u32,
    pub source: Size,
    pub map: Size,
    pub offset_x: i32,
    pub offset_y: i32,
    pub viewscale_x: u32,
    pub viewscale_y: u32,
}

/// The number of a mode.
pub open spec fn mode_code(mode: DisplacementMapFilterMode) -> u32 {
    match mode {
        DisplacementMapFilterMode::Wrap => 0,
        DisplacementMapFilterMode::Clamp => 1,
        DisplacementMapFilterMode::Ignore => 2,
        DisplacementMapFilterMode::Color => 3,
    }
}

/// The bytes of the uniform block of a displacement: a color and twelve numbers.
pub const DISPLACEMENT_MAP_UNIFORM_SIZE: u64 = 64;

/// What the displacement shader finds at its bindings: the source, the map,
/// a sampler that filters, one that does not, and the uniform block.
pub open spec fn displacement_map_bindings() -> Seq<FilterBinding> {
    seq![
        FilterBinding::Texture { filterable: true },
        FilterBinding::Texture { filterable: true },
        FilterBinding::Sampler { filtering: true },
        FilterBinding::Sampler { filtering: false },
        FilterBinding::Uniform { min_size: DISPLACEMENT_MAP_UNIFORM_SIZE, for_vertices: false },
    ]
}

impl DisplacementMapFilter {
    /// The pipeline that displaces.
    pub fn pipeline() -> (r: FilterPipeline)
        ensures
            r.bindings@ == displacement_map_bindings(),
            r.vertex_pairs == 2,
    {
        let bindings = vec![
            FilterBinding::Texture { filterable: true },
            FilterBinding::Texture { filterable: true },
            FilterBinding::Sampler { filtering: true },
            FilterBinding::Sampler { filtering: false },
            FilterBinding::Uniform {
                min_size: DISPLACEMENT_MAP_UNIFORM_SIZE,
                for_vertices: false,
            },
        ];
        assert(bindings@ == displacement_map_bindings());
        FilterPipeline { bindings, vertex_pairs: 2 }
    }

    /// What the shader needs to know, for a source texture of a given size. None
    /// without a map.
    pub fn apply(&self, source: Size) -> (r: Option<DisplacementMapUniform>)
        ensures
            r == match self.map_bitmap {
                None => None,
                Some(map) => Some(
                    DisplacementMapUniform {
                        color: self.color,
                        components: (256 * self.component_x + self.component_y) as u32,
                        mode: mode_code(self.mode),
                        scale_x: self.scale_x,
                        scale_y: self.scale_y,
                        source,
                        map: Size { width: map.width, height: map.height },
                        offset_x: self.map_x,
                        offset_y: self.map_y,
                        viewscale_x: self.viewscale_x,
                        viewscale_y: self.viewscale_y,
                    },
                ),
            },
    {
        let map = match self.map_bitmap {
            Some(map) => map,
            None => {
                return None;
            },
        };
        let (x, y): (u32, u32) = (self.component_x as u32, self.component_y as u32);
        proof {
            assert((x << 8) | y == 256 * x + y) by (bit_vector)
                requires
                    x < 256,
                    y < 256,
            ;
        }
        Some(
            DisplacementMapUniform {
                color: self.color,
                components: (x << 8) | y,
                mode: match self.mode {
                    DisplacementMapFilterMode::Wrap => 0,
                    DisplacementMapFilterMode::Clamp => 1,
                    DisplacementMapFilterMode::Ignore => 2,
                    DisplacementMapFilterMode::Color => 3,
                },
                scale_x: self.scale_x,
                scale_y: self.scale_y,
                source,
                map: Size { width: map.width, height: map.height },
                offset_x: self.map_x,
                offset_y: self.map_y,
                viewscale_x: self.viewscale_x,
                viewscale_y: self.viewscale_y,
            },
        )
    }
}

} // verus!

//! Visual style of the canvas: geometric style values in fixed-point
//! units (scaled with the zoom) and colors as plain RGBA bytes. The
//! theme-dependent colors come in from the host; everything geometric is
//! computed and checked here.

use vstd::prelude::*;

use crate::geom::MAX_ZOOM;
use crate::geom::MIN_ZOOM;

verus! {

/// A color as straight RGBA bytes.
#[derive(Clone, Copy, PartialEq, Eq, Structural, Debug)]
pub struct Rgba {
    pub r: u8,
    pub g: u8,
    pub b: u8,
    pub a: u8,
}

/// A stroke: width in fixed-point units and a color.
#[derive(Clone, Copy, PartialEq, Eq, Structural, Debug)]
pub struct StrokeStyle {
    pub width: i64,
    pub color: Rgba,
}

/// Width factor of the cache toggle relative to its height, in
/// thousandths.
pub const CACHE_BUTTON_WIDTH_FACTOR: i64 = 3100;

/// Vertical padding factor of the cache toggle, in thousandths of the
/// layout padding.
pub const CACHE_BUTTON_VERTICAL_PAD_FACTOR: i64 = 400;

/// Text padding factor of the cache toggle, in thousandths of the layout
/// padding.
pub const CACHE_BUTTON_TEXT_PAD_FACTOR: i64 = 500;

/// The style [`GraphStyle::new`] builds for a zoom level and the host's
/// theme colors.
pub open spec fn style_spec(
    scale: int,
    node_fill: Rgba,
    node_stroke: StrokeStyle,
    selection_color: Rgba,
) -> GraphStyle {
    GraphStyle {
        scale: scale as i64,
        header_text_offset: (4 * scale) as i64,
        status_dot_radius: (4 * scale) as i64,
        status_item_gap: (6 * scale) as i64,
        dotted_base_spacing: 24_000,
        dotted_radius_base: 1_200,
        dotted_radius_min: 600,
        dotted_radius_max: 2_400,
        cache_active_color: (Rgba { r: 240, g: 205, b: 90, a: 255 }),
        cache_checked_text_color: (Rgba { r: 60, g: 50, b: 20, a: 255 }),
        input_port_color: (Rgba { r: 70, g: 150, b: 255, a: 255 }),
        output_port_color: (Rgba { r: 70, g: 200, b: 200, a: 255 }),
        input_hover_color: (Rgba { r: 120, g: 190, b: 255, a: 255 }),
        output_hover_color: (Rgba { r: 110, g: 230, b: 210, a: 255 }),
        connection_stroke: (StrokeStyle {
            width: 2_000,
            color: (Rgba { r: 80, g: 160, b: 255, a: 255 }),
        }),
        connection_highlight_stroke: (StrokeStyle {
            width: 2_500,
            color: (Rgba { r: 255, g: 90, b: 90, a: 255 }),
        }),
        temp_connection_stroke: (StrokeStyle {
            width: 2_000,
            color: (Rgba { r: 170, g: 200, b: 255, a: 255 }),
        }),
        breaker_stroke: (StrokeStyle {
            width: 2_500,
            color: (Rgba { r: 255, g: 120, b: 120, a: 255 }),
        }),
        dotted_color: (Rgba { r: 255, g: 255, b: 255, a: 28 }),
        node_fill,
        node_stroke,
        selected_stroke: (StrokeStyle {
            width: (if node_stroke.width >= 2_000 {
                node_stroke.width
            } else {
                2_000
            }) as i64,
            color: selection_color,
        }),
    }
}

/// Style values for one frame at one zoom level.
#[derive(Clone, Copy, PartialEq, Eq, Structural, Debug)]
pub struct GraphStyle {
    pub scale: i64,
    pub header_text_offset: i64,
    pub status_dot_radius: i64,
    pub status_item_gap: i64,
    pub dotted_base_spacing: i64,
    pub dotted_radius_base: i64,
    pub dotted_radius_min: i64,
    pub dotted_radius_max: i64,
    pub cache_active_color: Rgba,
    pub cache_checked_text_color: Rgba,
    pub input_port_color: Rgba,
    pub output_port_color: Rgba,
    pub input_hover_color: Rgba,
    pub output_hover_color: Rgba,
    pub connection_stroke: StrokeStyle,
    pub connection_highlight_stroke: StrokeStyle,
    pub temp_connection_stroke: StrokeStyle,
    pub breaker_stroke: StrokeStyle,
    pub dotted_color: Rgba,
    pub node_fill: Rgba,
    pub node_stroke: StrokeStyle,
    pub selected_stroke: StrokeStyle,
}

impl GraphStyle {
    /// The style invariant: the scale is a permitted zoom and every
    /// geometric value is in range (dot spacing and radius positive,
    /// radii ordered, gaps and widths non-negative and bounded).
    pub open spec fn wf(self) -> bool {
        &&& MIN_ZOOM <= self.scale <= MAX_ZOOM
        &&& 0 <= self.header_text_offset <= 1_000_000
        &&& 0 <= self.status_dot_radius <= 1_000_000
        &&& 0 <= self.status_item_gap <= 1_000_000
        &&& 0 < self.dotted_base_spacing <= 1_000_000
        &&& 0 < self.dotted_radius_base <= 1_000_000
        &&& 0 <= self.dotted_radius_min <= self.dotted_radius_max <= 1_000_000
        &&& 0 <= self.connection_stroke.width <= 1_000_000
        &&& 0 <= self.connection_highlight_stroke.width <= 1_000_000
        &&& 0 <= self.temp_connection_stroke.width <= 1_000_000
        &&& 0 <= self.breaker_stroke.width <= 1_000_000
        &&& 0 <= self.node_stroke.width <= 1_000_000
        &&& 0 <= self.selected_stroke.width <= 1_000_000
    }

    /// Build the frame style for a zoom level. The host supplies the
    /// theme-dependent colors (node fill and stroke, selection color)
    /// as plain values; everything geometric scales with the zoom.
    pub fn new(
        scale: i64,
        node_fill: Rgba,
        node_stroke: StrokeStyle,
        selection_color: Rgba,
    ) -> (r: GraphStyle)
        requires
            MIN_ZOOM <= scale <= MAX_ZOOM,
            0 <= node_stroke.width <= 1_000_000,
        ensures
            r.wf(),
            r == style_spec(scale as int, node_fill, node_stroke, selection_color),
    {
        let selected_width: i64 = if node_stroke.width >= 2_000 {
            node_stroke.width
        } else {
            2_000
        };
        GraphStyle {
            scale,
            header_text_offset: 4 * scale,
            status_dot_radius: 4 * scale,
            status_item_gap: 6 * scale,
            dotted_base_spacing: 24_000,
            dotted_radius_base: 1_200,
            dotted_radius_min: 600,
            dotted_radius_max: 2_400,
            cache_active_color: Rgba { r: 240, g: 205, b: 90, a: 255 },
            cache_checked_text_color: Rgba { r: 60, g: 50, b: 20, a: 255 },
            input_port_color: Rgba { r: 70, g: 150, b: 255, a: 255 },
            output_port_color: Rgba { r: 70, g: 200, b: 200, a: 255 },
            input_hover_color: Rgba { r: 120, g: 190, b: 255, a: 255 },
            output_hover_color: Rgba { r: 110, g: 230, b: 210, a: 255 },
            connection_stroke: StrokeStyle {
                width: 2_000,
                color: Rgba { r: 80, g: 160, b: 255, a: 255 },
            },
            connection_highlight_stroke: StrokeStyle {
                width: 2_500,
                color: Rgba { r: 255, g: 90, b: 90, a: 255 },
            },
            temp_connection_stroke: StrokeStyle {
                width: 2_000,
                color: Rgba { r: 170, g: 200, b: 255, a: 255 },
            },
            breaker_stroke: StrokeStyle {
                width: 2_500,
                color: Rgba { r: 255, g: 120, b: 120, a: 255 },
            },
            dotted_color: Rgba { r: 255, g: 255, b: 255, a: 28 },
            node_fill,
            node_stroke,
            selected_stroke: StrokeStyle { width: selected_width, color: selection_color },
        }
    }

    /// Check the style invariant on an arbitrary value.
    pub fn validate(&self) -> (r: bool)
        ensures
            r == self.wf(),
    {
        MIN_ZOOM <= self.scale && self.scale <= MAX_ZOOM && 0 <= self.header_text_offset
            && self.header_text_offset <= 1_000_000 && 0 <= self.status_dot_radius
            && self.status_dot_radius <= 1_000_000 && 0 <= self.status_item_gap
            && self.status_item_gap <= 1_000_000 && 0 < self.dotted_base_spacing
            && self.dotted_base_spacing <= 1_000_000 && 0 < self.dotted_radius_base
            && self.dotted_radius_base <= 1_000_000 && 0 <= self.dotted_radius_min
            && self.dotted_radius_min <= self.dotted_radius_max && self.dotted_radius_max
            <= 1_000_000 && 0 <= self.connection_stroke.width && self.connection_stroke.width
            <= 1_000_000 && 0 <= self.connection_highlight_stroke.width
            && self.connection_highlight_stroke.width <= 1_000_000
            && 0 <= self.temp_connection_stroke.width && self.temp_connection_stroke.width
            <= 1_000_000 && 0 <= self.breaker_stroke.width && self.breaker_stroke.width <= 1_000_000
            && 0 <= self.node_stroke.width && self.node_stroke.width <= 1_000_000
            && 0 <= self.selected_stroke.width && self.selected_stroke.width <= 1_000_000
    }
}

} // verus!

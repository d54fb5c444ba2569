//! The style of a node in a flexbox layout, in whole pixels and whole percents.

use vstd::prelude::*;

verus! {

/// How a container lines up its items across its main axis.
#[derive(Debug, Copy, Clone, PartialEq, Eq, Structural)]
pub enum AlignItems {
    FlexStart,
    FlexEnd,
    Center,
    Baseline,
    Stretch,
}

impl Default for AlignItems {
    fn default() -> (d: AlignItems)
        ensures
            d == AlignItems::Stretch,
    {
        AlignItems::Stretch
    }
}

/// How one item overrides the alignment of its container.
#[derive(Debug, Copy, Clone, PartialEq, Eq, Structural)]
pub enum AlignSelf {
    Auto,
    FlexStart,
    FlexEnd,
    Center,
    Baseline,
    Stretch,
}

impl Default for AlignSelf {
    fn default() -> (d: AlignSelf)
        ensures
            d == AlignSelf::Auto,
    {
        AlignSelf::Auto
    }
}

/// How the lines of a wrapping container are spread.
#[derive(Debug, Copy, Clone, PartialEq, Eq, Structural)]
pub enum AlignContent {
    FlexStart,
    FlexEnd,
    Center,
    Stretch,
    SpaceBetween,
    SpaceAround,
}

impl Default for AlignContent {
    fn default() -> (d: AlignContent)
        ensures
            d == AlignContent::Stretch,
    {
        AlignContent::Stretch
    }
}

/// The reading direction.
#[derive(Debug, Copy, Clone, PartialEq, Eq, Structural)]
pub enum Direction {
    Inherit,
    LTR,
    RTL,
}

impl Default for Direction {
    fn default() -> (d: Direction)
        ensures
            d == Direction::Inherit,
    {
        Direction::Inherit
    }
}

/// Whether a node takes part in layout.
#[derive(Debug, Copy, Clone, PartialEq, Eq, Structural)]
pub enum Display {
    Flex,
    /// The node and what it holds are left out of the layout.
    Nothing,
}

impl Default for Display {
    fn default() -> (d: Display)
        ensures
            d == Display::Flex,
    {
        Display::Flex
    }
}

/// The main axis of a container.
#[derive(Debug, Copy, Clone, PartialEq, Eq, Structural)]
pub enum FlexDirection {
    Row,
    Column,
    RowReverse,
    ColumnReverse,
}

impl Default for FlexDirection {
    fn default() -> (d: FlexDirection)
        ensures
            d == FlexDirection::Row,
    {
        FlexDirection::Row
    }
}

/// How a container spreads its items along its main axis.
#[derive(Debug, Copy, Clone, PartialEq, Eq, Structural)]
pub enum JustifyContent {
    FlexStart,
    FlexEnd,
    Center,
    SpaceBetween,
    SpaceAround,
    SpaceEvenly,
}

impl Default for JustifyContent {
    fn default() -> (d: JustifyContent)
        ensures
            d == JustifyContent::FlexStart,
    {
        JustifyContent::FlexStart
    }
}

/// What happens to content that does not fit.
#[derive(Debug, Copy, Clone, PartialEq, Eq, Structural)]
pub enum Overflow {
    Visible,
    Hidden,
    Scroll,
}

impl Default for Overflow {
    fn default() -> (d: Overflow)
        ensures
            d == Overflow::Visible,
    {
        Overflow::Visible
    }
}

/// Whether a node is placed in the flow or against its container.
#[derive(Debug, Copy, Clone, PartialEq, Eq, Structural)]
pub enum PositionType {
    Relative,
    Absolute,
}

impl Default for PositionType {
    fn default() -> (d: PositionType)
        ensures
            d == PositionType::Relative,
    {
        PositionType::Relative
    }
}

/// Whether a container breaks its items into lines.
#[derive(Debug, Copy, Clone, PartialEq, Eq, Structural)]
pub enum FlexWrap {
    NoWrap,
    Wrap,
    WrapReverse,
}

impl Default for FlexWrap {
    fn default() -> (d: FlexWrap)
        ensures
            d == FlexWrap::NoWrap,
    {
        FlexWrap::NoWrap
    }
}

/// A length that a style asks for.
#[derive(Debug, Copy, Clone, PartialEq, Eq, Structural)]
pub enum Dimension {
    Undefined,
    Auto,
    /// A length in whole pixels.
    Points(i32),
    /// A share of the container, in whole percents.
    Percent(i32),
}

impl Default for Dimension {
    fn default() -> (d: Dimension)
        ensures
            d == Dimension::Undefined,
    {
        Dimension::Undefined
    }
}

/// A width and a height that a style asks for.
#[derive(Debug, Copy, Clone, PartialEq, Eq, Structural)]
pub struct Dimensions {
    pub width: Dimension,
    pub height: Dimension,
}

impl Dimensions {
    /// Both lengths left to the layout.
    pub open spec fn auto() -> Dimensions {
        Dimensions { width: Dimension::Auto, height: Dimension::Auto }
    }
}

impl Default for Dimensions {
    fn default() -> (d: Dimensions)
        ensures
            d == Dimensions::auto(),
    {
        Dimensions { width: Dimension::Auto, height: Dimension::Auto }
    }
}

/// A length for each edge of a box.
#[derive(Debug, Copy, Clone, PartialEq, Eq, Structural)]
pub struct Edges {
    pub start: Dimension,
    pub end: Dimension,
    pub top: Dimension,
    pub bottom: Dimension,
}

impl Edges {
    /// No length given for any edge.
    pub open spec fn undefined() -> Edges {
        Edges {
            start: Dimension::Undefined,
            end: Dimension::Undefined,
            top: Dimension::Undefined,
            bottom: Dimension::Undefined,
        }
    }
}

impl Default for Edges {
    fn default() -> (e: Edges)
        ensures
            e == Edges::undefined(),
    {
        Edges {
            start: Dimension::Undefined,
            end: Dimension::Undefined,
            top: Dimension::Undefined,
            bottom: Dimension::Undefined,
        }
    }
}

/// The space that a layout may fill. `None` leaves a direction unbounded.
#[derive(Debug, Copy, Clone, PartialEq, Eq)]
pub struct AvailableSize {
    pub width: Option<i32>,
    pub height: Option<i32>,
}

/// How a node wants to be laid out.
#[derive(Debug, Copy, Clone, PartialEq, Eq, Structural)]
pub struct Style {
    pub display: Display,
    pub position_type: PositionType,
    pub direction: Direction,
    pub flex_direction: FlexDirection,
    pub flex_wrap: FlexWrap,
    pub overflow: Overflow,
    pub align_items: AlignItems,
    pub align_self: AlignSelf,
    pub align_content: AlignContent,
    pub justify_content: JustifyContent,
    pub position: Edges,
    pub margin: Edges,
    pub padding: Edges,
    pub border: Edges,
    /// The share of spare room that the node takes.
    pub flex_grow: u32,
    /// The share of missing room that the node gives up.
    pub flex_shrink: u32,
    pub flex_basis: Dimension,
    pub size: Dimensions,
    pub min_size: Dimensions,
    pub max_size: Dimensions,
}

impl Style {
    /// The style of a node that asks for nothing.
    pub open spec fn spec_default() -> Style {
        Style {
            display: Display::Flex,
            position_type: PositionType::Relative,
            direction: Direction::Inherit,
            flex_direction: FlexDirection::Row,
            flex_wrap: FlexWrap::NoWrap,
            overflow: Overflow::Visible,
            align_items: AlignItems::Stretch,
            align_self: AlignSelf::Auto,
            align_content: AlignContent::Stretch,
            justify_content: JustifyContent::FlexStart,
            position: Edges::undefined(),
            margin: Edges::undefined(),
            padding: Edges::undefined(),
            border: Edges::undefined(),
            flex_grow: 0,
            flex_shrink: 1,
            flex_basis: Dimension::Auto,
            size: Dimensions::auto(),
            min_size: Dimensions::auto(),
            max_size: Dimensions::auto(),
        }
    }

    /// This style with its size replaced.
    pub open spec fn spec_with_size(self, size: Dimensions) -> Style {
        Style { size, ..self }
    }

    /// This style with its size replaced.
    pub fn with_size(self, size: Dimensions) -> (s: Style)
        ensures
            s == self.spec_with_size(size),
    {
        Style { size, ..self }
    }
}

impl Default for Style {
    fn default() -> (s: Style)
        ensures
            s == Style::spec_default(),
    {
        Style {
            display: Display::Flex,
            position_type: PositionType::Relative,
            direction: Direction::Inherit,
            flex_direction: FlexDirection::Row,
            flex_wrap: FlexWrap::NoWrap,
            overflow: Overflow::Visible,
            align_items: AlignItems::Stretch,
            align_self: AlignSelf::Auto,
            align_content: AlignContent::Stretch,
            justify_content: JustifyContent::FlexStart,
            position: Edges::default(),
            margin: Edges::default(),
            padding: Edges::default(),
            border: Edges::default(),
            flex_grow: 0,
            flex_shrink: 1,
            flex_basis: Dimension::Auto,
            size: Dimensions::default(),
            min_size: Dimensions::default(),
            max_size: Dimensions::default(),
        }
    }
}

} // verus!

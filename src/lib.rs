//! The box-layout core of a typesetting engine: axes and alignment,
//! layout spaces, finished layouts, their textual dump and the stack
//! layouter.

pub mod actions;
pub mod geom;
pub mod layout;
pub mod serialize;
pub mod stacked;

pub use actions::LayoutAction;
pub use geom::{Size, Size2D, SizeBox};
pub use layout::{
    AlignedAxis, Alignment, Axis, Layout, LayoutAxes, LayoutError, LayoutResult, LayoutSpace,
    LayoutSpaces, MultiLayout,
};
pub use stacked::{StackContext, StackLayouter};

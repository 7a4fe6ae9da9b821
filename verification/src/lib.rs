//! Axis fitting, tick generation and data-to-screen projection for 2D charts,
//! computed on fixed-point numbers and proved against their contracts.
//!
//! A chart starts from the extent of its data. [`line::Axis::fitting`] widens
//! that extent to a range that ends on round values,
//! [`ticks::TickSet::generate_ticks`] places labelled ticks along it on a
//! linear, logarithmic or symmetric-log scale, and
//! [`view::ViewTransformer::to_screen`] maps data points into the plotting
//! area of a viewport, turning the y axis over on the way. The modules
//! [`layout`], [`legend`], [`annotation`] and [`graph`] work out where the
//! rest of a chart goes; [`style`], [`text`] and [`colorscheme`] hold how it
//! looks; [`dataset`], [`scatter`] and [`kmeans`] hold what is shown.
//!
//! Nothing in this crate draws or reads a clock; apart from the random start
//! of a clustering, every function is a function of its arguments.
//!
//! # Numbers
//!
//! Every coordinate, length and ratio is an `i64` that counts millionths, so
//! that `1_500_000` stands for `1.5`; see [`fixed`]. Two values are equal
//! exactly when they differ by less than one millionth, and a label shows at
//! most six decimals. The functions state in their `requires` how large the
//! values may be that they take.

pub mod annotation;
pub mod colorscheme;
pub mod common;
pub mod dataset;
pub mod fixed;
pub mod graph;
pub mod kmeans;
pub mod label;
pub mod layout;
pub mod legend;
pub mod line;
pub mod order;
pub mod point;
pub mod power;
pub mod scatter;
pub mod style;
pub mod text;
pub mod ticks;
pub mod view;

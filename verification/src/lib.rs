//! Classifies integer points against a fixed composite figure and parses
//! coordinate lines from text.
//!
//! The figure is an annulus-like region around the origin, bounded by an
//! inner threshold of 10 and an outer threshold of 20; the boundary shape
//! (Chebyshev box or squared-Euclidean circle) depends on the quadrant of
//! the point. The line processor turns one whitespace-separated text line
//! into a classification or a precise parse error, and renders either as a
//! fixed display string.

pub mod classifier;
pub mod processor;

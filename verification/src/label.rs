//! Traits and types used for representing groups of label-pairs

pub mod group;
pub mod impls;
pub mod name;
pub mod pair;
pub mod value;

pub use group::{ComposedGroup, LabelGroup, LabelGroupSet, LabelGroupVisitor, NoLabels};
pub use name::LabelName;
pub use pair::{LabelPair, LabelPairSet};
pub use value::{
    DynamicLabelSet, FixedCardinalityLabel, FixedCardinalitySet, LabelSet, LabelTestVisitor,
    LabelValue, LabelVisitor, StaticLabelSet,
};

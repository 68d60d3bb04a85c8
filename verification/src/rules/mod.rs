//! The rules for constraints 1 to 7.

pub mod c1_preselect;
pub mod c2_visual_bias;
pub mod c3_hard_to_cancel;
pub mod c4_hidden_disadvantage;
pub mod c5_fact_opinion_mix;
pub mod c6_ungrounded_comparison;
pub mod c7_urgency_scarcity;

pub use c1_preselect::PreselectRule;
pub use c2_visual_bias::VisualBiasRule;
pub use c3_hard_to_cancel::HardToCancelRule;
pub use c4_hidden_disadvantage::HiddenDisadvantageRule;
pub use c5_fact_opinion_mix::FactOpinionMixRule;
pub use c6_ungrounded_comparison::UngroundedComparisonRule;
pub use c7_urgency_scarcity::UrgencyScarcityRule;

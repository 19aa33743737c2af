//! The kernels that the plugin brings: BiasAdd and Relu.
pub mod bias_add;
pub mod relu;

//! A deny-by-default confidential virtualisation core: hash-chained receipts,
//! attested key release, memory and device mediation, and the policy that
//! decides between them.

pub mod attest;
pub mod capsule;
pub mod control;
pub mod devices;
pub mod json;
pub mod lines;
pub mod mm;
pub mod net;
pub mod operator;
pub mod pn52;
pub mod policy;
pub mod primitives;
pub mod qrse;
pub mod receipts;
pub mod slate_core;
pub mod storage;
pub mod svm;
pub mod text;
pub mod text_map;
pub mod vcpu;

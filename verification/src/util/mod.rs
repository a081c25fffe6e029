//! Helpers of the service: expiry sweeping, QR codes and link detection.
pub mod misc;

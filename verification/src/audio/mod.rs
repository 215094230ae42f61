//! Audio: capture, encoding, recovery, silence detection and feedback tones.

pub mod capture;
pub mod feedback;
pub mod recovery;
pub mod silence;
pub mod wav;

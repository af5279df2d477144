//! Resolution of dropped internet-shortcut files (`.url`, `.webloc`) into
//! structured link metadata: target URL, page title, description, preview
//! image and favicon.
//!
//! The host application hands in a dropped file's path, its content and the
//! outcome of one HTTP fetch; the library decides everything else: format
//! detection, target-URL extraction, metadata extraction with ordered
//! fallbacks, and the policy of degrading to a URL-only result when the
//! fetch fails.

pub mod text;
pub mod shortcut;
pub mod html;
pub mod resolve;

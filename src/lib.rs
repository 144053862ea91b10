//! A slideshow core: a walker's decisions over local and remote picture
//! sources, and the timing state machine that cross-fades and zooms the
//! pictures it is handed.

mod clock;
mod feed;
mod frame_counter;
mod location;
mod order;
mod pixels;
mod presentation;
mod text;
mod timing;
mod walk;

pub use clock::{get_us, micros_from_timespec};
pub use feed::{feed_enclosures, item_enclosure, lemma_link_wins, FeedElement};
pub use frame_counter::FrameCounter;
pub use location::{
    body_kind, is_jpeg_lower, is_jpeg_path, local_action, location_kind, uri_join, BaseUri, BodyKind,
    LocalAction, LocationKind, MediaType,
};
pub use order::{lemma_listing_order_deterministic, order_by_keys, order_entries};
pub use pixels::unpack_gray;
pub use presentation::{
    lemma_alpha_fades_in, lemma_rotation_rule, lemma_zoom_alternates, Presentation, Step,
};
pub use timing::{
    aspect_scale, PictureState, Ratio, ZoomDirection, SHOW_DURATION, TRANSITION_DURATION,
};
pub use walk::Walk;

//! Picking the gif to attach to a broadcast.
//!
//! The HTTP fetch and the JSON decoding live outside the library; the
//! decoded response arrives here as plain values, and this module performs
//! the selection the bot makes: one uniformly random entry of the result
//! list, whose original-rendering URL is the attachment. An empty result
//! list is the one way selection fails.

use vstd::prelude::*;

verus! {

use crate::error::GabelnError;

/// The original rendering of one gif.
#[derive(Debug, Clone)]
pub struct GiphyOriginal {
    pub url: String,
    pub width: String,
    pub height: String,
    pub size: String,
    pub frames: String,
}

/// The renderings of one gif.
#[derive(Debug, Clone)]
pub struct GiphyImages {
    pub original: GiphyOriginal,
}

/// One gif of a search response.
#[derive(Debug, Clone)]
pub struct GiphyGif {
    pub images: GiphyImages,
}

/// A decoded gif-search response.
#[derive(Debug, Clone)]
pub struct GiphyResponse {
    pub data: Vec<GiphyGif>,
}

/// Relies on `rand::random_range` over `0..n`: the draw lies in the
/// nonempty range; it panics on an empty one, so the empty range is
/// excluded here.
#[verifier::external_body]
fn random_below(n: usize) -> (r: usize)
    requires
        n > 0,
    ensures
        r < n,
{
    rand::random_range(0..n)
}

/// Pick the attachment URL from a search response: the original rendering
/// of one entry, chosen at random. Fails exactly on an empty result list,
/// as an unusable response.
pub fn select_gif(resp: &GiphyResponse) -> (r: Result<String, GabelnError>)
    ensures
        match r {
            Ok(url) => resp.data@.len() > 0 && exists|i: int|
                0 <= i < resp.data@.len() && url@ == (#[trigger] resp.data@[i]).images.original.url@,
            Err(e) => resp.data@.len() == 0 && e == GabelnError::FailedToParseGiphyResponse,
        },
{
    if resp.data.len() == 0 {
        return Err(GabelnError::FailedToParseGiphyResponse);
    }
    let i: usize = random_below(resp.data.len());
    let url = resp.data[i].images.original.url.clone();
    proof {
        assert(url@ == resp.data@[i as int].images.original.url@);
    }
    Ok(url)
}

} // verus!

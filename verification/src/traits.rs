use crate::error::{FeedError, FeedErrorView};
use crate::series::{Update, UpdateView};
use vstd::prelude::*;

verus! {

/// A source of prices, as far as it can be told without talking to it: where to
/// ask for a symbol, and what an answer means.
///
/// A caller asks the address of [`DataFeed::request_url`] for a response and
/// hands the response to [`DataFeed::update`]. A feed keeps nothing in between.
pub trait DataFeed {
    /// The address to ask for the prices of `index`.
    spec fn url_for(&self, index: Seq<char>) -> Seq<char>;

    /// What the response `response` comes to.
    spec fn update_for(&self, response: Seq<char>) -> Result<UpdateView, FeedErrorView>;

    /// The address to ask for the prices of `index`.
    fn request_url(&self, index: &str) -> (url: String)
        ensures
            url@ == self.url_for(index@),
    ;

    /// Turns a response into price points.
    fn update(&self, response: &str) -> (update: Result<Update, FeedError>)
        ensures
            match update {
                Ok(u) => self.update_for(response@) == Ok::<UpdateView, FeedErrorView>(u@),
                Err(e) => self.update_for(response@) == Err::<UpdateView, FeedErrorView>(e@),
            },
    ;
}

} // verus!

use crate::error::{FeedError, FeedErrorView};
use crate::json::{document_of, Json};
use crate::response::{decode_response, response_of};
use crate::series::{assemble, update_of, Update, UpdateView};
use crate::traits::DataFeed;
use crate::zone::{zone_exists, Zone};
use vstd::prelude::*;

verus! {

/// The feed of the AlphaVantage intraday endpoint, sampled every five minutes.
pub struct AlphaVantageDataFeed {
    /// API key to access the data
    pub apikey: String,
}

/// The address that asks AlphaVantage for the prices of `index` with the key `apikey`.
pub open spec fn intraday_url(index: Seq<char>, apikey: Seq<char>) -> Seq<char> {
    "https://www.alphavantage.co/query?function=TIME_SERIES_INTRADAY&symbol="@ + index
        + "&interval=5min&apikey="@ + apikey
}

/// What a document of AlphaVantage comes to.
///
/// The document is decoded whole; then the time zone it declares must exist;
/// then the key of every record is resolved in that zone.
pub open spec fn update_from(document: Json) -> Result<UpdateView, FeedErrorView> {
    match response_of(document) {
        Err(error) => Err(error),
        Ok(response) => if zone_exists(response.time_zone) {
            update_of(response.time_zone, response.records)
        } else {
            Err(FeedErrorView::UnknownTimezone { name: response.time_zone })
        },
    }
}

/// What a response of AlphaVantage comes to: what its document comes to, or a
/// transport failure where it holds no JSON document.
pub open spec fn update_from_text(response: Seq<char>) -> Result<UpdateView, FeedErrorView> {
    match document_of(response) {
        Some(document) => update_from(document),
        None => Err(FeedErrorView::TransportFailure),
    }
}

impl AlphaVantageDataFeed {
    pub fn new(apikey: String) -> (feed: Self)
        ensures
            feed.apikey == apikey,
    {
        AlphaVantageDataFeed { apikey }
    }

    /// Turns a document of AlphaVantage into price points.
    pub fn update_from_document(document: &Json) -> (update: Result<Update, FeedError>)
        ensures
            match update {
                Ok(u) => update_from(*document) == Ok::<UpdateView, FeedErrorView>(u@),
                Err(e) => update_from(*document) == Err::<UpdateView, FeedErrorView>(e@),
            },
    {
        let response = match decode_response(document) {
            Ok(response) => response,
            Err(error) => {
                return Err(error);
            },
        };
        match Zone::named(response.time_zone.as_str()) {
            Some(zone) => assemble(&zone, &response.records),
            None => Err(FeedError::UnknownTimezone { name: response.time_zone }),
        }
    }
}

impl DataFeed for AlphaVantageDataFeed {
    open spec fn url_for(&self, index: Seq<char>) -> Seq<char> {
        intraday_url(index, self.apikey@)
    }

    open spec fn update_for(&self, response: Seq<char>) -> Result<UpdateView, FeedErrorView> {
        update_from_text(response)
    }

    fn request_url(&self, index: &str) -> (url: String) {
        let url = String::from_str(
            "https://www.alphavantage.co/query?function=TIME_SERIES_INTRADAY&symbol=",
        );
        let url = url.concat(index);
        let url = url.concat("&interval=5min&apikey=");
        url.concat(self.apikey.as_str())
    }

    fn update(&self, response: &str) -> (update: Result<Update, FeedError>) {
        match Json::parse(response) {
            Some(document) => Self::update_from_document(&document),
            None => Err(FeedError::TransportFailure),
        }
    }
}

} // verus!

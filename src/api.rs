//! The remote time-tracking service as the library sees it: the entries it
//! hands out, and the addresses of its endpoints.

use crate::calendar::Date;
use crate::config::Config;
use crate::text::{decimal_text, push_decimal, push_text};
use vstd::prelude::*;

verus! {

/// One entry as the remote service reports it. `hours` is in hundredths of
/// an hour.
#[derive(Clone, Debug)]
pub struct TimetEntry {
    pub day_of_year: u32,
    pub year: i32,
    pub month: u32,
    pub iso_week_year: u32,
    pub iso_week: u32,
    pub week: u32,
    pub hours: u32,
    pub project_name: String,
    pub project_id: String,
}

/// The body of a response listing entries.
#[derive(Debug)]
pub struct TimetEntries {
    pub entries: Option<Vec<TimetEntry>>,
}

/// Hours to write for a project on a day; `hours` in hundredths of an hour.
#[derive(Debug)]
pub struct Hours {
    pub project: String,
    pub date: Date,
    pub hours: u32,
}

/// Address and key of the remote service.
#[derive(Debug, Clone)]
pub struct Api {
    endpoint: String,
    api_key: String,
}

impl Api {
    pub closed spec fn endpoint_spec(&self) -> Seq<char> {
        self.endpoint@
    }

    pub closed spec fn key_spec(&self) -> Seq<char> {
        self.api_key@
    }

    pub fn new(config: &Config) -> (r: Api)
        ensures
            r.endpoint_spec() == config.api.endpoint@,
            r.key_spec() == config.api.key@,
    {
        Api { endpoint: config.api.endpoint.clone(), api_key: config.api.key.clone() }
    }

    /// The key sent with every request.
    pub fn api_key(&self) -> (r: &String)
        ensures
            r@ == self.key_spec(),
    {
        &self.api_key
    }

    /// Address of the entries of one month.
    pub fn month_url(&self, year: u32, month: u32) -> (r: String)
        ensures
            r@ == self.endpoint_spec() + "entries-bymonth?year="@ + decimal_text(year as nat)
                + "&month="@ + decimal_text(month as nat),
    {
        let mut r = self.endpoint.clone();
        push_text(&mut r, "entries-bymonth?year=");
        push_decimal(&mut r, year as u64);
        push_text(&mut r, "&month=");
        push_decimal(&mut r, month as u64);
        r
    }

    /// Address that takes the hours of one project on one day.
    pub fn upsert_url(&self) -> (r: String)
        ensures
            r@ == self.endpoint_spec() + "entries-upsert-one"@,
    {
        let mut r = self.endpoint.clone();
        push_text(&mut r, "entries-upsert-one");
        r
    }

    /// Whether the service took the hours: it answers 200.
    pub fn post_succeeded(status_code: i32) -> (r: bool)
        ensures
            r == (status_code == 200),
    {
        status_code == 200
    }
}

} // verus!

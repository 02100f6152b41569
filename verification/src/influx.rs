//! Projection of step snapshots into time-series rows, and the builder
//! for a time-series sink's connection settings.
//!
//! A step snapshot becomes one row per metric and one row per error code.
//! The rows carry only plain values; the caller that owns the database
//! client turns each row into a write query, adding its timestamp and the
//! snapshot's identity tags.

use crate::stats::StepStatus;
use crate::textfmt::{decimal_i32, spec_decimal_signed};
use vstd::prelude::*;

verus! {

/// One time-series row: a measurement description and its value.
pub struct MetricRow {
    pub description: String,
    pub value: u128,
}

impl StepStatus {
    /// The eleven metric rows of this snapshot, in their canonical order.
    pub fn to_metrics(&self) -> (r: Vec<MetricRow>)
        ensures
            r@.len() == 11,
            r@[0].description@ == "test_duration"@ && r@[0].value == self.metrics.test_duration,
            r@[1].description@ == "mean_time"@ && r@[1].value == self.metrics.mean_time,
            r@[2].description@ == "max_time"@ && r@[2].value == self.metrics.max_time,
            r@[3].description@ == "min_time"@ && r@[3].value == self.metrics.min_time,
            r@[4].description@ == "std_dev"@ && r@[4].value == self.metrics.std_dev,
            r@[5].description@ == "p90_time"@ && r@[5].value == self.metrics.p90_time,
            r@[6].description@ == "p95_time"@ && r@[6].value == self.metrics.p95_time,
            r@[7].description@ == "p99_time"@ && r@[7].value == self.metrics.p99_time,
            r@[8].description@ == "positive_hits"@ && r@[8].value == self.metrics.positive_hits,
            r@[9].description@ == "negative_hits"@ && r@[9].value == self.metrics.negative_hits,
            r@[10].description@ == "all_hits"@ && r@[10].value == self.metrics.all_hits,
    {
        let mut rows: Vec<MetricRow> = Vec::new();
        rows.push(MetricRow {
            description: String::from_str("test_duration"),
            value: self.metrics.test_duration,
        });
        rows.push(MetricRow {
            description: String::from_str("mean_time"),
            value: self.metrics.mean_time,
        });
        rows.push(MetricRow {
            description: String::from_str("max_time"),
            value: self.metrics.max_time,
        });
        rows.push(MetricRow {
            description: String::from_str("min_time"),
            value: self.metrics.min_time,
        });
        rows.push(MetricRow {
            description: String::from_str("std_dev"),
            value: self.metrics.std_dev,
        });
        rows.push(MetricRow {
            description: String::from_str("p90_time"),
            value: self.metrics.p90_time,
        });
        rows.push(MetricRow {
            description: String::from_str("p95_time"),
            value: self.metrics.p95_time,
        });
        rows.push(MetricRow {
            description: String::from_str("p99_time"),
            value: self.metrics.p99_time,
        });
        rows.push(MetricRow {
            description: String::from_str("positive_hits"),
            value: self.metrics.positive_hits,
        });
        rows.push(MetricRow {
            description: String::from_str("negative_hits"),
            value: self.metrics.negative_hits,
        });
        rows.push(MetricRow {
            description: String::from_str("all_hits"),
            value: self.metrics.all_hits,
        });
        rows
    }

    /// One row per recorded error code, the code rendered in decimal as
    /// the row's description, in histogram order.
    pub fn to_errors(&self) -> (r: Vec<MetricRow>)
        ensures
            r@.len() == self.metrics.errors@.len(),
            forall|i: int|
                0 <= i < r@.len() ==> (#[trigger] r@[i]).description@ == spec_decimal_signed(
                    self.metrics.errors@[i].0 as int,
                ) && r@[i].value == self.metrics.errors@[i].1,
    {
        let mut rows: Vec<MetricRow> = Vec::new();
        let mut i: usize = 0;
        while i < self.metrics.errors.len()
            invariant
                0 <= i <= self.metrics.errors@.len(),
                rows@.len() == i,
                forall|j: int|
                    0 <= j < i ==> (#[trigger] rows@[j]).description@ == spec_decimal_signed(
                        self.metrics.errors@[j].0 as int,
                    ) && rows@[j].value == self.metrics.errors@[j].1,
            decreases self.metrics.errors@.len() - i,
        {
            let (code, count) = self.metrics.errors[i];
            rows.push(MetricRow { description: decimal_i32(code), value: count });
            i = i + 1;
        }
        rows
    }
}

/// Connection settings for a time-series database sink, collected before
/// the unverified layer opens the client: an address, credentials, a
/// database name and the two measurement names, each optional until set.
pub struct InfluxDbSinkBuilder {
    pub url: Option<String>,
    pub db_name: Option<String>,
    pub metrics_ts_name: Option<String>,
    pub errors_ts_name: Option<String>,
    pub credentials: Option<(String, String)>,
}

impl Default for InfluxDbSinkBuilder {
    fn default() -> (r: Self)
        ensures
            r.url == Option::<String>::None,
            r.db_name == Option::<String>::None,
            r.metrics_ts_name == Option::<String>::None,
            r.errors_ts_name == Option::<String>::None,
            r.credentials == Option::<(String, String)>::None,
    {
        InfluxDbSinkBuilder {
            url: None,
            db_name: None,
            metrics_ts_name: None,
            errors_ts_name: None,
            credentials: None,
        }
    }
}

impl InfluxDbSinkBuilder {
    pub fn with_using_url(self, url: &str) -> (r: Self)
        ensures
            r.url matches Some(u) && u@ == url@,
            r.db_name == self.db_name,
            r.metrics_ts_name == self.metrics_ts_name,
            r.errors_ts_name == self.errors_ts_name,
            r.credentials == self.credentials,
    {
        InfluxDbSinkBuilder { url: Some(url.to_owned()), ..self }
    }

    pub fn with_credentials(self, username: &str, password: &str) -> (r: Self)
        ensures
            r.credentials matches Some(c) && c.0@ == username@ && c.1@ == password@,
            r.url == self.url,
            r.db_name == self.db_name,
            r.metrics_ts_name == self.metrics_ts_name,
            r.errors_ts_name == self.errors_ts_name,
    {
        InfluxDbSinkBuilder {
            credentials: Some((username.to_owned(), password.to_owned())),
            ..self
        }
    }

    pub fn with_db_name(self, db_name: &str) -> (r: Self)
        ensures
            r.db_name matches Some(d) && d@ == db_name@,
            r.url == self.url,
            r.metrics_ts_name == self.metrics_ts_name,
            r.errors_ts_name == self.errors_ts_name,
            r.credentials == self.credentials,
    {
        InfluxDbSinkBuilder { db_name: Some(db_name.to_owned()), ..self }
    }

    pub fn with_timeseries_names(self, metrics_ts_name: &str, errors_ts_name: &str) -> (r: Self)
        ensures
            r.metrics_ts_name matches Some(m) && m@ == metrics_ts_name@,
            r.errors_ts_name matches Some(e) && e@ == errors_ts_name@,
            r.url == self.url,
            r.db_name == self.db_name,
            r.credentials == self.credentials,
    {
        InfluxDbSinkBuilder {
            metrics_ts_name: Some(metrics_ts_name.to_owned()),
            errors_ts_name: Some(errors_ts_name.to_owned()),
            ..self
        }
    }

    /// The database name that a built sink will use: the configured one,
    /// or the library's default.
    pub fn resolved_db_name(&self) -> (r: String)
        ensures
            self.db_name matches Some(d) ==> r@ == d@,
            self.db_name matches None ==> r@ == "loady"@,
    {
        match &self.db_name {
            Some(d) => d.clone(),
            None => String::from_str("loady"),
        }
    }

    /// The measurement names that a built sink will use: the configured
    /// ones, or the library's defaults.
    pub fn resolved_timeseries_names(&self) -> (r: (String, String))
        ensures
            self.metrics_ts_name matches Some(m) ==> r.0@ == m@,
            self.metrics_ts_name matches None ==> r.0@ == "loady-metrics"@,
            self.errors_ts_name matches Some(e) ==> r.1@ == e@,
            self.errors_ts_name matches None ==> r.1@ == "loady-errors"@,
    {
        let metrics = match &self.metrics_ts_name {
            Some(m) => m.clone(),
            None => String::from_str("loady-metrics"),
        };
        let errors = match &self.errors_ts_name {
            Some(e) => e.clone(),
            None => String::from_str("loady-errors"),
        };
        (metrics, errors)
    }
}

} // verus!

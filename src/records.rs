//! Uniform access to the key, title and stamp of catalog records.
use vstd::prelude::*;
use crate::model::{OsFolder, OsVideo};
use crate::queries::{datetime_secs, get_naive_datetime};

verus! {

/// A record keyed by a path.
pub trait HasPath {
    spec fn path_view(&self) -> Seq<char>;

    fn path(&self) -> (r: &str)
        ensures
            r@ == self.path_view(),
    ;
}

/// A record with a display title.
pub trait HasTitle {
    spec fn title_view(&self) -> Seq<char>;

    fn title(&self) -> (r: &str)
        ensures
            r@ == self.title_view(),
    ;
}

/// A record stamped with the date and time of its last update.
pub trait HasDatetime {
    spec fn date_view(&self) -> Seq<char>;

    spec fn time_view(&self) -> Seq<char>;

    fn date(&self) -> (r: &str)
        ensures
            r@ == self.date_view(),
    ;

    fn time(&self) -> (r: &str)
        ensures
            r@ == self.time_view(),
    ;

    /// The stamp in seconds since the start of the common era, if it reads.
    fn get_naive_datetime(&self) -> (r: Option<i64>)
        ensures
            match r {
                Some(x) => datetime_secs(self.date_view(), self.time_view()) == Some(x as int),
                None => datetime_secs(self.date_view(), self.time_view()) is None,
            },
    ;
}

impl HasPath for OsFolder {
    open spec fn path_view(&self) -> Seq<char> {
        self.path@
    }

    fn path(&self) -> (r: &str) {
        self.path.as_str()
    }
}

impl HasPath for OsVideo {
    open spec fn path_view(&self) -> Seq<char> {
        self.path@
    }

    fn path(&self) -> (r: &str) {
        self.path.as_str()
    }
}

impl HasTitle for OsFolder {
    open spec fn title_view(&self) -> Seq<char> {
        self.title@
    }

    fn title(&self) -> (r: &str) {
        self.title.as_str()
    }
}

impl HasTitle for OsVideo {
    open spec fn title_view(&self) -> Seq<char> {
        self.title@
    }

    fn title(&self) -> (r: &str) {
        self.title.as_str()
    }
}

impl HasDatetime for OsFolder {
    open spec fn date_view(&self) -> Seq<char> {
        self.update_date@
    }

    open spec fn time_view(&self) -> Seq<char> {
        self.update_time@
    }

    fn date(&self) -> (r: &str) {
        self.update_date.as_str()
    }

    fn time(&self) -> (r: &str) {
        self.update_time.as_str()
    }

    fn get_naive_datetime(&self) -> (r: Option<i64>) {
        get_naive_datetime(self.update_date.as_str(), self.update_time.as_str())
    }
}

impl HasDatetime for OsVideo {
    open spec fn date_view(&self) -> Seq<char> {
        self.update_date@
    }

    open spec fn time_view(&self) -> Seq<char> {
        self.update_time@
    }

    fn date(&self) -> (r: &str) {
        self.update_date.as_str()
    }

    fn time(&self) -> (r: &str) {
        self.update_time.as_str()
    }

    fn get_naive_datetime(&self) -> (r: Option<i64>) {
        get_naive_datetime(self.update_date.as_str(), self.update_time.as_str())
    }
}

} // verus!

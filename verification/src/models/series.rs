//! TV series, their seasons and episodes.

use vstd::prelude::*;

verus! {

/// A TV series.
#[derive(Clone, Debug)]
pub struct Series {
    pub id: i64,
    pub title: String,
    pub year: Option<i64>,
    pub plot: Option<String>,
    pub poster_url: Option<String>,
    pub tmdb_id: Option<i64>,
}

/// A season of a series.
#[derive(Clone, Debug)]
pub struct Season {
    pub id: i64,
    pub series_id: i64,
    pub season_number: i64,
}

/// An episode of a season, with the indexed file that holds it, if any.
#[derive(Clone, Debug)]
pub struct Episode {
    pub id: i64,
    pub season_id: i64,
    pub episode_number: i64,
    pub title: String,
    pub file_id: Option<i64>,
}

/// A series with all its seasons.
#[derive(Clone, Debug)]
pub struct SeriesDetail {
    pub id: i64,
    pub title: String,
    pub year: Option<i64>,
    pub plot: Option<String>,
    pub poster_url: Option<String>,
    pub seasons: Vec<SeasonDetail>,
}

/// A season with all its episodes.
#[derive(Clone, Debug)]
pub struct SeasonDetail {
    pub id: i64,
    pub season_number: i64,
    pub episodes: Vec<Episode>,
}

} // verus!

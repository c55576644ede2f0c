//! The values that the remote service understands and returns.

use vstd::prelude::*;

verus! {

/// The frequency at which data points are wanted. When the frequency of a
/// dataset is changed, the service returns the last observation of each
/// period.
#[allow(non_camel_case_types)]
#[derive(Debug, Copy, Clone, PartialEq, Eq)]
pub enum Frequency {
    /// Unspecified: the frequency of the dataset.
    none,
    /// One data point for every day.
    daily,
    /// One data point for every week.
    weekly,
    /// One data point for every month.
    monthly,
    /// One data point for every quarter.
    quarterly,
    /// One data point for every year.
    annual,
}

impl Frequency {
    /// The word by which the service knows this frequency.
    pub open spec fn label(self) -> Seq<char> {
        match self {
            Frequency::none => "none"@,
            Frequency::daily => "daily"@,
            Frequency::weekly => "weekly"@,
            Frequency::monthly => "monthly"@,
            Frequency::quarterly => "quarterly"@,
            Frequency::annual => "annual"@,
        }
    }

    /// The word by which the service knows this frequency.
    pub fn name(self) -> (word: &'static str)
        ensures
            word@ == self.label(),
    {
        match self {
            Frequency::none => "none",
            Frequency::daily => "daily",
            Frequency::weekly => "weekly",
            Frequency::monthly => "monthly",
            Frequency::quarterly => "quarterly",
            Frequency::annual => "annual",
        }
    }
}

/// The order of the rows by date. The service sorts descending by default.
#[allow(non_camel_case_types)]
#[derive(Debug, Copy, Clone, PartialEq, Eq)]
pub enum Order {
    /// The earliest date comes first.
    asc,
    /// The latest date comes first.
    desc,
}

impl Order {
    /// The word by which the service knows this order.
    pub open spec fn label(self) -> Seq<char> {
        match self {
            Order::asc => "asc"@,
            Order::desc => "desc"@,
        }
    }

    /// The word by which the service knows this order.
    pub fn name(self) -> (word: &'static str)
        ensures
            word@ == self.label(),
    {
        match self {
            Order::asc => "asc",
            Order::desc => "desc",
        }
    }
}

/// A calculation that the service performs on the data before it returns
/// them.
#[allow(non_camel_case_types)]
#[derive(Debug, Copy, Clone, PartialEq, Eq)]
pub enum Transform {
    /// No calculation.
    none,
    /// The change from row to row: `y'[t] = y[t] - y[t - 1]`.
    diff,
    /// The relative change from row to row:
    /// `y'[t] = (y[t] - y[t - 1]) / y[t - 1]`.
    rdiff,
    /// The relative change up to the latest row `n`:
    /// `y'[t] = (y[n] - y[t]) / y[t]`.
    rdiff_from,
    /// The running sum: `y'[t] = y[t] + y[t - 1] + ... + y[0]`.
    cumul,
    /// Scaled so that the oldest row is 100: `y'[t] = (y[t] / y[0]) * 100`.
    normalize,
}

impl Transform {
    /// The word by which the service knows this calculation.
    pub open spec fn label(self) -> Seq<char> {
        match self {
            Transform::none => "none"@,
            Transform::diff => "diff"@,
            Transform::rdiff => "rdiff"@,
            Transform::rdiff_from => "rdiff_from"@,
            Transform::cumul => "cumul"@,
            Transform::normalize => "normalize"@,
        }
    }

    /// The word by which the service knows this calculation.
    pub fn name(self) -> (word: &'static str)
        ensures
            word@ == self.label(),
    {
        match self {
            Transform::none => "none",
            Transform::diff => "diff",
            Transform::rdiff => "rdiff",
            Transform::rdiff_from => "rdiff_from",
            Transform::cumul => "cumul",
            Transform::normalize => "normalize",
        }
    }
}

/// The metadata of a database.
#[derive(Debug, Clone, PartialEq)]
pub struct DatabaseMetadata {
    /// The service's number for this database.
    pub id: usize,
    /// The name of the database.
    pub name: String,
    /// The code by which queries name the database.
    pub database_code: String,
    /// A description of the database.
    pub description: String,
    /// The number of datasets in the database.
    pub datasets_count: usize,
    /// How often the contents of the database were downloaded.
    pub downloads: usize,
    /// Whether the database is a premium one.
    pub premium: bool,
    /// The address of the logo of the database.
    pub image: String,
}

/// The metadata of a dataset.
#[derive(Debug, Clone, PartialEq)]
pub struct DatasetMetadata {
    /// The service's number for this dataset.
    pub id: usize,
    /// The code of the dataset.
    pub dataset_code: String,
    /// The code of the database that the dataset belongs to.
    pub database_code: String,
    /// The title of the dataset.
    pub name: String,
    /// What the data of the dataset are.
    pub description: String,
    /// When the data and metadata were last refreshed.
    pub refreshed_at: String,
    /// The latest date for which the dataset has a data point.
    pub newest_available_date: String,
    /// The earliest date for which the dataset has a data point.
    pub oldest_available_date: String,
    /// The title of each column.
    pub column_names: Vec<String>,
    /// How often the dataset has a data point.
    pub frequency: Frequency,
    /// Whether the dataset belongs to a premium database.
    pub premium: bool,
    /// The service's number for the database that holds the dataset.
    pub database_id: usize,
}

/// What a search says of itself.
#[derive(Debug, Clone, PartialEq)]
pub struct SearchMetadata {
    /// The keywords of the search, joined by `+`.
    pub query: String,
    /// The number of results on a page.
    pub per_page: usize,
    /// The page that was returned.
    pub current_page: usize,
    /// The number of the page before, if there is one.
    pub prev_page: Option<usize>,
    /// The number of pages.
    pub total_pages: usize,
    /// The number of results.
    pub total_count: usize,
    /// The number of the page after, if there is one.
    pub next_page: Option<usize>,
    /// The place of the first result of this page among all results.
    pub current_first_item: Option<usize>,
    /// The place of the last result of this page among all results.
    pub current_last_item: Option<usize>,
}

/// The result of a search for databases.
#[derive(Debug, Clone, PartialEq)]
pub struct DatabaseList {
    /// The metadata of the databases on the page.
    pub databases: Vec<DatabaseMetadata>,
    /// What the search says of itself.
    pub meta: SearchMetadata,
}

/// The result of a search for datasets.
#[derive(Debug, Clone, PartialEq)]
pub struct DatasetList {
    /// The metadata of the datasets on the page.
    pub datasets: Vec<DatasetMetadata>,
    /// What the search says of itself.
    pub meta: SearchMetadata,
}

/// One line of the list of the datasets of a database.
#[derive(Debug, Clone, PartialEq)]
pub struct Code {
    /// The code of the dataset.
    pub dataset_code: String,
    /// The code of the database that the dataset belongs to.
    pub database_code: String,
    /// The title of the dataset.
    pub name: String,
}

} // verus!

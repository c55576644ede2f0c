//! The queries that the service answers.

use vstd::prelude::*;
use vstd::string::StringExecFns;
use crate::api_call::ApiCall;
use crate::parameters::{
    api_text, data_text, search_text, ApiArguments, ApiParameters, DataArguments,
    DataParameters, DataTerms, SearchArguments, SearchParameters, SearchTerms,
};
use crate::text::{joined, joined_if_any, lemma_joined_push, optional_text, present};
use crate::types::{Frequency, Order, Transform};

verus! {

/// The terms with which a fresh search starts.
pub open spec fn no_search_terms() -> SearchTerms {
    SearchTerms { keywords: Seq::empty(), per_page: None, page: None }
}

/// The terms with which a fresh query for data starts.
pub open spec fn no_data_terms() -> DataTerms {
    DataTerms {
        rows: None,
        limit: None,
        order: None,
        collapse: None,
        transform: None,
        end_date: None,
        start_date: None,
        column_index: None,
    }
}

/// A query for the metadata of a database.
#[derive(Debug, Clone, PartialEq)]
pub struct DatabaseMetadataQuery {
    pub database_code: String,
    request_arguments: ApiArguments,
}

/// What a query names and the credential that it holds.
pub struct Request {
    /// The code of the database, for a query that names one.
    pub database_code: Seq<char>,
    /// The code of the dataset, for a query that names one.
    pub dataset_code: Seq<char>,
    /// The credential.
    pub api_key: Option<Seq<char>>,
}

impl View for DatabaseMetadataQuery {
    type V = Request;

    closed spec fn view(&self) -> Request {
        Request {
            database_code: self.database_code@,
            dataset_code: Seq::empty(),
            api_key: self.request_arguments@,
        }
    }
}

impl DatabaseMetadataQuery {
    /// A query for the metadata of the database with this code.
    pub fn new(database_code: &str) -> (query: Self)
        ensures
            query@ == (Request {
                database_code: database_code@,
                dataset_code: Seq::empty(),
                api_key: None,
            }),
    {
        DatabaseMetadataQuery {
            database_code: String::from_str(database_code),
            request_arguments: ApiArguments::default(),
        }
    }
}

impl ApiParameters for DatabaseMetadataQuery {
    open spec fn api_key_held(&self) -> Option<Seq<char>> {
        self@.api_key
    }

    fn api_key(&mut self, api_key: &str) -> (chained: &mut Self)
        ensures
            chained@ == (Request { api_key: Some(api_key@), ..old(self)@ }),
    {
        self.request_arguments.set_key(api_key);
        self
    }

    fn fmt(&self) -> (text: Option<String>) {
        self.request_arguments.fmt()
    }
}

impl ApiCall for DatabaseMetadataQuery {
    open spec fn key(&self) -> Option<Seq<char>> {
        self@.api_key
    }

    open spec fn prefix(&self) -> Option<Seq<char>> {
        Some("/databases/"@ + self@.database_code + ".json"@)
    }

    open spec fn arguments(&self) -> Option<Seq<char>> {
        api_text(self@.api_key)
    }

    fn credential(&self) -> (key: Option<String>) {
        self.request_arguments.key()
    }

    fn fmt_prefix(&self) -> (text: Option<String>) {
        let mut text = String::from_str("/databases/");
        text.append(self.database_code.as_str());
        text.append(".json");
        Some(text)
    }

    fn fmt_arguments(&self) -> (text: Option<String>) {
        self.request_arguments.fmt()
    }
}

/// A query for the metadata of a dataset.
#[derive(Debug, Clone, PartialEq)]
pub struct DatasetMetadataQuery {
    pub database_code: String,
    pub dataset_code: String,
    request_arguments: ApiArguments,
}

impl View for DatasetMetadataQuery {
    type V = Request;

    closed spec fn view(&self) -> Request {
        Request {
            database_code: self.database_code@,
            dataset_code: self.dataset_code@,
            api_key: self.request_arguments@,
        }
    }
}

impl DatasetMetadataQuery {
    /// A query for the metadata of the dataset with these codes.
    pub fn new(database_code: &str, dataset_code: &str) -> (query: Self)
        ensures
            query@ == (Request {
                database_code: database_code@,
                dataset_code: dataset_code@,
                api_key: None,
            }),
    {
        DatasetMetadataQuery {
            database_code: String::from_str(database_code),
            dataset_code: String::from_str(dataset_code),
            request_arguments: ApiArguments::default(),
        }
    }
}

impl ApiParameters for DatasetMetadataQuery {
    open spec fn api_key_held(&self) -> Option<Seq<char>> {
        self@.api_key
    }

    fn api_key(&mut self, api_key: &str) -> (chained: &mut Self)
        ensures
            chained@ == (Request { api_key: Some(api_key@), ..old(self)@ }),
    {
        self.request_arguments.set_key(api_key);
        self
    }

    fn fmt(&self) -> (text: Option<String>) {
        self.request_arguments.fmt()
    }
}

impl ApiCall for DatasetMetadataQuery {
    open spec fn key(&self) -> Option<Seq<char>> {
        self@.api_key
    }

    open spec fn prefix(&self) -> Option<Seq<char>> {
        Some(
            "/datasets/"@ + self@.database_code + "/"@ + self@.dataset_code + "/metadata.json"@,
        )
    }

    open spec fn arguments(&self) -> Option<Seq<char>> {
        api_text(self@.api_key)
    }

    fn credential(&self) -> (key: Option<String>) {
        self.request_arguments.key()
    }

    fn fmt_prefix(&self) -> (text: Option<String>) {
        let mut text = String::from_str("/datasets/");
        text.append(self.database_code.as_str());
        text.append("/");
        text.append(self.dataset_code.as_str());
        text.append("/metadata.json");
        Some(text)
    }

    fn fmt_arguments(&self) -> (text: Option<String>) {
        self.request_arguments.fmt()
    }
}

/// A query for the list of the datasets of a database.
#[derive(Debug, Clone, PartialEq)]
pub struct CodeListQuery {
    pub database_code: String,
    request_arguments: ApiArguments,
}

impl View for CodeListQuery {
    type V = Request;

    closed spec fn view(&self) -> Request {
        Request {
            database_code: self.database_code@,
            dataset_code: Seq::empty(),
            api_key: self.request_arguments@,
        }
    }
}

impl CodeListQuery {
    /// A query for the codes of the datasets of the database with this code.
    pub fn new(database_code: &str) -> (query: Self)
        ensures
            query@ == (Request {
                database_code: database_code@,
                dataset_code: Seq::empty(),
                api_key: None,
            }),
    {
        CodeListQuery {
            database_code: String::from_str(database_code),
            request_arguments: ApiArguments::default(),
        }
    }
}

impl ApiParameters for CodeListQuery {
    open spec fn api_key_held(&self) -> Option<Seq<char>> {
        self@.api_key
    }

    fn api_key(&mut self, api_key: &str) -> (chained: &mut Self)
        ensures
            chained@ == (Request { api_key: Some(api_key@), ..old(self)@ }),
    {
        self.request_arguments.set_key(api_key);
        self
    }

    fn fmt(&self) -> (text: Option<String>) {
        self.request_arguments.fmt()
    }
}

impl ApiCall for CodeListQuery {
    open spec fn key(&self) -> Option<Seq<char>> {
        self@.api_key
    }

    open spec fn prefix(&self) -> Option<Seq<char>> {
        Some("/databases/"@ + self@.database_code + "/codes"@)
    }

    open spec fn arguments(&self) -> Option<Seq<char>> {
        api_text(self@.api_key)
    }

    fn credential(&self) -> (key: Option<String>) {
        self.request_arguments.key()
    }

    fn fmt_prefix(&self) -> (text: Option<String>) {
        let mut text = String::from_str("/databases/");
        text.append(self.database_code.as_str());
        text.append("/codes");
        Some(text)
    }

    fn fmt_arguments(&self) -> (text: Option<String>) {
        self.request_arguments.fmt()
    }
}

/// What a search names, what it asks for and the credential that it holds.
pub struct SearchRequest {
    /// The code of the database, for a search within one.
    pub database_code: Seq<char>,
    /// The credential.
    pub api_key: Option<Seq<char>>,
    /// What the search asks for.
    pub search: SearchTerms,
}

/// The two texts joined by `&`, or the one that is there, or nothing.
pub open spec fn both(first: Option<Seq<char>>, second: Option<Seq<char>>) -> Option<Seq<char>> {
    joined_if_any(present(first) + present(second), "&"@)
}

/// Joins two optional texts by `&`.
fn join_both(first: Option<String>, second: Option<String>) -> (text: Option<String>)
    ensures
        optional_text(text) == both(optional_text(first), optional_text(second)),
{
    match first {
        Some(first) => {
            match second {
                Some(second) => {
                    let mut text = first;
                    text.append("&");
                    text.append(second.as_str());
                    proof {
                        lemma_joined_push(seq![first@], "&"@, second@);
                        assert(seq![first@] + seq![second@] =~= seq![first@].push(second@));
                    }
                    Some(text)
                },
                None => {
                    assert(seq![first@] + Seq::<Seq<char>>::empty() =~= seq![first@]);
                    Some(first)
                },
            }
        },
        None => {
            match second {
                Some(second) => {
                    assert(Seq::<Seq<char>>::empty() + seq![second@] =~= seq![second@]);
                    Some(second)
                },
                None => None,
            }
        },
    }
}

/// A search among the databases.
#[derive(Debug, Clone, PartialEq)]
pub struct DatabaseSearch {
    request_arguments: ApiArguments,
    search_arguments: SearchArguments,
}

impl View for DatabaseSearch {
    type V = SearchRequest;

    closed spec fn view(&self) -> SearchRequest {
        SearchRequest {
            database_code: Seq::empty(),
            api_key: self.request_arguments@,
            search: self.search_arguments@,
        }
    }
}

impl DatabaseSearch {
    /// A search among the databases, with nothing set.
    pub fn new() -> (query: Self)
        ensures
            query@ == (SearchRequest {
                database_code: Seq::empty(),
                api_key: None,
                search: no_search_terms(),
            }),
    {
        DatabaseSearch {
            request_arguments: ApiArguments::default(),
            search_arguments: SearchArguments::default(),
        }
    }
}

impl ApiParameters for DatabaseSearch {
    open spec fn api_key_held(&self) -> Option<Seq<char>> {
        self@.api_key
    }

    fn api_key(&mut self, api_key: &str) -> (chained: &mut Self)
        ensures
            chained@ == (SearchRequest { api_key: Some(api_key@), ..old(self)@ }),
    {
        self.request_arguments.set_key(api_key);
        self
    }

    fn fmt(&self) -> (text: Option<String>) {
        self.request_arguments.fmt()
    }
}

impl SearchParameters for DatabaseSearch {
    open spec fn search_terms(&self) -> SearchTerms {
        self@.search
    }

    fn query(&mut self, keywords: &[&str]) -> (chained: &mut Self)
        ensures
            chained@ == (SearchRequest { search: chained@.search, ..old(self)@ }),
    {
        self.search_arguments.set_keywords(keywords);
        self
    }

    fn per_page(&mut self, n: usize) -> (chained: &mut Self)
        ensures
            chained@ == (SearchRequest { search: chained@.search, ..old(self)@ }),
    {
        self.search_arguments.set_per_page(n);
        self
    }

    fn page(&mut self, n: usize) -> (chained: &mut Self)
        ensures
            chained@ == (SearchRequest { search: chained@.search, ..old(self)@ }),
    {
        self.search_arguments.set_page(n);
        self
    }

    fn fmt(&self) -> (text: Option<String>) {
        self.search_arguments.fmt()
    }
}

impl ApiCall for DatabaseSearch {
    open spec fn key(&self) -> Option<Seq<char>> {
        self@.api_key
    }

    open spec fn prefix(&self) -> Option<Seq<char>> {
        Some("/databases.json"@)
    }

    open spec fn arguments(&self) -> Option<Seq<char>> {
        both(api_text(self@.api_key), search_text(self@.search))
    }

    fn credential(&self) -> (key: Option<String>) {
        self.request_arguments.key()
    }

    fn fmt_prefix(&self) -> (text: Option<String>) {
        Some(String::from_str("/databases.json"))
    }

    fn fmt_arguments(&self) -> (text: Option<String>) {
        join_both(self.request_arguments.fmt(), self.search_arguments.fmt())
    }
}

/// A search among the datasets of a database.
#[derive(Debug, Clone, PartialEq)]
pub struct DatasetSearch {
    pub database_code: String,
    request_arguments: ApiArguments,
    search_arguments: SearchArguments,
}

impl View for DatasetSearch {
    type V = SearchRequest;

    closed spec fn view(&self) -> SearchRequest {
        SearchRequest {
            database_code: self.database_code@,
            api_key: self.request_arguments@,
            search: self.search_arguments@,
        }
    }
}

/// The text with the code of the database behind it, if there is a text.
pub open spec fn within(text: Option<Seq<char>>, database_code: Seq<char>) -> Option<Seq<char>> {
    match text {
        Some(text) => Some(text + "&database_code="@ + database_code),
        None => None,
    }
}

impl DatasetSearch {
    /// A search among the datasets of the database with this code, with
    /// nothing set.
    pub fn new(database_code: &str) -> (query: Self)
        ensures
            query@ == (SearchRequest {
                database_code: database_code@,
                api_key: None,
                search: no_search_terms(),
            }),
    {
        DatasetSearch {
            database_code: String::from_str(database_code),
            request_arguments: ApiArguments::default(),
            search_arguments: SearchArguments::default(),
        }
    }
}

impl ApiParameters for DatasetSearch {
    open spec fn api_key_held(&self) -> Option<Seq<char>> {
        self@.api_key
    }

    fn api_key(&mut self, api_key: &str) -> (chained: &mut Self)
        ensures
            chained@ == (SearchRequest { api_key: Some(api_key@), ..old(self)@ }),
    {
        self.request_arguments.set_key(api_key);
        self
    }

    fn fmt(&self) -> (text: Option<String>) {
        self.request_arguments.fmt()
    }
}

impl SearchParameters for DatasetSearch {
    open spec fn search_terms(&self) -> SearchTerms {
        self@.search
    }

    fn query(&mut self, keywords: &[&str]) -> (chained: &mut Self)
        ensures
            chained@ == (SearchRequest { search: chained@.search, ..old(self)@ }),
    {
        self.search_arguments.set_keywords(keywords);
        self
    }

    fn per_page(&mut self, n: usize) -> (chained: &mut Self)
        ensures
            chained@ == (SearchRequest { search: chained@.search, ..old(self)@ }),
    {
        self.search_arguments.set_per_page(n);
        self
    }

    fn page(&mut self, n: usize) -> (chained: &mut Self)
        ensures
            chained@ == (SearchRequest { search: chained@.search, ..old(self)@ }),
    {
        self.search_arguments.set_page(n);
        self
    }

    fn fmt(&self) -> (text: Option<String>) {
        self.search_arguments.fmt()
    }
}

impl ApiCall for DatasetSearch {
    open spec fn key(&self) -> Option<Seq<char>> {
        self@.api_key
    }

    open spec fn prefix(&self) -> Option<Seq<char>> {
        Some("/datasets.json"@)
    }

    open spec fn arguments(&self) -> Option<Seq<char>> {
        within(both(api_text(self@.api_key), search_text(self@.search)), self@.database_code)
    }

    fn credential(&self) -> (key: Option<String>) {
        self.request_arguments.key()
    }

    fn fmt_prefix(&self) -> (text: Option<String>) {
        Some(String::from_str("/datasets.json"))
    }

    fn fmt_arguments(&self) -> (text: Option<String>) {
        match join_both(self.request_arguments.fmt(), self.search_arguments.fmt()) {
            Some(set) => {
                let mut text = set;
                text.append("&database_code=");
                text.append(self.database_code.as_str());
                Some(text)
            },
            None => None,
        }
    }
}

/// What a query for data names, what it asks for and the credential that it
/// holds.
pub struct DataRequest {
    /// The code of the database.
    pub database_code: Seq<char>,
    /// The code of the dataset.
    pub dataset_code: Seq<char>,
    /// The credential.
    pub api_key: Option<Seq<char>>,
    /// What the query asks for.
    pub data: DataTerms,
}

/// A query for the data of a dataset.
#[derive(Debug, Clone, PartialEq)]
pub struct DataQuery {
    pub database_code: String,
    pub dataset_code: String,
    data_arguments: DataArguments,
    request_arguments: ApiArguments,
}

impl View for DataQuery {
    type V = DataRequest;

    closed spec fn view(&self) -> DataRequest {
        DataRequest {
            database_code: self.database_code@,
            dataset_code: self.dataset_code@,
            api_key: self.request_arguments@,
            data: self.data_arguments@,
        }
    }
}

impl DataQuery {
    /// A query for the data of the dataset with these codes, with nothing
    /// set.
    pub fn new(database_code: &str, dataset_code: &str) -> (query: Self)
        ensures
            query@ == (DataRequest {
                database_code: database_code@,
                dataset_code: dataset_code@,
                api_key: None,
                data: no_data_terms(),
            }),
    {
        DataQuery {
            database_code: String::from_str(database_code),
            dataset_code: String::from_str(dataset_code),
            data_arguments: DataArguments::default(),
            request_arguments: ApiArguments::default(),
        }
    }
}

impl ApiParameters for DataQuery {
    open spec fn api_key_held(&self) -> Option<Seq<char>> {
        self@.api_key
    }

    fn api_key(&mut self, api_key: &str) -> (chained: &mut Self)
        ensures
            chained@ == (DataRequest { api_key: Some(api_key@), ..old(self)@ }),
    {
        self.request_arguments.set_key(api_key);
        self
    }

    fn fmt(&self) -> (text: Option<String>) {
        self.request_arguments.fmt()
    }
}

impl DataParameters for DataQuery {
    open spec fn data_terms(&self) -> DataTerms {
        self@.data
    }

    fn rows(&mut self, n: usize) -> (chained: &mut Self)
        ensures
            chained@ == (DataRequest { data: chained@.data, ..old(self)@ }),
    {
        self.data_arguments.set_rows(n);
        self
    }

    fn limit(&mut self, n: usize) -> (chained: &mut Self)
        ensures
            chained@ == (DataRequest { data: chained@.data, ..old(self)@ }),
    {
        self.data_arguments.set_limit(n);
        self
    }

    fn order(&mut self, order: Order) -> (chained: &mut Self)
        ensures
            chained@ == (DataRequest { data: chained@.data, ..old(self)@ }),
    {
        self.data_arguments.set_order(order);
        self
    }

    fn collapse(&mut self, collapse: Frequency) -> (chained: &mut Self)
        ensures
            chained@ == (DataRequest { data: chained@.data, ..old(self)@ }),
    {
        self.data_arguments.set_collapse(collapse);
        self
    }

    fn transform(&mut self, transform: Transform) -> (chained: &mut Self)
        ensures
            chained@ == (DataRequest { data: chained@.data, ..old(self)@ }),
    {
        self.data_arguments.set_transform(transform);
        self
    }

    fn end_date(&mut self, year: u16, month: u8, day: u8) -> (chained: &mut Self)
        ensures
            chained@ == (DataRequest { data: chained@.data, ..old(self)@ }),
    {
        self.data_arguments.set_end_date(year, month, day);
        self
    }

    fn start_date(&mut self, year: u16, month: u8, day: u8) -> (chained: &mut Self)
        ensures
            chained@ == (DataRequest { data: chained@.data, ..old(self)@ }),
    {
        self.data_arguments.set_start_date(year, month, day);
        self
    }

    fn column_index(&mut self, index: usize) -> (chained: &mut Self)
        ensures
            chained@ == (DataRequest { data: chained@.data, ..old(self)@ }),
    {
        self.data_arguments.set_column_index(index);
        self
    }

    fn fmt(&self) -> (text: Option<String>) {
        self.data_arguments.fmt()
    }
}

/// The arguments of a query for data: the demand to leave the column names
/// out, then the credential and the parameters where they are set, joined by
/// `&`.
pub open spec fn data_arguments_text(key: Option<Seq<char>>, terms: DataTerms) -> Seq<char> {
    joined(
        seq!["exclude_column_names=true"@] + present(api_text(key)) + present(data_text(terms)),
        "&"@,
    )
}

impl ApiCall for DataQuery {
    open spec fn key(&self) -> Option<Seq<char>> {
        self@.api_key
    }

    open spec fn prefix(&self) -> Option<Seq<char>> {
        Some("/datasets/"@ + self@.database_code + "/"@ + self@.dataset_code + "/data.csv"@)
    }

    open spec fn arguments(&self) -> Option<Seq<char>> {
        Some(data_arguments_text(self@.api_key, self@.data))
    }

    fn credential(&self) -> (key: Option<String>) {
        self.request_arguments.key()
    }

    fn fmt_prefix(&self) -> (text: Option<String>) {
        let mut text = String::from_str("/datasets/");
        text.append(self.database_code.as_str());
        text.append("/");
        text.append(self.dataset_code.as_str());
        text.append("/data.csv");
        Some(text)
    }

    fn fmt_arguments(&self) -> (text: Option<String>) {
        let mut text = String::from_str("exclude_column_names=true");
        let ghost lead = seq!["exclude_column_names=true"@];
        let ghost key = present(api_text(self@.api_key));
        let ghost data = present(data_text(self@.data));
        match self.request_arguments.fmt() {
            Some(key_text) => {
                text.append("&");
                text.append(key_text.as_str());
                proof {
                    lemma_joined_push(lead, "&"@, key_text@);
                    assert(lead + key =~= lead.push(key_text@));
                }
            },
            None => {
                assert(lead + key =~= lead);
            },
        }
        match self.data_arguments.fmt() {
            Some(data_text) => {
                text.append("&");
                text.append(data_text.as_str());
                proof {
                    lemma_joined_push(lead + key, "&"@, data_text@);
                    assert(lead + key + data =~= (lead + key).push(data_text@));
                }
            },
            None => {
                assert(lead + key + data =~= lead + key);
            },
        }
        Some(text)
    }
}

/// A query for the data and the metadata of a dataset.
#[derive(Debug, Clone, PartialEq)]
pub struct DataAndMetadataQuery {
    pub database_code: String,
    pub dataset_code: String,
    data_arguments: DataArguments,
    request_arguments: ApiArguments,
}

impl View for DataAndMetadataQuery {
    type V = DataRequest;

    closed spec fn view(&self) -> DataRequest {
        DataRequest {
            database_code: self.database_code@,
            dataset_code: self.dataset_code@,
            api_key: self.request_arguments@,
            data: self.data_arguments@,
        }
    }
}

impl DataAndMetadataQuery {
    /// A query for the data and the metadata of the dataset with these
    /// codes, with nothing set.
    pub fn new(database_code: &str, dataset_code: &str) -> (query: Self)
        ensures
            query@ == (DataRequest {
                database_code: database_code@,
                dataset_code: dataset_code@,
                api_key: None,
                data: no_data_terms(),
            }),
    {
        DataAndMetadataQuery {
            database_code: String::from_str(database_code),
            dataset_code: String::from_str(dataset_code),
            data_arguments: DataArguments::default(),
            request_arguments: ApiArguments::default(),
        }
    }
}

} // verus!

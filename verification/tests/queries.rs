use quandl_v3::api_call::{ApiCall, QUANDL_API_URL};
use quandl_v3::parameters::{
    ApiArguments, ApiParameters, DataArguments, DataParameters, SearchArguments, SearchParameters,
};
use quandl_v3::prelude::{
    CodeListQuery, DataAndMetadataQuery, DataQuery, DatabaseMetadataQuery, DatabaseSearch,
    DatasetMetadataQuery, DatasetSearch, Frequency, Order, Transform,
};

#[test]
fn address_of_the_service() {
    assert_eq!(QUANDL_API_URL, "https://www.quandl.com/api/v3");
}

#[test]
fn database_metadata_address() {
    let mut query = DatabaseMetadataQuery::new("WIKI");
    assert_eq!(query.url(), "https://www.quandl.com/api/v3/databases/WIKI.json");
    assert_eq!(query.credential(), None);
    query.api_key("KEY");
    assert_eq!(query.fmt_prefix(), Some("/databases/WIKI.json".to_string()));
    assert_eq!(query.fmt_arguments(), Some("api_key=KEY".to_string()));
    assert_eq!(query.url(), "https://www.quandl.com/api/v3/databases/WIKI.json?api_key=KEY");
    assert_eq!(query.credential(), Some("KEY".to_string()));
    assert_eq!(query.database_code, "WIKI");
}

#[test]
fn dataset_metadata_address() {
    let mut query = DatasetMetadataQuery::new("WIKI", "AAPL");
    assert_eq!(
        query.url(),
        "https://www.quandl.com/api/v3/datasets/WIKI/AAPL/metadata.json"
    );
    query.api_key("KEY");
    assert_eq!(
        query.url(),
        "https://www.quandl.com/api/v3/datasets/WIKI/AAPL/metadata.json?api_key=KEY"
    );
    assert_eq!(ApiParameters::fmt(&query), Some("api_key=KEY".to_string()));
}

#[test]
fn database_search_address() {
    let mut query = DatabaseSearch::new();
    assert_eq!(query.url(), "https://www.quandl.com/api/v3/databases.json");
    assert_eq!(query.fmt_arguments(), None);
    query.query(&["Oil", "Recycling"]).per_page(1).page(1);
    assert_eq!(
        query.url(),
        "https://www.quandl.com/api/v3/databases.json?query=Oil+Recycling&per_page=1&page=1"
    );
    query.api_key("KEY");
    assert_eq!(
        query.url(),
        "https://www.quandl.com/api/v3/databases.json?api_key=KEY&query=Oil+Recycling&per_page=1&page=1"
    );
    assert_eq!(
        SearchParameters::fmt(&query),
        Some("query=Oil+Recycling&per_page=1&page=1".to_string())
    );
}

#[test]
fn database_search_with_key_alone() {
    let mut query = DatabaseSearch::new();
    query.api_key("KEY");
    assert_eq!(query.fmt_arguments(), Some("api_key=KEY".to_string()));
}

#[test]
fn dataset_search_address() {
    let mut query = DatasetSearch::new("WIKI");
    // With nothing set the code of the database is left out too.
    assert_eq!(query.fmt_arguments(), None);
    assert_eq!(query.url(), "https://www.quandl.com/api/v3/datasets.json");
    query.query(&[" Oil ", "Recycling\n"]).per_page(1).page(1);
    assert_eq!(
        query.fmt_arguments(),
        Some("query=Oil+Recycling&per_page=1&page=1&database_code=WIKI".to_string())
    );
    query.api_key("KEY");
    assert_eq!(
        query.url(),
        "https://www.quandl.com/api/v3/datasets.json?api_key=KEY&query=Oil+Recycling&per_page=1&page=1&database_code=WIKI"
    );
}

#[test]
fn dataset_search_with_key_alone() {
    let mut query = DatasetSearch::new("WIKI");
    query.api_key("KEY");
    assert_eq!(
        query.fmt_arguments(),
        Some("api_key=KEY&database_code=WIKI".to_string())
    );
}

#[test]
fn code_list_address() {
    let mut query = CodeListQuery::new("WIKI");
    assert_eq!(query.url(), "https://www.quandl.com/api/v3/databases/WIKI/codes");
    query.api_key("KEY");
    assert_eq!(
        query.url(),
        "https://www.quandl.com/api/v3/databases/WIKI/codes?api_key=KEY"
    );
}

#[test]
fn data_query_address() {
    let mut query = DataQuery::new("WIKI", "AAPL");
    assert_eq!(
        query.url(),
        "https://www.quandl.com/api/v3/datasets/WIKI/AAPL/data.csv?exclude_column_names=true"
    );
    query
        .rows(20)
        .order(Order::asc)
        .collapse(Frequency::daily)
        .transform(Transform::none)
        .end_date(2016, 2, 10)
        .start_date(2016, 2, 1)
        .column_index(2);
    assert_eq!(
        DataParameters::fmt(&query),
        Some(
            "rows=20&order=asc&collapse=daily&transform=none&end_date=2016-02-10&start_date=2016-02-01&column_index=2"
                .to_string()
        )
    );
    assert_eq!(
        query.url(),
        "https://www.quandl.com/api/v3/datasets/WIKI/AAPL/data.csv?exclude_column_names=true&rows=20&order=asc&collapse=daily&transform=none&end_date=2016-02-10&start_date=2016-02-01&column_index=2"
    );
    query.api_key("KEY");
    assert_eq!(
        query.url(),
        "https://www.quandl.com/api/v3/datasets/WIKI/AAPL/data.csv?exclude_column_names=true&api_key=KEY&rows=20&order=asc&collapse=daily&transform=none&end_date=2016-02-10&start_date=2016-02-01&column_index=2"
    );
}

#[test]
fn data_query_with_key_alone() {
    let mut query = DataQuery::new("WIKI", "AAPL");
    query.api_key("KEY");
    assert_eq!(
        query.fmt_arguments(),
        Some("exclude_column_names=true&api_key=KEY".to_string())
    );
}

#[test]
fn data_query_limit_and_other_words() {
    let mut query = DataQuery::new("A", "B");
    query
        .limit(3)
        .order(Order::desc)
        .collapse(Frequency::quarterly)
        .transform(Transform::rdiff_from);
    assert_eq!(
        DataParameters::fmt(&query),
        Some("limit=3&order=desc&collapse=quarterly&transform=rdiff_from".to_string())
    );
}

#[test]
fn words_of_the_service() {
    assert_eq!(Order::asc.name(), "asc");
    assert_eq!(Order::desc.name(), "desc");
    let frequencies = [
        Frequency::none,
        Frequency::daily,
        Frequency::weekly,
        Frequency::monthly,
        Frequency::quarterly,
        Frequency::annual,
    ];
    for frequency in frequencies {
        assert_eq!(frequency.name(), format!("{:?}", frequency));
    }
    let transforms = [
        Transform::none,
        Transform::diff,
        Transform::rdiff,
        Transform::rdiff_from,
        Transform::cumul,
        Transform::normalize,
    ];
    for transform in transforms {
        assert_eq!(transform.name(), format!("{:?}", transform));
    }
}

#[test]
fn arguments_start_empty() {
    assert_eq!(ApiArguments::default().fmt(), None);
    assert_eq!(ApiArguments::default().key(), None);
    assert_eq!(SearchArguments::default().fmt(), None);
    assert_eq!(DataArguments::default().fmt(), None);
}

#[test]
fn search_arguments_one_by_one() {
    let mut search = SearchArguments::default();
    search.set_page(3);
    assert_eq!(search.fmt(), Some("page=3".to_string()));
    search.set_per_page(25);
    assert_eq!(search.fmt(), Some("per_page=25&page=3".to_string()));
    search.set_keywords(&["one"]);
    assert_eq!(search.fmt(), Some("query=one&per_page=25&page=3".to_string()));
    search.set_keywords(&[""]);
    assert_eq!(search.fmt(), Some("query=&per_page=25&page=3".to_string()));
    search.set_keywords(&[]);
    assert_eq!(search.fmt(), Some("per_page=25&page=3".to_string()));
}

#[test]
fn data_and_metadata_query_holds_its_codes() {
    let query = DataAndMetadataQuery::new("WIKI", "AAPL");
    assert_eq!(query.database_code, "WIKI");
    assert_eq!(query.dataset_code, "AAPL");
    assert_eq!(query, DataAndMetadataQuery::new("WIKI", "AAPL"));
}

//! The names that a user of the library needs, without those of its errors.

pub use crate::api_call::ApiCall;
pub use crate::api_call::QUANDL_API_URL;
pub use crate::batch_query::BatchQuery;
pub use crate::batch_query::Iterator as BatchQueryIterator;
pub use crate::parameters::ApiParameters;
pub use crate::parameters::DataParameters;
pub use crate::parameters::SearchParameters;
pub use crate::query::CodeListQuery;
pub use crate::query::DataAndMetadataQuery;
pub use crate::query::DataQuery;
pub use crate::query::DatabaseMetadataQuery;
pub use crate::query::DatabaseSearch;
pub use crate::query::DatasetMetadataQuery;
pub use crate::query::DatasetSearch;
pub use crate::types::Code;
pub use crate::types::DatabaseList;
pub use crate::types::DatabaseMetadata;
pub use crate::types::DatasetList;
pub use crate::types::DatasetMetadata;
pub use crate::types::Frequency;
pub use crate::types::Order;
pub use crate::types::SearchMetadata;
pub use crate::types::Transform;

pub mod cache;
pub mod convert;
pub mod transform;
pub mod value;

pub use cache::ConversionCache;
pub use convert::case_kind_of;
pub use convert::convert_key;
pub use convert::CaseKind;
pub use transform::transform;
pub use transform::transform_keys;
pub use transform::TransformTask;
pub use transform::ARR_PAR_THRESHOLD;
pub use transform::OBJ_PAR_THRESHOLD;
pub use value::Value;
pub use value::ValueModel;

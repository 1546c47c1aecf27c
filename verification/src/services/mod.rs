pub mod bucket;
pub mod digest;
pub mod object_id;
pub mod transfer;
pub mod upload;

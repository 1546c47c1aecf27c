mod replies;
mod task_id;

pub use replies::{check_task_reply, produce_task_reply, retrieve_reply, upload_reply, HttpStatus};
pub use task_id::{
    ascii_upper_char, crockford_digits_value, crockford_value, is_crockford_digit, is_ulid_text,
    read_task_id, task_id_bits, ulid_value,
};

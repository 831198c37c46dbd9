pub mod transaction_tracker;

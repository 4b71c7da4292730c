pub mod mandatory_entries;

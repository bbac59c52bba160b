//! Logic of an audiobook organizer.

pub mod aax_decrypt;
pub mod asin_learnings;
pub mod audiologo_apply;
pub mod audiologo_import;
pub mod audiologo_review;
pub mod audit;
pub mod auth;
pub mod authors;
pub mod background;
pub mod books_chapters_subtitles;
pub mod books_playlist;
pub mod books_transcript;
pub mod cleanup_targets;
pub mod cli;
pub mod cli_output;
pub mod clock;
pub mod collections;
pub mod doctor;
pub mod edits;
pub mod entity_books;
pub mod error;
pub mod journal;
pub mod journal_replayers;
pub mod library_roots;
pub mod like;
pub mod names;
pub mod narrators;
pub mod operation_journal;
pub mod ordering;
pub mod pagination;
pub mod pairing;
pub mod paths;
pub mod pipeline;
pub mod progress;
pub mod rate_limit;
pub mod slug;
pub mod text;

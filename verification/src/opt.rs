//! Passes that rewrite a module into a better one with the same meaning.

pub mod local_store_load_forwarding;

pub mod dictionary_encoding;

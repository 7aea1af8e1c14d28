//! Dictionary Encoding Block
//!
//! Compresses low-cardinality data by mapping each distinct value to a small
//! integer code. Codes are handed out in order of first appearance, starting
//! at 0; once the dictionary holds `max_dictionary_size` values, new values
//! cannot be encoded.
use std::collections::HashMap;
use vstd::prelude::*;
use vstd::string::*;

use crate::common::block::{Alternative, BlockCategory, BlockDocumentation, BlockMetadata, Complexity, Reference, ReferenceType};
use crate::common::metrics::{AggregationType, MetricDefinition, MetricType};
use crate::common::port::{Port, PortDirection};

verus! {

broadcast use vstd::std_specs::hash::group_hash_axioms;

/// A value-to-code dictionary with a bounded number of entries.
pub struct DictionaryEncodingBlock {
    metadata: BlockMetadata,
    input_ports: Vec<Port>,
    output_ports: Vec<Port>,
    metric_defs: Vec<MetricDefinition>,
    max_dictionary_size: usize,
    /// value to code
    dictionary: HashMap<u64, u32>,
    next_code: u32,
    dictionary_full_events: usize,
    entries_encoded: usize,
    original_size_bytes: usize,
    compressed_size_bytes: usize,
}

impl DictionaryEncodingBlock {
    /// The dictionary: each encoded value and its code.
    pub closed spec fn dict(&self) -> Map<u64, u32> {
        self.dictionary@
    }

    pub closed spec fn spec_max_dictionary_size(&self) -> usize {
        self.max_dictionary_size
    }

    pub closed spec fn spec_dictionary_full_events(&self) -> usize {
        self.dictionary_full_events
    }

    pub closed spec fn spec_entries_encoded(&self) -> usize {
        self.entries_encoded
    }

    pub closed spec fn spec_original_size_bytes(&self) -> usize {
        self.original_size_bytes
    }

    pub closed spec fn spec_compressed_size_bytes(&self) -> usize {
        self.compressed_size_bytes
    }

    /// Records passed through the encoder.
    #[verifier::when_used_as_spec(spec_entries_encoded)]
    pub fn entries_encoded(&self) -> (r: usize)
        ensures
            r == self.spec_entries_encoded(),
    {
        self.entries_encoded
    }

    /// Bytes the values took before encoding: 8 per value.
    #[verifier::when_used_as_spec(spec_original_size_bytes)]
    pub fn original_size_bytes(&self) -> (r: usize)
        ensures
            r == self.spec_original_size_bytes(),
    {
        self.original_size_bytes
    }

    /// Bytes the values take after encoding: 4 per code, 8 per value left
    /// unencoded.
    #[verifier::when_used_as_spec(spec_compressed_size_bytes)]
    pub fn compressed_size_bytes(&self) -> (r: usize)
        ensures
            r == self.spec_compressed_size_bytes(),
    {
        self.compressed_size_bytes
    }

    /// Every code is below the number of entries, and distinct values have
    /// distinct codes.
    pub open spec fn codes_distinct(&self) -> bool {
        &&& forall|v: u64| #[trigger] self.dict().contains_key(v) ==> self.dict()[v] < self.dict().len()
        &&& forall|a: u64, b: u64|
            #[trigger] self.dict().contains_key(a) && #[trigger] self.dict().contains_key(b) && a != b
                ==> self.dict()[a] != self.dict()[b]
    }

    /// The codes in use are exactly `0 .. number of entries`, one per value.
    pub closed spec fn wf(&self) -> bool {
        &&& self.dictionary@.dom().finite()
        &&& self.next_code as nat == self.dictionary@.len()
        &&& forall|v: u64| #[trigger]
            self.dictionary@.contains_key(v) ==> self.dictionary@[v] < self.next_code
        &&& forall|a: u64, b: u64|
            #[trigger] self.dictionary@.contains_key(a) && #[trigger] self.dictionary@.contains_key(b)
                && a != b ==> self.dictionary@[a] != self.dictionary@[b]
    }

    #[verifier::when_used_as_spec(spec_max_dictionary_size)]
    pub fn max_dictionary_size(&self) -> (r: usize)
        ensures
            r == self.spec_max_dictionary_size(),
    {
        self.max_dictionary_size
    }

    /// How many times a value could not be encoded because the dictionary
    /// was full.
    #[verifier::when_used_as_spec(spec_dictionary_full_events)]
    pub fn dictionary_full_events(&self) -> (r: usize)
        ensures
            r == self.spec_dictionary_full_events(),
    {
        self.dictionary_full_events
    }

    /// The number of values in the dictionary.
    pub fn dictionary_size(&self) -> (r: usize)
        requires
            self.wf(),
        ensures
            r == self.dict().len(),
    {
        self.dictionary.len()
    }

    pub fn new() -> (enc: Self)
        ensures
            enc.wf(),
            enc.dict() == Map::<u64, u32>::empty(),
            enc.max_dictionary_size() == 4096,
            enc.dictionary_full_events() == 0,
            enc.entries_encoded() == 0,
            enc.original_size_bytes() == 0,
            enc.compressed_size_bytes() == 0,
            enc.spec_metadata().id@ == "dictionary-encoding"@,
            enc.spec_metadata().category == BlockCategory::Compression,
    {
        Self {
            metadata: Self::build_metadata(),
            input_ports: Self::build_inputs(),
            output_ports: Self::build_outputs(),
            metric_defs: Self::build_metrics(),
            max_dictionary_size: 4096,
            dictionary: HashMap::new(),
            next_code: 0,
            dictionary_full_events: 0,
            entries_encoded: 0,
            original_size_bytes: 0,
            compressed_size_bytes: 0,
        }
    }

    /// Sets how many distinct values the dictionary may hold. The values
    /// already encoded keep their codes.
    pub fn set_max_dictionary_size(&mut self, max_dictionary_size: usize)
        requires
            old(self).wf(),
        ensures
            final(self).wf(),
            final(self).max_dictionary_size() == max_dictionary_size,
            final(self).dict() == old(self).dict(),
            final(self).dictionary_full_events() == old(self).dictionary_full_events(),
            final(self).entries_encoded() == old(self).entries_encoded(),
            final(self).original_size_bytes() == old(self).original_size_bytes(),
            final(self).compressed_size_bytes() == old(self).compressed_size_bytes(),
    {
        self.max_dictionary_size = max_dictionary_size;
    }

    /// Encodes a value: its code if it is already in the dictionary; else,
    /// while the dictionary has room, the next unused code, recorded for the
    /// value; else `None`, and the event is counted.
    pub fn encode(&mut self, value: u64) -> (code: Option<u32>)
        requires
            old(self).wf(),
            !old(self).dict().contains_key(value) && old(self).dict().len()
                < old(self).max_dictionary_size() ==> old(self).dict().len() < u32::MAX,
            !old(self).dict().contains_key(value) && old(self).dict().len()
                >= old(self).max_dictionary_size() ==> old(self).dictionary_full_events()
                < usize::MAX,
        ensures
            final(self).wf(),
            final(self).codes_distinct(),
            final(self).max_dictionary_size() == old(self).max_dictionary_size(),
            final(self).entries_encoded() == old(self).entries_encoded(),
            final(self).original_size_bytes() == old(self).original_size_bytes(),
            final(self).compressed_size_bytes() == old(self).compressed_size_bytes(),
            old(self).dict().contains_key(value) ==> {
                &&& code == Some(old(self).dict()[value])
                &&& final(self).dict() == old(self).dict()
                &&& final(self).dictionary_full_events() == old(self).dictionary_full_events()
            },
            !old(self).dict().contains_key(value) && old(self).dict().len()
                < old(self).max_dictionary_size() ==> {
                &&& code == Some(old(self).dict().len() as u32)
                &&& final(self).dict() == old(self).dict().insert(value, old(self).dict().len() as u32)
                &&& final(self).dictionary_full_events() == old(self).dictionary_full_events()
            },
            !old(self).dict().contains_key(value) && old(self).dict().len()
                >= old(self).max_dictionary_size() ==> {
                &&& code == None::<u32>
                &&& final(self).dict() == old(self).dict()
                &&& final(self).dictionary_full_events() == old(self).dictionary_full_events() + 1
            },
    {
        match self.dictionary.get(&value) {
            Some(c) => Some(*c),
            None => {
                if self.dictionary.len() < self.max_dictionary_size {
                    let code = self.next_code;
                    self.dictionary.insert(value, code);
                    self.next_code = self.next_code + 1;
                    Some(code)
                } else {
                    self.dictionary_full_events = self.dictionary_full_events + 1;
                    None  // Dictionary full: can't encode.
                }
            },
        }
    }

    /// Encodes one record's value and accounts for its size: 8 bytes
    /// before, and after 4 for a code or 8 for a value left as it was.
    pub fn encode_entry(&mut self, value: u64) -> (code: Option<u32>)
        requires
            old(self).wf(),
            !old(self).dict().contains_key(value) && old(self).dict().len()
                < old(self).max_dictionary_size() ==> old(self).dict().len() < u32::MAX,
            !old(self).dict().contains_key(value) && old(self).dict().len()
                >= old(self).max_dictionary_size() ==> old(self).dictionary_full_events()
                < usize::MAX,
            old(self).entries_encoded() < usize::MAX,
            old(self).original_size_bytes() + 8 <= usize::MAX,
            old(self).compressed_size_bytes() + 8 <= usize::MAX,
        ensures
            final(self).wf(),
            final(self).codes_distinct(),
            final(self).max_dictionary_size() == old(self).max_dictionary_size(),
            final(self).entries_encoded() == old(self).entries_encoded() + 1,
            final(self).original_size_bytes() == old(self).original_size_bytes() + 8,
            final(self).compressed_size_bytes() == old(self).compressed_size_bytes() + if code is Some {
                4int
            } else {
                8int
            },
            old(self).dict().contains_key(value) ==> {
                &&& code == Some(old(self).dict()[value])
                &&& final(self).dict() == old(self).dict()
                &&& final(self).dictionary_full_events() == old(self).dictionary_full_events()
            },
            !old(self).dict().contains_key(value) && old(self).dict().len()
                < old(self).max_dictionary_size() ==> {
                &&& code == Some(old(self).dict().len() as u32)
                &&& final(self).dict() == old(self).dict().insert(value, old(self).dict().len() as u32)
                &&& final(self).dictionary_full_events() == old(self).dictionary_full_events()
            },
            !old(self).dict().contains_key(value) && old(self).dict().len()
                >= old(self).max_dictionary_size() ==> {
                &&& code == None::<u32>
                &&& final(self).dict() == old(self).dict()
                &&& final(self).dictionary_full_events() == old(self).dictionary_full_events() + 1
            },
    {
        self.entries_encoded = self.entries_encoded + 1;
        self.original_size_bytes = self.original_size_bytes + 8;
        let code = self.encode(value);
        if code.is_some() {
            self.compressed_size_bytes = self.compressed_size_bytes + 4;
        } else {
            self.compressed_size_bytes = self.compressed_size_bytes + 8;
        }
        code
    }

    /// In every well-formed state, codes are below the number of entries
    /// and two distinct values never share a code.
    pub proof fn lemma_codes_distinct(&self)
        requires
            self.wf(),
        ensures
            self.codes_distinct(),
    {
    }
}

impl DictionaryEncodingBlock {
    fn build_documentation() -> (d: BlockDocumentation)
        ensures
            d.overview@ == "Dictionary encoding replaces repeated values with compact integer codes. A \
                           dictionary maps each unique value to a small integer code, and the compressed \
                           data stores only codes instead of the original values. Decompression is a \
                           simple dictionary lookup. This is extremely effective for columns with low \
                           cardinality — few distinct values relative to the total number of rows.\n\n\
                           In columnar databases, dictionary encoding is typically the first compression \
                           pass applied to string and enum columns. After replacing strings with integer \
                           codes, a second pass (LZ4, ZSTD, or run-length encoding) can further compress \
                           the integer codes. The combination often achieves 10-100x compression ratios on \
                           real-world data.\n\n\
                           Think of dictionary encoding like abbreviations in a book. Instead of writing \
                           'United States of America' every time it appears, you define 'USA' in a glossary \
                           and use the abbreviation everywhere else. The glossary is the dictionary, the \
                           abbreviation is the code, and the space savings are enormous when the same long \
                           value appears thousands of times."@,
            d.algorithm@ == "ENCODE(values[]):\n  \
                           dictionary = {}  // value -> code mapping\n  \
                           next_code = 0\n  \
                           encoded = []\n\n  \
                           For each value in values:\n    \
                             If value in dictionary:\n      \
                               encoded.push(dictionary[value])\n    \
                             Else if dictionary.size() < max_dictionary_size:\n      \
                               dictionary[value] = next_code\n      \
                               encoded.push(next_code)\n      \
                               next_code += 1\n    \
                             Else:\n      \
                               // Dictionary full — fall back to uncompressed\n      \
                               encoded.push(value)  // store raw\n      \
                               dictionary_full_events += 1\n\n\
                           DECODE(code):\n  \
                           Return reverse_dictionary[code]  // O(1) array lookup\n\n\
                           COMPRESSION_RATIO:\n  \
                           original_size / compressed_size\n  \
                           E.g., 8-byte strings -> 2-byte codes = 4x compression"@,
            d.motivation@ == "Without compression, columnar databases storing billions of rows would require \
                             enormous amounts of storage. Consider a 'country' column with 2 billion rows but \
                             only 200 distinct country names. Storing the full string 'United States' (13 bytes) \
                             2 billion times wastes ~24 GB. With dictionary encoding, each occurrence is replaced \
                             by a 1-byte code, reducing the column to ~2 GB — a 12x savings.\n\n\
                             Beyond storage savings, dictionary encoding also speeds up queries. Filtering \
                             'WHERE country = US' can compare integer codes instead of strings, which is much \
                             faster. GROUP BY operations can also work on codes, deferring the dictionary lookup \
                             to the final output stage."@,
            d.complexity.time@ == "O(n) to encode n values — one hash lookup per value"@,
            d.complexity.space@ == "O(d) for the dictionary where d = distinct values, plus O(n) for codes"@,
            d.use_cases@.len() == 5,
            d.use_cases@[0]@ == "Columnar stores compress string columns (country, status, category)"@,
            d.use_cases@[1]@ == "Parquet and ORC file formats use dictionary encoding by default"@,
            d.use_cases@[2]@ == "ClickHouse's LowCardinality type is dictionary encoding"@,
            d.use_cases@[3]@ == "Data warehouses compress dimension columns with repeated categorical values"@,
            d.use_cases@[4]@ == "Network protocol encoding — map repeated header strings to integer codes"@,
            d.tradeoffs@.len() == 6,
            d.tradeoffs@[0]@ == "Excellent for low-cardinality columns (< 10K distinct values)"@,
            d.tradeoffs@[1]@ == "Poor for high-cardinality columns (dictionary becomes larger than data)"@,
            d.tradeoffs@[2]@ == "Dictionary must fit in memory for fast encoding/decoding"@,
            d.tradeoffs@[3]@ == "Often combined with other compression (LZ4, ZSTD) on the codes"@,
            d.tradeoffs@[4]@ == "Dictionary overhead is fixed per column segment — amortized over many rows"@,
            d.tradeoffs@[5]@ == "Query operations on encoded data can work directly on codes (equality, grouping) without decoding"@,
            d.examples@.len() == 4,
            d.examples@[0]@ == "Parquet — dictionary encoding is the default first pass; falls back to plain encoding when dictionary exceeds page size"@,
            d.examples@[1]@ == "ClickHouse LowCardinality — wraps any type with dictionary encoding, enables vectorized operations on codes"@,
            d.examples@[2]@ == "Vertica — ENCODING RLE for sorted low-cardinality, ENCODING AUTO selects dictionary encoding automatically"@,
            d.examples@[3]@ == "Apache Arrow — dictionary-encoded arrays for efficient in-memory columnar representation"@,
            d.suggested_questions@.len() == 3,
            d.suggested_questions@[0]@ == "When does dictionary encoding become counterproductive, and how does a database detect this?"@,
            d.suggested_questions@[1]@ == "How can a database execute queries directly on dictionary-encoded data without decompressing?"@,
            d.suggested_questions@[2]@ == "What is the relationship between dictionary encoding and the LowCardinality type in ClickHouse?"@,
            d.parameter_guide@.len() == 1,
            d.parameter_guide@[0].0@ == "max_dictionary_size"@,
            d.parameter_guide@[0].1@ == "The maximum number of distinct values the dictionary can hold. When this limit is \
                      reached, new values cannot be encoded and are stored uncompressed (fallback). A \
                      larger dictionary (8192-65536) can handle higher cardinality columns but uses more \
                      memory and may reduce compression effectiveness when the dictionary itself becomes \
                      large. A smaller dictionary (16-256) works well for very low cardinality (e.g., \
                      boolean, status, or country columns). Parquet uses a page-size-based limit (~1MB \
                      dictionary per column chunk). Recommended: 4096 for general use; 256-1024 for columns \
                      you know have very low cardinality; 8192-65536 for medium cardinality columns."@,
            d.alternatives@.len() == 2,
            d.alternatives@[0].block_type@ == "run-length-encoding"@,
            d.alternatives@[0].comparison@ == "Run-length encoding (RLE) replaces consecutive repeated values with a \
                                     single (value, count) pair. It is most effective on sorted data where \
                                     identical values cluster together. Dictionary encoding works regardless \
                                     of value order and is effective whenever there are repeated values anywhere \
                                     in the column. In practice, columnar databases often apply dictionary \
                                     encoding first, then RLE on the resulting sorted codes for maximum \
                                     compression."@,
            d.alternatives@[1].block_type@ == "lz4-compression"@,
            d.alternatives@[1].comparison@ == "LZ4 is a general-purpose byte-level compression algorithm that works \
                                     on any data pattern. Dictionary encoding is domain-specific — it exploits \
                                     the knowledge that values repeat exactly. Dictionary encoding typically \
                                     achieves better compression ratios for low-cardinality data and allows \
                                     query operations on compressed data (code comparisons). LZ4 requires \
                                     full decompression before data can be queried. Many systems use both: \
                                     dictionary encoding first, then LZ4 on the codes."@,
    {
        let mut use_cases: Vec<String> = Vec::new();
        use_cases.push(String::from_str("Columnar stores compress string columns (country, status, category)"));
        use_cases.push(String::from_str("Parquet and ORC file formats use dictionary encoding by default"));
        use_cases.push(String::from_str("ClickHouse's LowCardinality type is dictionary encoding"));
        use_cases.push(String::from_str("Data warehouses compress dimension columns with repeated categorical values"));
        use_cases.push(String::from_str("Network protocol encoding — map repeated header strings to integer codes"));
        let mut tradeoffs: Vec<String> = Vec::new();
        tradeoffs.push(String::from_str("Excellent for low-cardinality columns (< 10K distinct values)"));
        tradeoffs.push(String::from_str("Poor for high-cardinality columns (dictionary becomes larger than data)"));
        tradeoffs.push(String::from_str("Dictionary must fit in memory for fast encoding/decoding"));
        tradeoffs.push(String::from_str("Often combined with other compression (LZ4, ZSTD) on the codes"));
        tradeoffs.push(String::from_str("Dictionary overhead is fixed per column segment — amortized over many rows"));
        tradeoffs.push(String::from_str("Query operations on encoded data can work directly on codes (equality, grouping) without decoding"));
        let mut examples: Vec<String> = Vec::new();
        examples.push(String::from_str("Parquet — dictionary encoding is the default first pass; falls back to plain encoding when dictionary exceeds page size"));
        examples.push(String::from_str("ClickHouse LowCardinality — wraps any type with dictionary encoding, enables vectorized operations on codes"));
        examples.push(String::from_str("Vertica — ENCODING RLE for sorted low-cardinality, ENCODING AUTO selects dictionary encoding automatically"));
        examples.push(String::from_str("Apache Arrow — dictionary-encoded arrays for efficient in-memory columnar representation"));
        let mut suggested_questions: Vec<String> = Vec::new();
        suggested_questions.push(String::from_str("When does dictionary encoding become counterproductive, and how does a database detect this?"));
        suggested_questions.push(String::from_str("How can a database execute queries directly on dictionary-encoded data without decompressing?"));
        suggested_questions.push(String::from_str("What is the relationship between dictionary encoding and the LowCardinality type in ClickHouse?"));
        let mut parameter_guide: Vec<(String, String)> = Vec::new();
        parameter_guide.push((String::from_str("max_dictionary_size"), String::from_str("The maximum number of distinct values the dictionary can hold. When this limit is \
                      reached, new values cannot be encoded and are stored uncompressed (fallback). A \
                      larger dictionary (8192-65536) can handle higher cardinality columns but uses more \
                      memory and may reduce compression effectiveness when the dictionary itself becomes \
                      large. A smaller dictionary (16-256) works well for very low cardinality (e.g., \
                      boolean, status, or country columns). Parquet uses a page-size-based limit (~1MB \
                      dictionary per column chunk). Recommended: 4096 for general use; 256-1024 for columns \
                      you know have very low cardinality; 8192-65536 for medium cardinality columns.")));
        let mut alternatives: Vec<Alternative> = Vec::new();
        alternatives.push(Alternative { block_type: String::from_str("run-length-encoding"), comparison: String::from_str("Run-length encoding (RLE) replaces consecutive repeated values with a \
                                     single (value, count) pair. It is most effective on sorted data where \
                                     identical values cluster together. Dictionary encoding works regardless \
                                     of value order and is effective whenever there are repeated values anywhere \
                                     in the column. In practice, columnar databases often apply dictionary \
                                     encoding first, then RLE on the resulting sorted codes for maximum \
                                     compression.") });
        alternatives.push(Alternative { block_type: String::from_str("lz4-compression"), comparison: String::from_str("LZ4 is a general-purpose byte-level compression algorithm that works \
                                     on any data pattern. Dictionary encoding is domain-specific — it exploits \
                                     the knowledge that values repeat exactly. Dictionary encoding typically \
                                     achieves better compression ratios for low-cardinality data and allows \
                                     query operations on compressed data (code comparisons). LZ4 requires \
                                     full decompression before data can be queried. Many systems use both: \
                                     dictionary encoding first, then LZ4 on the codes.") });
        BlockDocumentation {
            overview: String::from_str("Dictionary encoding replaces repeated values with compact integer codes. A \
                           dictionary maps each unique value to a small integer code, and the compressed \
                           data stores only codes instead of the original values. Decompression is a \
                           simple dictionary lookup. This is extremely effective for columns with low \
                           cardinality — few distinct values relative to the total number of rows.\n\n\
                           In columnar databases, dictionary encoding is typically the first compression \
                           pass applied to string and enum columns. After replacing strings with integer \
                           codes, a second pass (LZ4, ZSTD, or run-length encoding) can further compress \
                           the integer codes. The combination often achieves 10-100x compression ratios on \
                           real-world data.\n\n\
                           Think of dictionary encoding like abbreviations in a book. Instead of writing \
                           'United States of America' every time it appears, you define 'USA' in a glossary \
                           and use the abbreviation everywhere else. The glossary is the dictionary, the \
                           abbreviation is the code, and the space savings are enormous when the same long \
                           value appears thousands of times."),
            algorithm: String::from_str("ENCODE(values[]):\n  \
                           dictionary = {}  // value -> code mapping\n  \
                           next_code = 0\n  \
                           encoded = []\n\n  \
                           For each value in values:\n    \
                             If value in dictionary:\n      \
                               encoded.push(dictionary[value])\n    \
                             Else if dictionary.size() < max_dictionary_size:\n      \
                               dictionary[value] = next_code\n      \
                               encoded.push(next_code)\n      \
                               next_code += 1\n    \
                             Else:\n      \
                               // Dictionary full — fall back to uncompressed\n      \
                               encoded.push(value)  // store raw\n      \
                               dictionary_full_events += 1\n\n\
                           DECODE(code):\n  \
                           Return reverse_dictionary[code]  // O(1) array lookup\n\n\
                           COMPRESSION_RATIO:\n  \
                           original_size / compressed_size\n  \
                           E.g., 8-byte strings -> 2-byte codes = 4x compression"),
            complexity: Complexity { time: String::from_str("O(n) to encode n values — one hash lookup per value"), space: String::from_str("O(d) for the dictionary where d = distinct values, plus O(n) for codes") },
            use_cases,
            tradeoffs,
            examples,
            motivation: String::from_str("Without compression, columnar databases storing billions of rows would require \
                             enormous amounts of storage. Consider a 'country' column with 2 billion rows but \
                             only 200 distinct country names. Storing the full string 'United States' (13 bytes) \
                             2 billion times wastes ~24 GB. With dictionary encoding, each occurrence is replaced \
                             by a 1-byte code, reducing the column to ~2 GB — a 12x savings.\n\n\
                             Beyond storage savings, dictionary encoding also speeds up queries. Filtering \
                             'WHERE country = US' can compare integer codes instead of strings, which is much \
                             faster. GROUP BY operations can also work on codes, deferring the dictionary lookup \
                             to the final output stage."),
            parameter_guide,
            alternatives,
            suggested_questions,
        }
    }

    fn build_references() -> (r: Vec<Reference>)
        ensures
            r@.len() == 1,
            r@[0].ref_type == ReferenceType::Book,
            r@[0].title@ == "Database Internals by Alex Petrov — Chapter 4: Compression"@,
            r@[0].url is None,
            r@[0].citation matches Some(t) && t@ == "Petrov, A. (2019). Database Internals. O'Reilly."@,
    {
        let mut r: Vec<Reference> = Vec::new();
        r.push(Reference { ref_type: ReferenceType::Book, title: String::from_str("Database Internals by Alex Petrov — Chapter 4: Compression"), url: None, citation: Some(String::from_str("Petrov, A. (2019). Database Internals. O'Reilly.")) });
        r
    }

    fn build_metadata() -> (m: BlockMetadata)
        ensures
            m.documentation.overview@ == "Dictionary encoding replaces repeated values with compact integer codes. A \
                           dictionary maps each unique value to a small integer code, and the compressed \
                           data stores only codes instead of the original values. Decompression is a \
                           simple dictionary lookup. This is extremely effective for columns with low \
                           cardinality — few distinct values relative to the total number of rows.\n\n\
                           In columnar databases, dictionary encoding is typically the first compression \
                           pass applied to string and enum columns. After replacing strings with integer \
                           codes, a second pass (LZ4, ZSTD, or run-length encoding) can further compress \
                           the integer codes. The combination often achieves 10-100x compression ratios on \
                           real-world data.\n\n\
                           Think of dictionary encoding like abbreviations in a book. Instead of writing \
                           'United States of America' every time it appears, you define 'USA' in a glossary \
                           and use the abbreviation everywhere else. The glossary is the dictionary, the \
                           abbreviation is the code, and the space savings are enormous when the same long \
                           value appears thousands of times."@,
            m.references@.len() == 1,
            m.id@ == "dictionary-encoding"@,
            m.category == BlockCategory::Compression,
            m.name@ == "Dictionary Encoding"@,
            m.description@ == "Compresses low-cardinality data by mapping values to integer codes"@,
            m.version@ == "1.0.0"@,
            m.icon@ == "archive"@,
            m.color@ == "#F97316"@,
    {
        BlockMetadata::new(
            "dictionary-encoding",
            "Dictionary Encoding",
            BlockCategory::Compression,
            "Compresses low-cardinality data by mapping values to integer codes",
            "archive",
            "#F97316",
            Self::build_documentation(),
            Self::build_references(),
        )
    }

    fn build_inputs() -> (p: Vec<Port>)
        ensures
            p@.len() == 1,
            p@[0].id@ == "records"@,
    {
        let mut p: Vec<Port> = Vec::new();
        p.push(
            Port::new(
                "records",
                "Records",
                PortDirection::Input,
                true,
                false,
                "Records to compress using dictionary encoding",
            ),
        );
        p
    }

    fn build_outputs() -> (p: Vec<Port>)
        ensures
            p@.len() == 1,
            p@[0].id@ == "compressed"@,
    {
        let mut p: Vec<Port> = Vec::new();
        p.push(
            Port::new(
                "compressed",
                "Compressed Records",
                PortDirection::Output,
                false,
                true,
                "Records with `_dict_code` replacing original values",
            ),
        );
        p
    }

    fn build_metrics() -> (v: Vec<MetricDefinition>)
        ensures
            v@.len() == 4,
            v@[0].id@ == "entries_encoded"@,
            v@[1].id@ == "dictionary_size"@,
            v@[2].id@ == "compression_ratio"@,
            v@[3].id@ == "dictionary_full_events"@,
    {
        let mut v: Vec<MetricDefinition> = Vec::new();
        v.push(
            MetricDefinition::new(
                "entries_encoded",
                "Entries Encoded",
                MetricType::Counter,
                "records",
                "Total records processed through encoding",
                AggregationType::Sum,
            ),
        );
        v.push(
            MetricDefinition::new(
                "dictionary_size",
                "Dictionary Size",
                MetricType::Gauge,
                "entries",
                "Number of unique values in the dictionary",
                AggregationType::Max,
            ),
        );
        v.push(
            MetricDefinition::new(
                "compression_ratio",
                "Compression Ratio",
                MetricType::Gauge,
                "x",
                "Original size divided by compressed size",
                AggregationType::Avg,
            ),
        );
        v.push(
            MetricDefinition::new(
                "dictionary_full_events",
                "Dictionary Full",
                MetricType::Counter,
                "events",
                "Times the dictionary reached maximum capacity",
                AggregationType::Sum,
            ),
        );
        v
    }

    /// What the block says about itself.
    pub fn metadata(&self) -> (m: &BlockMetadata)
        ensures
            m == self.spec_metadata(),
    {
        &self.metadata
    }

    pub closed spec fn spec_metadata(&self) -> BlockMetadata {
        self.metadata
    }

    /// The block's input ports.
    pub fn inputs(&self) -> (p: &Vec<Port>)
        ensures
            p == self.spec_inputs(),
    {
        &self.input_ports
    }

    pub closed spec fn spec_inputs(&self) -> Vec<Port> {
        self.input_ports
    }

    /// The block's output ports.
    pub fn outputs(&self) -> (p: &Vec<Port>)
        ensures
            p == self.spec_outputs(),
    {
        &self.output_ports
    }

    pub closed spec fn spec_outputs(&self) -> Vec<Port> {
        self.output_ports
    }

    /// The metrics the block reports.
    pub fn metrics(&self) -> (m: &Vec<MetricDefinition>)
        ensures
            m == self.spec_metrics(),
    {
        &self.metric_defs
    }

    pub closed spec fn spec_metrics(&self) -> Vec<MetricDefinition> {
        self.metric_defs
    }
}

} // verus!

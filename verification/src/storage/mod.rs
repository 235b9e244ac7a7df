//! Storage: LZ4 compression of stroke data, the metadata schema, the
//! storage error type, the auto-save rules and the search index.

pub mod autosave;
pub mod search;

use vstd::prelude::*;

verus! {

/// `lz4_flex::block::DecompressError`, the error of a failed decompression.
#[verifier::external_type_specification]
#[verifier::external_body]
pub struct ExDecompressError(lz4_flex::block::DecompressError);

/// `rusqlite::Error`, the error of a failed SQLite operation.
#[verifier::external_type_specification]
#[verifier::external_body]
pub struct ExSqliteError(rusqlite::Error);

/// Why a storage operation failed.
pub enum StorageError {
    Database(String),
    Serialization(String),
    Io(std::io::Error),
    Compression(String),
    Sqlite(rusqlite::Error),
}

/// The bytes `lz4_flex::compress_prepend_size` produces for `data`: the LZ4
/// block of `data` after its length as a little-endian `u32`.
pub uninterp spec fn lz4_packed(data: Seq<u8>) -> Seq<u8>;

/// What `lz4_flex::decompress_size_prepended` gives back for `data`: the
/// decompressed bytes, or `None` when it reports an error.
pub uninterp spec fn lz4_unpacked(data: Seq<u8>) -> Option<Seq<u8>>;

/// `lz4_flex::compress_prepend_size`. The output is a function of the input
/// alone; the crate documents it as the input of `decompress_size_prepended`,
/// which gives the original bytes back whenever their length fits the `u32`
/// size prefix.
#[verifier::external_body]
fn lz4_compress_prepend_size(data: &[u8]) -> (res: Vec<u8>)
    ensures
        res@ == lz4_packed(data@),
        data@.len() <= u32::MAX ==> lz4_unpacked(res@) == Some(data@),
{
    lz4_flex::compress_prepend_size(data)
}

/// `lz4_flex::decompress_size_prepended`. The outcome is a function of the
/// input alone. (It reserves the output buffer from the 4-byte size prefix, so
/// a forged prefix can make it ask for up to 4 GiB.)
#[verifier::external_body]
fn lz4_decompress_size_prepended(data: &[u8]) -> (res: Result<
    Vec<u8>,
    lz4_flex::block::DecompressError,
>)
    ensures
        match res {
            Ok(v) => lz4_unpacked(data@) == Some(v@),
            Err(_) => lz4_unpacked(data@) is None,
        },
{
    lz4_flex::decompress_size_prepended(data)
}

/// The message of a decompression error (its `Display` text); nothing is
/// stated of the text.
#[verifier::external_body]
fn decompress_error_text(e: &lz4_flex::block::DecompressError) -> String {
    e.to_string()
}

/// The SQL schema of the metadata database.
pub const SCHEMA_SQL: &'static str = r#"
CREATE TABLE IF NOT EXISTS libraries (
    id TEXT PRIMARY KEY,
    name TEXT NOT NULL,
    created_at INTEGER NOT NULL,
    modified_at INTEGER NOT NULL
);

CREATE TABLE IF NOT EXISTS notebooks (
    id TEXT PRIMARY KEY,
    library_id TEXT NOT NULL,
    name TEXT NOT NULL,
    cover_color TEXT NOT NULL,
    sort_order INTEGER NOT NULL DEFAULT 0,
    created_at INTEGER NOT NULL,
    modified_at INTEGER NOT NULL,
    FOREIGN KEY (library_id) REFERENCES libraries(id)
);

CREATE TABLE IF NOT EXISTS sections (
    id TEXT PRIMARY KEY,
    notebook_id TEXT NOT NULL,
    name TEXT NOT NULL,
    sort_order INTEGER NOT NULL DEFAULT 0,
    created_at INTEGER NOT NULL,
    modified_at INTEGER NOT NULL,
    FOREIGN KEY (notebook_id) REFERENCES notebooks(id)
);

CREATE TABLE IF NOT EXISTS pages (
    id TEXT PRIMARY KEY,
    section_id TEXT NOT NULL,
    template TEXT NOT NULL DEFAULT 'blank',
    width REAL NOT NULL,
    height REAL NOT NULL,
    sort_order INTEGER NOT NULL DEFAULT 0,
    background_pdf_page INTEGER,
    background_image TEXT,
    created_at INTEGER NOT NULL,
    modified_at INTEGER NOT NULL,
    FOREIGN KEY (section_id) REFERENCES sections(id)
);

CREATE TABLE IF NOT EXISTS layers (
    id TEXT PRIMARY KEY,
    page_id TEXT NOT NULL,
    name TEXT NOT NULL,
    visible INTEGER NOT NULL DEFAULT 1,
    locked INTEGER NOT NULL DEFAULT 0,
    opacity REAL NOT NULL DEFAULT 1.0,
    sort_order INTEGER NOT NULL DEFAULT 0,
    FOREIGN KEY (page_id) REFERENCES pages(id)
);

CREATE TABLE IF NOT EXISTS stroke_data (
    page_id TEXT PRIMARY KEY,
    data BLOB NOT NULL,
    compressed INTEGER NOT NULL DEFAULT 1,
    FOREIGN KEY (page_id) REFERENCES pages(id)
);

CREATE TABLE IF NOT EXISTS assets (
    id TEXT PRIMARY KEY,
    hash TEXT NOT NULL UNIQUE,
    mime_type TEXT NOT NULL,
    data BLOB NOT NULL,
    created_at INTEGER NOT NULL
);

CREATE TABLE IF NOT EXISTS settings (
    key TEXT PRIMARY KEY,
    value TEXT NOT NULL
);

CREATE INDEX IF NOT EXISTS idx_notebooks_library ON notebooks(library_id);
CREATE INDEX IF NOT EXISTS idx_sections_notebook ON sections(notebook_id);
CREATE INDEX IF NOT EXISTS idx_pages_section ON pages(section_id);
CREATE INDEX IF NOT EXISTS idx_layers_page ON layers(page_id);
"#;

/// Compress stroke data with LZ4 (size-prepended block format).
pub fn compress_strokes(data: &[u8]) -> (res: Vec<u8>)
    ensures
        res@ == lz4_packed(data@),
        data@.len() <= u32::MAX ==> lz4_unpacked(res@) == Some(data@),
{
    lz4_compress_prepend_size(data)
}

/// Decompress LZ4 stroke data; a malformed input is a compression error.
pub fn decompress_strokes(data: &[u8]) -> (res: Result<Vec<u8>, StorageError>)
    ensures
        match res {
            Ok(v) => lz4_unpacked(data@) == Some(v@),
            Err(e) => lz4_unpacked(data@) is None && e is Compression,
        },
{
    match lz4_decompress_size_prepended(data) {
        Ok(v) => Ok(v),
        Err(e) => Err(StorageError::Compression(decompress_error_text(&e))),
    }
}

} // verus!

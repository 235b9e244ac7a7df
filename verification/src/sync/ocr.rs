//! OCR: the Tesseract page segmentation modes, the command line that runs
//! Tesseract, and the reading of what it prints.

use vstd::prelude::*;
use vstd::string::*;
use crate::export::io_error_text;
use crate::text::{
    concat2, decimal, lines_after_first, owned, push_decimal, split_words, texts, trim_text,
    trimmed, trimmed_lines_after_first, words,
};

verus! {

/// Tesseract page segmentation modes.
#[derive(Debug, Clone, Copy, PartialEq, Eq, Structural)]
pub enum PageSegMode {
    /// Fully automatic page segmentation.
    Auto,
    /// Single column of text.
    SingleColumn,
    /// Single block of text.
    SingleBlock,
    /// Single line.
    SingleLine,
    /// Single word.
    SingleWord,
    /// Single character.
    SingleChar,
    /// Sparse text with orientation and script detection.
    SparseText,
}

/// Tesseract's number for a page segmentation mode.
pub open spec fn tesseract_value(m: PageSegMode) -> i32 {
    match m {
        PageSegMode::Auto => 3,
        PageSegMode::SingleColumn => 4,
        PageSegMode::SingleBlock => 6,
        PageSegMode::SingleLine => 7,
        PageSegMode::SingleWord => 8,
        PageSegMode::SingleChar => 10,
        PageSegMode::SparseText => 11,
    }
}

impl PageSegMode {
    /// Tesseract's `--psm` number for this mode.
    pub fn to_tesseract_value(&self) -> (res: i32)
        ensures
            res == tesseract_value(*self),
    {
        match self {
            PageSegMode::Auto => 3,
            PageSegMode::SingleColumn => 4,
            PageSegMode::SingleBlock => 6,
            PageSegMode::SingleLine => 7,
            PageSegMode::SingleWord => 8,
            PageSegMode::SingleChar => 10,
            PageSegMode::SparseText => 11,
        }
    }
}


/// Why OCR failed.
pub enum OcrError {
    TesseractNotAvailable(String),
    RecognitionFailed(String),
    ImageError(String),
    Io(std::io::Error),
}

impl OcrError {
    /// A message describing the error.
    pub fn message(&self) -> (res: String)
        ensures
            match self {
                OcrError::TesseractNotAvailable(s) => res@ == "Tesseract not available: "@ + s@,
                OcrError::RecognitionFailed(s) => res@ == "Recognition failed: "@ + s@,
                OcrError::ImageError(s) => res@ == "Image conversion error: "@ + s@,
                OcrError::Io(_) => exists|t: Seq<char>| res@ == "IO error: "@ + t,
            },
    {
        match self {
            OcrError::TesseractNotAvailable(s) => concat2("Tesseract not available: ", s.as_str()),
            OcrError::RecognitionFailed(s) => concat2("Recognition failed: ", s.as_str()),
            OcrError::ImageError(s) => concat2("Image conversion error: ", s.as_str()),
            OcrError::Io(e) => {
                let t = io_error_text(e);
                let res = concat2("IO error: ", t.as_str());
                assert(res@ == "IO error: "@ + t@);
                res
            },
        }
    }
}

/// The arguments Tesseract is run with: the image, output to standard
/// output, the language, the segmentation mode and the resolution.
pub open spec fn tesseract_command(
    image_path: Seq<char>,
    language: Seq<char>,
    psm: PageSegMode,
    dpi: nat,
) -> Seq<Seq<char>> {
    seq![
        image_path,
        "stdout"@,
        "-l"@,
        language,
        "--psm"@,
        decimal(tesseract_value(psm) as nat),
        "--dpi"@,
        decimal(dpi),
    ]
}

/// The arguments to run Tesseract with on the image at `image_path`.
pub fn tesseract_args(image_path: &str, language: &str, psm: PageSegMode, dpi: u32) -> (res: Vec<
    String,
>)
    ensures
        texts(res@) == tesseract_command(image_path@, language@, psm, dpi as nat),
{
    let mut psm_text = String::new();
    let v = psm.to_tesseract_value();
    push_decimal(&mut psm_text, v as u64);
    let mut dpi_text = String::new();
    push_decimal(&mut dpi_text, dpi as u64);
    let mut args: Vec<String> = Vec::new();
    args.push(owned(image_path));
    args.push("stdout".to_string());
    args.push("-l".to_string());
    args.push(owned(language));
    args.push("--psm".to_string());
    args.push(psm_text);
    args.push("--dpi".to_string());
    args.push(dpi_text);
    assert(texts(args@) =~= tesseract_command(image_path@, language@, psm, dpi as nat));
    args
}

/// What Tesseract recognized: the whole text, trimmed, and its words.
pub struct RecognizedText {
    pub text: String,
    pub words: Vec<String>,
}

/// The outcome of a Tesseract run: when it failed, its error output; when it
/// succeeded, its output trimmed and cut into words.
pub fn recognition_result(success: bool, stdout: &str, stderr: &str) -> (res: Result<
    RecognizedText,
    OcrError,
>)
    ensures
        !success ==> (res matches Err(OcrError::RecognitionFailed(m)) && m@ == stderr@),
        success ==> (res matches Ok(r) && r.text@ == trimmed(stdout@) && texts(r.words@) == words(
            stdout@,
        )),
{
    if !success {
        return Err(OcrError::RecognitionFailed(owned(stderr)));
    }
    let words = split_words(stdout);
    Ok(RecognizedText { text: trim_text(stdout), words })
}

/// The languages in Tesseract's language listing: every line after the
/// header, trimmed, blank lines left out.
pub fn languages_from_listing(listing: &str) -> (res: Vec<String>)
    ensures
        texts(res@) == lines_after_first(listing@),
{
    trimmed_lines_after_first(listing)
}

} // verus!

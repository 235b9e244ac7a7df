//! Export dispatch: the output formats and the file each export produces.

use vstd::prelude::*;
use vstd::string::*;
use crate::text::{chars_of, concat2, decimal, push_decimal};

verus! {

/// `std::io::Error`, carried by the I/O variants of the export, input and
/// storage errors.
#[verifier::external_type_specification]
#[verifier::external_body]
pub struct ExIoError(std::io::Error);

/// Why an export failed.
pub enum ExportError {
    Failed(String),
    UnsupportedFormat(String),
    Io(std::io::Error),
}

/// The text of an I/O error (`std::io::Error`'s `Display`); it may name an
/// operating-system message, so nothing is stated of it.
#[verifier::external_body]
pub(crate) fn io_error_text(e: &std::io::Error) -> String {
    e.to_string()
}

impl ExportError {
    /// A message describing the error.
    pub fn message(&self) -> (res: String)
        ensures
            match self {
                ExportError::Failed(s) => res@ == "Export failed: "@ + s@,
                ExportError::UnsupportedFormat(s) => res@ == "Unsupported format: "@ + s@,
                ExportError::Io(_) => exists|t: Seq<char>| res@ == "IO error: "@ + t,
            },
    {
        match self {
            ExportError::Failed(s) => concat2("Export failed: ", s.as_str()),
            ExportError::UnsupportedFormat(s) => concat2("Unsupported format: ", s.as_str()),
            ExportError::Io(e) => {
                let t = io_error_text(e);
                let res = concat2("IO error: ", t.as_str());
                assert(res@ == "IO error: "@ + t@);
                res
            },
        }
    }
}

/// Why an SVG or PNG export failed.
pub enum ImageExportError {
    Failed(String),
    Io(std::io::Error),
    Image(String),
}

impl ImageExportError {
    /// A message describing the error.
    pub fn message(&self) -> (res: String)
        ensures
            match self {
                ImageExportError::Failed(s) => res@ == "Export failed: "@ + s@,
                ImageExportError::Image(s) => res@ == "Image error: "@ + s@,
                ImageExportError::Io(_) => exists|t: Seq<char>| res@ == "IO error: "@ + t,
            },
    {
        match self {
            ImageExportError::Failed(s) => concat2("Export failed: ", s.as_str()),
            ImageExportError::Image(s) => concat2("Image error: ", s.as_str()),
            ImageExportError::Io(e) => {
                let t = io_error_text(e);
                let res = concat2("IO error: ", t.as_str());
                assert(res@ == "IO error: "@ + t@);
                res
            },
        }
    }
}

/// Why a PDF export failed.
pub enum PdfExportError {
    Failed(String),
    Io(std::io::Error),
}

impl PdfExportError {
    /// A message describing the error.
    pub fn message(&self) -> (res: String)
        ensures
            match self {
                PdfExportError::Failed(s) => res@ == "Export failed: "@ + s@,
                PdfExportError::Io(_) => exists|t: Seq<char>| res@ == "IO error: "@ + t,
            },
    {
        match self {
            PdfExportError::Failed(s) => concat2("Export failed: ", s.as_str()),
            PdfExportError::Io(e) => {
                let t = io_error_text(e);
                let res = concat2("IO error: ", t.as_str());
                assert(res@ == "IO error: "@ + t@);
                res
            },
        }
    }
}

/// Why a PDF could not be imported.
pub enum PdfImportError {
    OpenFailed(String),
    InvalidPdf(String),
    /// The page number asked for, and the number of pages in the document.
    PageNotFound(u32, u32),
    Io(std::io::Error),
}

/// The message for a missing page: the page asked for and the page count.
fn page_not_found_text(p: u32, n: u32) -> (res: String)
    ensures
        res@ == "Page "@ + decimal(p as nat) + " not found in PDF (total: "@ + decimal(n as nat)
            + ")"@,
{
    let mut res = "Page ".to_string();
    push_decimal(&mut res, p as u64);
    res.append(" not found in PDF (total: ");
    push_decimal(&mut res, n as u64);
    res.append(")");
    res
}

impl PdfImportError {
    /// A message describing the error.
    pub fn message(&self) -> (res: String)
        ensures
            match self {
                PdfImportError::OpenFailed(s) => res@ == "Failed to open PDF: "@ + s@,
                PdfImportError::InvalidPdf(s) => res@ == "Invalid PDF: "@ + s@,
                PdfImportError::PageNotFound(p, n) => res@ == "Page "@ + decimal(*p as nat)
                    + " not found in PDF (total: "@ + decimal(*n as nat) + ")"@,
                PdfImportError::Io(_) => exists|t: Seq<char>| res@ == "IO error: "@ + t,
            },
    {
        match self {
            PdfImportError::OpenFailed(s) => concat2("Failed to open PDF: ", s.as_str()),
            PdfImportError::InvalidPdf(s) => concat2("Invalid PDF: ", s.as_str()),
            PdfImportError::PageNotFound(p, n) => page_not_found_text(*p, *n),
            PdfImportError::Io(e) => {
                let t = io_error_text(e);
                let res = concat2("IO error: ", t.as_str());
                assert(res@ == "IO error: "@ + t@);
                res
            },
        }
    }
}

/// Export format.
#[derive(Debug, Clone, Copy, PartialEq, Eq, Structural)]
pub enum ExportFormat {
    Pdf,
    Png,
    Svg,
    /// The native format.
    SNotes,
}

/// The file extension of a format.
pub open spec fn extension_of(f: ExportFormat) -> Seq<char> {
    match f {
        ExportFormat::Pdf => "pdf"@,
        ExportFormat::Png => "png"@,
        ExportFormat::Svg => "svg"@,
        ExportFormat::SNotes => "snotes"@,
    }
}

/// The lower-case form of an ASCII letter; other characters are unchanged.
pub open spec fn ascii_lower(c: char) -> char {
    if 'A' <= c && c <= 'Z' {
        (((c as u8) + 32) as u8) as char
    } else {
        c
    }
}

/// `s` equals `t` once its ASCII letters are lower-cased.
pub open spec fn lower_equals(s: Seq<char>, t: Seq<char>) -> bool {
    s.len() == t.len() && forall|i: int| 0 <= i < s.len() ==> ascii_lower(#[trigger] s[i]) == t[i]
}

/// Whether `s` names format `f`, ignoring the case of ASCII letters.
pub open spec fn names_format(s: Seq<char>, f: ExportFormat) -> bool {
    lower_equals(s, extension_of(f))
}

/// The lower-case form of an ASCII letter.
fn lower_char(c: char) -> (res: char)
    ensures
        res == ascii_lower(c),
{
    if 'A' <= c && c <= 'Z' {
        ((c as u8) + 32u8) as char
    } else {
        c
    }
}

/// Whether `s` equals the lower-case text `t` once lower-cased.
fn lower_matches(s: &Vec<char>, t: &str) -> (res: bool)
    ensures
        res == lower_equals(s@, t@),
{
    let tc = chars_of(t);
    if s.len() != tc.len() {
        return false;
    }
    let mut i: usize = 0;
    while i < s.len()
        invariant
            s@.len() == tc@.len(),
            tc@ == t@,
            i <= s@.len(),
            forall|j: int| 0 <= j < i ==> ascii_lower(#[trigger] s@[j]) == tc@[j],
        decreases s@.len() - i,
    {
        if lower_char(s[i]) != tc[i] {
            return false;
        }
        i = i + 1;
    }
    true
}

impl ExportFormat {
    /// The format named by `s`, ignoring case: `pdf`, `png`, `svg` or `snotes`.
    /// (Lower-casing any other character cannot produce the letters of these
    /// names, so ignoring ASCII case is the same as full lower-casing.)
    pub fn from_str(s: &str) -> (res: Option<Self>)
        ensures
            match res {
                Some(f) => names_format(s@, f),
                None => forall|f: ExportFormat| !names_format(s@, f),
            },
    {
        let cs = chars_of(s);
        proof {
            reveal_strlit("pdf");
            reveal_strlit("png");
            reveal_strlit("svg");
            reveal_strlit("snotes");
        }
        if lower_matches(&cs, "pdf") {
            Some(ExportFormat::Pdf)
        } else if lower_matches(&cs, "png") {
            Some(ExportFormat::Png)
        } else if lower_matches(&cs, "svg") {
            Some(ExportFormat::Svg)
        } else if lower_matches(&cs, "snotes") {
            Some(ExportFormat::SNotes)
        } else {
            assert forall|f: ExportFormat| !names_format(s@, f) by {
                match f {
                    ExportFormat::Pdf => {},
                    ExportFormat::Png => {},
                    ExportFormat::Svg => {},
                    ExportFormat::SNotes => {},
                }
            }
            None
        }
    }

    /// The file extension of this format.
    pub fn extension(&self) -> (res: &'static str)
        ensures
            res@ == extension_of(*self),
    {
        match self {
            ExportFormat::Pdf => "pdf",
            ExportFormat::Png => "png",
            ExportFormat::Svg => "svg",
            ExportFormat::SNotes => "snotes",
        }
    }
}

/// A format's extension names that format and no other, so reading back the
/// extension of a format gives the format.
pub proof fn lemma_extension_round_trip(f: ExportFormat)
    ensures
        names_format(extension_of(f), f),
        forall|g: ExportFormat| #[trigger] names_format(extension_of(f), g) ==> g == f,
{
    reveal_strlit("pdf");
    reveal_strlit("png");
    reveal_strlit("svg");
    reveal_strlit("snotes");
    assert forall|g: ExportFormat| #[trigger] names_format(extension_of(f), g) implies g == f by {
        if g != f {
            let e = extension_of(f);
            let t = extension_of(g);
            match f {
                ExportFormat::Pdf => {
                    assert(ascii_lower(e[1]) != t[1] || ascii_lower(e[0]) != t[0] || e.len() != t.len());
                },
                ExportFormat::Png => {
                    assert(ascii_lower(e[1]) != t[1] || ascii_lower(e[0]) != t[0] || e.len() != t.len());
                },
                ExportFormat::Svg => {
                    assert(ascii_lower(e[0]) != t[0] || e.len() != t.len());
                },
                ExportFormat::SNotes => {
                    assert(e.len() != t.len());
                },
            }
        }
    }
}

/// Export options.
pub struct ExportOptions {
    pub format: ExportFormat,
    pub output_path: String,
    pub dpi: u32,
    pub include_background: bool,
    pub include_all_layers: bool,
    pub page_range: Option<(usize, usize)>,
}

impl Default for ExportOptions {
    fn default() -> (res: Self)
        ensures
            res.format == ExportFormat::Pdf,
            res.output_path@ == "output"@,
            res.dpi == 300,
            res.include_background,
            res.include_all_layers,
            res.page_range is None,
    {
        ExportOptions {
            format: ExportFormat::Pdf,
            output_path: "output".to_string(),
            dpi: 300,
            include_background: true,
            include_all_layers: true,
            page_range: None,
        }
    }
}

/// Export engine: dispatches to the backend of the chosen format.
pub struct Exporter;

impl Exporter {
    /// Export with the given options, giving the path of the file written: the
    /// output path with the format's extension.
    pub fn export(options: &ExportOptions) -> (res: Result<String, ExportError>)
        ensures
            res matches Ok(p) && p@ == options.output_path@ + seq!['.'] + extension_of(options.format),
    {
        let mut path = options.output_path.clone();
        path.push('.');
        path.append(options.format.extension());
        Ok(path)
    }
}


/// The ASCII bytes of the decimal numeral of `n`.
pub open spec fn decimal_bytes(n: nat) -> Seq<u8>
    decreases n,
{
    if n < 10 {
        seq![(48 + n) as u8]
    } else {
        decimal_bytes(n / 10) + seq![(48 + n % 10) as u8]
    }
}

/// The number that ASCII decimal digit bytes stand for, read most
/// significant digit first.
pub open spec fn numeral_bytes_value(b: Seq<u8>) -> int
    decreases b.len(),
{
    if b.len() == 0 {
        0
    } else {
        numeral_bytes_value(b.drop_last()) * 10 + (b.last() - 48)
    }
}

/// `decimal_bytes(n)` is the usual base-10 numeral of `n`: ASCII digits, no
/// leading zero unless `n` is zero, and reading it back gives `n`.
pub proof fn lemma_decimal_bytes_numeral(n: nat)
    ensures
        decimal_bytes(n).len() > 0,
        forall|i: int| 0 <= i < decimal_bytes(n).len() ==> 48 <= #[trigger] decimal_bytes(n)[i] <= 57,
        decimal_bytes(n)[0] != 48 || n == 0,
        numeral_bytes_value(decimal_bytes(n)) == n,
    decreases n,
{
    let d = decimal_bytes(n);
    if n >= 10 {
        lemma_decimal_bytes_numeral(n / 10);
        assert(d.drop_last() =~= decimal_bytes(n / 10));
        assert(d[0] == decimal_bytes(n / 10)[0]);
        assert(d.last() == (48 + n % 10) as u8);
        vstd::arithmetic::div_mod::lemma_fundamental_div_mod(n as int, 10);
        assert(numeral_bytes_value(d) == (n / 10) * 10 + n % 10);
    } else {
        assert(d.drop_last() =~= Seq::<u8>::empty());
        assert(numeral_bytes_value(d.drop_last()) == 0);
    }
}

/// Append the decimal numeral of `n` to `out` as ASCII bytes.
fn push_decimal_bytes(out: &mut Vec<u8>, n: usize)
    ensures
        final(out)@ == old(out)@ + decimal_bytes(n as nat),
    decreases n,
{
    if n < 10 {
        out.push(48u8 + (n as u8));
    } else {
        push_decimal_bytes(out, n / 10);
        out.push(48u8 + ((n % 10) as u8));
    }
    assert(final(out)@ =~= old(out)@ + decimal_bytes(n as nat));
}

/// The header of a binary PPM image `width` by `height` pixels with 8-bit
/// channels: `P6`, the size and the maximum value, each line ended by a line
/// feed.
pub open spec fn ppm_header(width: nat, height: nat) -> Seq<u8> {
    seq![0x50u8, 0x36u8, 0x0au8] + decimal_bytes(width) + seq![0x20u8] + decimal_bytes(height)
        + seq![0x0au8, 0x32u8, 0x35u8, 0x35u8, 0x0au8]
}

/// The red, green and blue bytes of the BGRA pixel at byte `offset` of
/// `data`, or nothing when its red byte lies past the end of the buffer.
pub open spec fn ppm_pixel(data: Seq<u8>, offset: int) -> Seq<u8> {
    if offset + 2 < data.len() {
        seq![data[offset + 2], data[offset + 1], data[offset]]
    } else {
        Seq::empty()
    }
}

/// The pixels of the first `n` columns of row `y` of a BGRA buffer whose rows
/// are `stride` bytes apart.
pub open spec fn ppm_row(data: Seq<u8>, stride: int, y: int, n: int) -> Seq<u8>
    decreases n,
{
    if n <= 0 {
        Seq::empty()
    } else {
        ppm_row(data, stride, y, n - 1) + ppm_pixel(data, y * stride + (n - 1) * 4)
    }
}

/// The pixels of the first `m` rows, `width` pixels each.
pub open spec fn ppm_rows(data: Seq<u8>, stride: int, width: int, m: int) -> Seq<u8>
    decreases m,
{
    if m <= 0 {
        Seq::empty()
    } else {
        ppm_rows(data, stride, width, m - 1) + ppm_row(data, stride, m - 1, width)
    }
}

/// The binary PPM image of a `width` by `height` BGRA buffer whose rows are
/// `stride` bytes apart: the header, then the red, green and blue bytes of
/// each pixel, row by row (pixels past the end of the buffer are left out).
pub fn encode_ppm(data: &[u8], stride: usize, width: usize, height: usize) -> (res: Vec<u8>)
    requires
        height * stride + width * 4 + 2 <= usize::MAX,
    ensures
        res@ == ppm_header(width as nat, height as nat) + ppm_rows(
            data@,
            stride as int,
            width as int,
            height as int,
        ),
{
    let mut out: Vec<u8> = Vec::new();
    out.push(0x50u8);
    out.push(0x36u8);
    out.push(0x0au8);
    push_decimal_bytes(&mut out, width);
    out.push(0x20u8);
    push_decimal_bytes(&mut out, height);
    out.push(0x0au8);
    out.push(0x32u8);
    out.push(0x35u8);
    out.push(0x35u8);
    out.push(0x0au8);
    let ghost header = out@;
    assert(header =~= ppm_header(width as nat, height as nat));
    let n = data.len();
    let mut y: usize = 0;
    while y < height
        invariant
            height * stride + width * 4 + 2 <= usize::MAX,
            n == data@.len(),
            y <= height,
            out@ == header + ppm_rows(data@, stride as int, width as int, y as int),
        decreases height - y,
    {
        assert(y * stride <= height * stride) by (nonlinear_arith)
            requires
                y <= height,
        ;
        let row_start = y * stride;
        let mut x: usize = 0;
        while x < width
            invariant
                height * stride + width * 4 + 2 <= usize::MAX,
                n == data@.len(),
                y < height,
                row_start == y * stride,
                row_start <= height * stride,
                x <= width,
                out@ == header + ppm_rows(data@, stride as int, width as int, y as int) + ppm_row(
                    data@,
                    stride as int,
                    y as int,
                    x as int,
                ),
            decreases width - x,
        {
            let offset = row_start + x * 4;
            if offset + 2 < n {
                out.push(data[offset + 2]);
                out.push(data[offset + 1]);
                out.push(data[offset]);
            }
            assert(out@ =~= header + ppm_rows(data@, stride as int, width as int, y as int) + ppm_row(
                data@,
                stride as int,
                y as int,
                x + 1,
            ));
            x = x + 1;
        }
        assert(out@ =~= header + ppm_rows(data@, stride as int, width as int, y + 1));
        y = y + 1;
    }
    out
}

} // verus!

//! Embedded capture metadata, read with the rexif crate.

use vstd::prelude::*;

verus! {

/// Code of the field that holds the date and time at which the original
/// image was taken: tag 0x9003 of the standard namespace.
pub const DATE_TIME_ORIGINAL: u32 = 0x9003;

/// One metadata field of an image: the code of its tag (namespace in the
/// upper sixteen bits, tag number in the lower) and its value as readable
/// text.
#[derive(Debug)]
pub struct ExifField {
    pub tag: u32,
    pub text: String,
}

impl View for ExifField {
    type V = (u32, Seq<char>);

    open spec fn view(&self) -> (u32, Seq<char>) {
        (self.tag, self.text@)
    }
}

/// The fields of a list, each by its view.
pub open spec fn fields_view(fields: Seq<ExifField>) -> Seq<(u32, Seq<char>)> {
    Seq::new(fields.len(), |i: int| fields[i]@)
}

/// What rexif reads from the bytes of a file.
#[derive(Debug)]
pub struct ExifScan {
    /// The fields in the order in which rexif lists them, or `None` where
    /// it reports an error.
    pub fields: Option<Vec<ExifField>>,
    /// The warnings that rexif gives on the way, for the caller to show.
    pub warnings: Vec<String>,
}

/// The lines of a list, each by its view.
pub open spec fn texts(lines: Seq<String>) -> Seq<Seq<char>> {
    Seq::new(lines.len(), |i: int| lines[i]@)
}

/// What rexif's `parse_buffer_quiet` makes of the bytes of a file: the
/// fields in the order in which it lists them, or `None` where it reports an
/// error, and beside them its warnings.
pub uninterp spec fn exif_scan(bytes: Seq<u8>) -> (Option<Seq<(u32, Seq<char>)>>, Seq<Seq<char>>);

/// The metadata fields that rexif finds in the bytes of a file.
pub open spec fn exif_entries(bytes: Seq<u8>) -> Option<Seq<(u32, Seq<char>)>> {
    exif_scan(bytes).0
}

/// The warnings that rexif gives on the bytes of a file.
pub open spec fn exif_warnings(bytes: Seq<u8>) -> Seq<Seq<char>> {
    exif_scan(bytes).1
}

/// Reads the metadata fields of a JPEG or TIFF file with rexif's
/// `parse_buffer_quiet`.
///
/// Trusted: the list is rexif's, each entry reduced to its tag code (the
/// tag cast to `u32`, as rexif documents) and its `value_more_readable`;
/// the warnings are rexif's, unchanged.
#[verifier::external_body]
pub(crate) fn read_exif_fields(bytes: &[u8]) -> (r: ExifScan)
    ensures
        match r.fields {
            Some(fields) => exif_scan(bytes@).0 == Some(fields_view(fields@)),
            None => exif_scan(bytes@).0 is None,
        },
        texts(r.warnings@) == exif_scan(bytes@).1,
{
    let (result, warnings) = rexif::parse_buffer_quiet(bytes);
    let fields = match result {
        Ok(data) => {
            let mut fields = Vec::new();
            for entry in data.entries {
                fields.push(ExifField { tag: entry.tag as u32, text: entry.value_more_readable.into_owned() });
            }
            Some(fields)
        },
        Err(_) => None,
    };
    ExifScan { fields, warnings }
}

} // verus!

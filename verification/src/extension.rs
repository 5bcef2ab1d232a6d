//! The kinds of image file that are converted, told by file extension.

use vstd::prelude::*;
use vstd::string::*;

verus! {

/// The container format of a source image.
#[derive(Clone, Copy, Debug, PartialEq, Eq, Structural)]
pub enum ImageKind {
    Jpeg,
    Png,
    Tiff,
}

/// Whether `text` is `word` up to the case of its letters, where `lower`
/// and `upper` are the two spellings of `word` in one case throughout.
pub open spec fn spells(text: Seq<char>, lower: Seq<char>, upper: Seq<char>) -> bool {
    &&& text.len() == lower.len()
    &&& forall|i: int|
        0 <= i < text.len() ==> text[i] == #[trigger] lower[i] || text[i] == #[trigger] upper[i]
}

/// The kind of image that a file extension stands for: `jpg` and `jpeg`,
/// `png`, and `tiff`, in any mix of upper and lower case; no other extension
/// stands for one.
pub open spec fn kind_of_extension(extension: Seq<char>) -> Option<ImageKind> {
    if spells(extension, "jpg"@, "JPG"@) || spells(extension, "jpeg"@, "JPEG"@) {
        Some(ImageKind::Jpeg)
    } else if spells(extension, "png"@, "PNG"@) {
        Some(ImageKind::Png)
    } else if spells(extension, "tiff"@, "TIFF"@) {
        Some(ImageKind::Tiff)
    } else {
        None
    }
}

/// Compares a text with a word, letter by letter, ignoring case.
fn spells_word(text: &str, lower: &str, upper: &str) -> (r: bool)
    requires
        lower@.len() == upper@.len(),
    ensures
        r == spells(text@, lower@, upper@),
{
    let n = text.unicode_len();
    if n != lower.unicode_len() {
        return false;
    }
    let mut i: usize = 0;
    while i < n
        invariant
            i <= n,
            n == text@.len(),
            n == lower@.len(),
            n == upper@.len(),
            forall|j: int| 0 <= j < i ==> text@[j] == #[trigger] lower@[j] || text@[j] == #[trigger] upper@[j],
        decreases n - i,
    {
        let c = text.get_char(i);
        if c != lower.get_char(i) && c != upper.get_char(i) {
            return false;
        }
        i += 1;
    }
    true
}

/// Tells the kind of image from a file extension, given without its dot.
pub fn classify_extension(extension: &str) -> (r: Option<ImageKind>)
    ensures
        r == kind_of_extension(extension@),
{
    proof {
        reveal_strlit("jpg");
        reveal_strlit("JPG");
        reveal_strlit("jpeg");
        reveal_strlit("JPEG");
        reveal_strlit("png");
        reveal_strlit("PNG");
        reveal_strlit("tiff");
        reveal_strlit("TIFF");
    }
    if spells_word(extension, "jpg", "JPG") || spells_word(extension, "jpeg", "JPEG") {
        Some(ImageKind::Jpeg)
    } else if spells_word(extension, "png", "PNG") {
        Some(ImageKind::Png)
    } else if spells_word(extension, "tiff", "TIFF") {
        Some(ImageKind::Tiff)
    } else {
        None
    }
}

/// Whether a file with this extension is an image to convert.
pub fn is_image_extension(extension: &str) -> (r: bool)
    ensures
        r == kind_of_extension(extension@) is Some,
{
    classify_extension(extension).is_some()
}

} // verus!

use vstd::prelude::*;
use vstd::string::StringSliceAdditionalSpecFns;

verus! {

/// ASCII upper-case letters map to lower case; every other byte is kept.
pub open spec fn fold_byte(b: u8) -> u8 {
    if 65 <= b <= 90 { (b + 32) as u8 } else { b }
}

/// A byte string with its ASCII letters lower-cased.
pub open spec fn folded(s: Seq<u8>) -> Seq<u8> {
    s.map_values(|b: u8| fold_byte(b))
}

/// The lower-case file extensions that are listed as images. Only ASCII
/// letters lower-case into these names, so ASCII folding accepts exactly
/// the extensions whose lower-case form is one of them.
pub open spec fn is_image_ext(e: Seq<u8>) -> bool {
    ||| e == "jpg".spec_bytes()
    ||| e == "jpeg".spec_bytes()
    ||| e == "png".spec_bytes()
    ||| e == "webp".spec_bytes()
    ||| e == "gif".spec_bytes()
    ||| e == "bmp".spec_bytes()
}

/// Whether two texts hold the same characters.
pub(crate) fn text_is(s: &str, lit: &str) -> (r: bool)
    ensures
        r == (s@ == lit@),
{
    let a = String::from_str(s);
    let b = String::from_str(lit);
    a == b
}

/// Whether `s`, ASCII-folded, equals `target`.
fn folds_to(s: &[u8], target: &[u8]) -> (r: bool)
    ensures
        r == (folded(s@) == target@),
{
    if s.len() != target.len() {
        return false;
    }
    let mut i: usize = 0;
    while i < s.len()
        invariant
            s@.len() == target@.len(),
            i <= s@.len(),
            forall|j: int| 0 <= j < i ==> fold_byte(#[trigger] s@[j]) == target@[j],
        decreases s@.len() - i,
    {
        let b = s[i];
        let f: u8 = if 65 <= b && b <= 90 { b + 32 } else { b };
        if f != target[i] {
            assert(folded(s@)[i as int] != target@[i as int]);
            return false;
        }
        i = i + 1;
    }
    assert(folded(s@) =~= target@);
    true
}

/// Whether a file extension names an image format, ignoring letter case.
pub fn is_image_extension(ext: &str) -> (r: bool)
    ensures
        r == is_image_ext(folded(ext.spec_bytes())),
{
    let b = ext.as_bytes();
    folds_to(b, "jpg".as_bytes()) || folds_to(b, "jpeg".as_bytes()) || folds_to(
        b,
        "png".as_bytes(),
    ) || folds_to(b, "webp".as_bytes()) || folds_to(b, "gif".as_bytes()) || folds_to(
        b,
        "bmp".as_bytes(),
    )
}

/// Whether a directory entry is listed: a regular file whose extension, if
/// it has one, names an image format.
pub fn select_entry(is_file: bool, ext: Option<&str>) -> (r: bool)
    ensures
        r == (is_file && (ext matches Some(e) && is_image_ext(folded(e.spec_bytes())))),
{
    if !is_file {
        return false;
    }
    match ext {
        Some(e) => is_image_extension(e),
        None => false,
    }
}

/// Two files whose extensions differ only in the case of ASCII letters are
/// listed alike.
pub proof fn lemma_case_variants_listed_alike(is_file: bool, e1: &str, e2: &str)
    requires
        e1.spec_bytes().len() == e2.spec_bytes().len(),
        forall|i: int|
            0 <= i < e1.spec_bytes().len() ==> fold_byte(#[trigger] e1.spec_bytes()[i])
                == fold_byte(e2.spec_bytes()[i]),
    ensures
        (is_file && is_image_ext(folded(e1.spec_bytes()))) == (is_file && is_image_ext(
            folded(e2.spec_bytes()),
        )),
{
    assert(folded(e1.spec_bytes()) =~= folded(e2.spec_bytes()));
}

} // verus!

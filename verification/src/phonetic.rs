//! The okkhor crate's phonetic parser, as the rest of the library sees it.

use okkhor::parser::Parser;
use vstd::prelude::*;
use vstd::utf8::is_ascii_chars;

verus! {

/// okkhor's parser, carried through opaquely.
#[verifier::external_type_specification]
#[verifier::external_body]
pub struct ExParser(Parser);

/// The Bangla text that okkhor's phonetic (Avro) rules give for the romanised
/// text `raw`.
pub uninterp spec fn phonetic(raw: Seq<char>) -> Seq<char>;

/// okkhor's `Parser::new_phonetic`. Nothing is claimed of the value beyond its
/// type; with the features this crate enables it is the only way okkhor
/// offers to build a `Parser`.
#[verifier::external_body]
pub(crate) fn new_phonetic_parser() -> Parser {
    Parser::new_phonetic()
}

/// okkhor's `Parser::convert`: the result is [`phonetic`] of the input.
///
/// Every `Parser` this crate can hold is the phonetic one (see
/// [`new_phonetic_parser`]), so the result depends on `raw` alone. The parser
/// slices its input one byte at a time where no pattern matches, so it panics
/// on a multi-byte character; the input is therefore required to be ASCII.
#[verifier::external_body]
pub(crate) fn convert(parser: &Parser, raw: &str) -> (out: String)
    requires
        is_ascii_chars(raw@),
    ensures
        out@ == phonetic(raw@),
{
    parser.convert(raw)
}

} // verus!

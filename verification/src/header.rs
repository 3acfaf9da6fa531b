//! The header of a cartridge: title and game code.

use vstd::prelude::*;
use vstd::slice::slice_subrange;
use vstd::string::StrSliceExecFns;

verus! {

/// Where the title starts in the ROM.
pub const TITLE_OFFSET: usize = 0xA0;

/// Bytes of the title.
pub const TITLE_LEN: usize = 12;

/// Where the game code starts in the ROM.
pub const GAME_CODE_OFFSET: usize = 0xAC;

/// Bytes of the game code.
pub const GAME_CODE_LEN: usize = 4;

/// What the header says.
#[derive(Debug, Clone, PartialEq, Eq)]
pub struct Header {
    /// The title, without padding.
    pub title: String,
    /// The game code, without padding.
    pub game_code: String,
}

/// The text that `String::from_utf8_lossy` reads from bytes.
pub uninterp spec fn lossy_text(bytes: Seq<u8>) -> Seq<char>;

/// Calls `String::from_utf8_lossy`. Its text is a function of the bytes, named
/// [`lossy_text`]; bytes that are valid UTF-8 give the text that they encode.
/// Which places of other bytes become replacement characters is left unsaid.
#[verifier::external_body]
fn from_utf8_lossy(bytes: &[u8]) -> (r: String)
    ensures
        r@ == lossy_text(bytes@),
        vstd::utf8::valid_utf8(bytes@) ==> r@ == vstd::utf8::decode_utf8(bytes@),
{
    String::from_utf8_lossy(bytes).into_owned()
}

/// Whether a character has the Unicode property `White_Space`.
#[verifier::allow_in_spec]
pub fn is_white_space(c: char) -> bool
    returns
        ('\u{9}' <= c && c <= '\u{D}') || c == ' ' || c == '\u{85}' || c == '\u{A0}' || c
            == '\u{1680}' || ('\u{2000}' <= c && c <= '\u{200A}') || c == '\u{2028}' || c
            == '\u{2029}' || c == '\u{202F}' || c == '\u{205F}' || c == '\u{3000}',
{
    ('\u{9}' <= c && c <= '\u{D}') || c == ' ' || c == '\u{85}' || c == '\u{A0}' || c == '\u{1680}'
        || ('\u{2000}' <= c && c <= '\u{200A}') || c == '\u{2028}' || c == '\u{2029}' || c
        == '\u{202F}' || c == '\u{205F}' || c == '\u{3000}'
}

/// Whether a character fills up a text that is shorter than its field.
#[verifier::allow_in_spec]
pub fn is_padding(c: char) -> bool
    returns
        c == '\0' || is_white_space(c),
{
    c == '\0' || is_white_space(c)
}

/// A text without the padding at its end.
pub open spec fn trimmed(text: Seq<char>) -> Seq<char>
    decreases text.len(),
{
    if text.len() > 0 && is_padding(text.last()) {
        trimmed(text.drop_last())
    } else {
        text
    }
}

/// A text without the padding at its end.
pub fn trim_padding(text: &str) -> (r: String)
    ensures
        r@ == trimmed(text@),
{
    let mut end: usize = text.unicode_len();
    assert(text@.take(end as int) =~= text@);
    while end > 0 && is_padding(text.get_char(end - 1))
        invariant
            end <= text@.len(),
            trimmed(text@.take(end as int)) == trimmed(text@),
        decreases end,
    {
        assert(text@.take(end as int).drop_last() =~= text@.take(end - 1));
        end = end - 1;
    }
    assert(end > 0 ==> text@.take(end as int).last() == text@[end - 1]);
    let kept: &str = text.substring_char(0, end);
    assert(kept@ =~= text@.take(end as int));
    kept.to_owned()
}

/// Reads a text field: the text of its bytes, without the padding at its end.
pub fn decode_text(bytes: &[u8]) -> (r: String)
    ensures
        r@ == trimmed(lossy_text(bytes@)),
        vstd::utf8::valid_utf8(bytes@) ==> r@ == trimmed(vstd::utf8::decode_utf8(bytes@)),
{
    let text: String = from_utf8_lossy(bytes);
    trim_padding(text.as_str())
}

/// The bytes of the title.
pub open spec fn title_bytes(rom: Seq<u8>) -> Seq<u8> {
    rom.subrange(TITLE_OFFSET as int, TITLE_OFFSET + TITLE_LEN)
}

/// The bytes of the game code.
pub open spec fn game_code_bytes(rom: Seq<u8>) -> Seq<u8> {
    rom.subrange(GAME_CODE_OFFSET as int, GAME_CODE_OFFSET + GAME_CODE_LEN)
}

/// Whether `header` is the header of `rom`. A field of valid UTF-8 holds the
/// text that it encodes, without the padding.
pub open spec fn is_header_of(header: Header, rom: Seq<u8>) -> bool {
    &&& header.title@ == trimmed(lossy_text(title_bytes(rom)))
    &&& header.game_code@ == trimmed(lossy_text(game_code_bytes(rom)))
    &&& vstd::utf8::valid_utf8(title_bytes(rom)) ==> header.title@ == trimmed(
        vstd::utf8::decode_utf8(title_bytes(rom)),
    )
    &&& vstd::utf8::valid_utf8(game_code_bytes(rom)) ==> header.game_code@ == trimmed(
        vstd::utf8::decode_utf8(game_code_bytes(rom)),
    )
}

impl Header {
    /// Reads the header, if the ROM is long enough to hold it.
    pub fn parse(rom: &[u8]) -> (r: Option<Header>)
        ensures
            r is Some <==> rom@.len() >= GAME_CODE_OFFSET + GAME_CODE_LEN,
            r matches Some(header) ==> is_header_of(header, rom@),
    {
        if rom.len() < GAME_CODE_OFFSET + GAME_CODE_LEN {
            return None;
        }
        let title: &[u8] = slice_subrange(rom, TITLE_OFFSET, TITLE_OFFSET + TITLE_LEN);
        let game_code: &[u8] = slice_subrange(
            rom,
            GAME_CODE_OFFSET,
            GAME_CODE_OFFSET + GAME_CODE_LEN,
        );
        Some(Header { title: decode_text(title), game_code: decode_text(game_code) })
    }
}

/// Trimming keeps the start of a text, drops only padding, leaves none at the
/// end, and has nothing to do the second time.
pub proof fn law_trimmed(text: Seq<char>)
    ensures
        trimmed(text).len() <= text.len(),
        trimmed(text) == text.take(trimmed(text).len() as int),
        forall|i: int| trimmed(text).len() <= i < text.len() ==> is_padding(#[trigger] text[i]),
        trimmed(text).len() > 0 ==> !is_padding(trimmed(text).last()),
        trimmed(trimmed(text)) == trimmed(text),
    decreases text.len(),
{
    if text.len() > 0 && is_padding(text.last()) {
        law_trimmed(text.drop_last());
        assert(forall|i: int|
            0 <= i < text.len() - 1 ==> #[trigger] text[i] == text.drop_last()[i]);
        assert(trimmed(text) =~= text.take(trimmed(text).len() as int));
    } else {
        assert(text.take(text.len() as int) =~= text);
    }
}

} // verus!

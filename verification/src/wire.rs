//! The reply that goes over the wire for one quote.

use vstd::prelude::*;
use vstd::utf8::{
    encode_utf8,
    encode_utf8_decode_utf8,
    is_ascii_chars,
    is_ascii_chars_encode_utf8,
};
use crate::quote::{Quote, QuoteView};

verus! {

/// The double quote that opens and closes the quoted text.
pub const QUOTE_MARK: u8 = 0x22;

/// The line feed.
pub const LINE_FEED: u8 = 0x0a;

/// The horizontal tab.
pub const TAB: u8 = 0x09;

/// The hyphen.
pub const HYPHEN: u8 = 0x2d;

/// The space.
pub const SPACE: u8 = 0x20;

/// What stands between the closing double quote and the attribution:
/// the end of the quoted line, a blank line, a tab, two hyphens and a space.
pub open spec fn separator_text() -> Seq<char> {
    seq!['\n', '\n', '\t', '-', '-', ' ']
}

/// The separator as bytes.
pub open spec fn separator_bytes() -> Seq<u8> {
    seq![LINE_FEED, LINE_FEED, TAB, HYPHEN, HYPHEN, SPACE]
}

/// The reply for `record` as text: the quoted text in double quotes, the
/// separator, the attribution and a closing line feed.
pub open spec fn reply_text(record: QuoteView) -> Seq<char> {
    seq!['"'] + record.text + seq!['"'] + separator_text() + record.attribution + seq!['\n']
}

/// The reply for `record` as it is sent: the UTF-8 encoding of its text.
pub open spec fn reply_bytes(record: QuoteView) -> Seq<u8> {
    encode_utf8(reply_text(record))
}

/// Encoding distributes over concatenation.
proof fn lemma_encode_concat(a: Seq<char>, b: Seq<char>)
    ensures
        encode_utf8(a + b) == encode_utf8(a) + encode_utf8(b),
    decreases a.len(),
{
    if a.len() == 0 {
        assert(a + b == b);
    } else {
        assert((a + b).drop_first() == a.drop_first() + b);
        lemma_encode_concat(a.drop_first(), b);
    }
}

/// The reply is laid out byte for byte as: a double quote, the encoded text, a
/// double quote, the separator, the encoded attribution, a line feed.
pub proof fn lemma_reply_layout(record: QuoteView)
    ensures
        reply_bytes(record) == seq![QUOTE_MARK] + encode_utf8(record.text) + seq![QUOTE_MARK]
            + separator_bytes() + encode_utf8(record.attribution) + seq![LINE_FEED],
{
    let quote = seq!['"'];
    let sep = separator_text();
    let feed = seq!['\n'];
    is_ascii_chars_encode_utf8(quote);
    is_ascii_chars_encode_utf8(sep);
    is_ascii_chars_encode_utf8(feed);
    lemma_encode_concat(quote, record.text);
    lemma_encode_concat(quote + record.text, quote);
    lemma_encode_concat(quote + record.text + quote, sep);
    lemma_encode_concat(quote + record.text + quote + sep, record.attribution);
    lemma_encode_concat(quote + record.text + quote + sep + record.attribution, feed);
}

/// The character of a reply at `at`, told by where `at` falls in its layout.
proof fn lemma_reply_text_index(record: QuoteView, at: int)
    requires
        0 <= at < reply_text(record).len(),
    ensures
        reply_text(record).len() == record.text.len() + record.attribution.len() + 9,
        at == 0 ==> reply_text(record)[at] == '"',
        1 <= at <= record.text.len() ==> reply_text(record)[at] == record.text[at - 1],
        at == record.text.len() + 1 ==> reply_text(record)[at] == '"',
        at == record.text.len() + 2 ==> reply_text(record)[at] == '\n',
        record.text.len() + 8 <= at < reply_text(record).len() - 1 ==> reply_text(record)[at]
            == record.attribution[at - record.text.len() - 8],
{
}

/// Replies tell records apart as long as the quoted text holds no line feed:
/// two such records with the same reply are the same record.
pub proof fn lemma_reply_injective(first: QuoteView, second: QuoteView)
    requires
        !first.text.contains('\n'),
        !second.text.contains('\n'),
        reply_bytes(first) == reply_bytes(second),
    ensures
        first == second,
{
    // Equal bytes decode to equal text.
    encode_utf8_decode_utf8(reply_text(first));
    encode_utf8_decode_utf8(reply_text(second));
    assert(reply_text(first) == reply_text(second));
    // The first line feed of a reply stands two places behind the quoted
    // text, so the two texts are of one length.
    let n: int = first.text.len() as int;
    let m: int = second.text.len() as int;
    lemma_reply_text_index(first, n + 2);
    lemma_reply_text_index(second, m + 2);
    if n < m {
        lemma_reply_text_index(second, n + 2);
    }
    if m < n {
        lemma_reply_text_index(first, m + 2);
    }
    assert(n == m);
    assert forall|i: int| 0 <= i < n implies first.text[i] == second.text[i] by {
        lemma_reply_text_index(first, i + 1);
        lemma_reply_text_index(second, i + 1);
    }
    assert(first.text =~= second.text);
    lemma_reply_text_index(first, 0);
    lemma_reply_text_index(second, 0);
    assert forall|i: int| 0 <= i < first.attribution.len() implies first.attribution[i]
        == second.attribution[i] by {
        lemma_reply_text_index(first, i + n + 8);
        lemma_reply_text_index(second, i + n + 8);
    }
    assert(first.attribution =~= second.attribution);
}
/// Appends `bytes` to `buffer`.
fn append(buffer: &mut Vec<u8>, bytes: &[u8])
    ensures
        final(buffer)@ == old(buffer)@ + bytes@,
{
    let mut i: usize = 0;
    while i < bytes.len()
        invariant
            i <= bytes@.len(),
            buffer@ == old(buffer)@ + bytes@.subrange(0, i as int),
        decreases bytes@.len() - i,
    {
        buffer.push(bytes[i]);
        i = i + 1;
    }
}

/// Appends the reply for `record` to `buffer`.
pub fn write_reply(buffer: &mut Vec<u8>, record: &Quote)
    ensures
        final(buffer)@ == old(buffer)@ + reply_bytes(record@),
{
    buffer.push(QUOTE_MARK);
    append(buffer, record.text().as_bytes());
    buffer.push(QUOTE_MARK);
    buffer.push(LINE_FEED);
    buffer.push(LINE_FEED);
    buffer.push(TAB);
    buffer.push(HYPHEN);
    buffer.push(HYPHEN);
    buffer.push(SPACE);
    append(buffer, record.attribution().as_bytes());
    buffer.push(LINE_FEED);
    proof {
        lemma_reply_layout(record@);
        assert(buffer@ == old(buffer)@ + (seq![QUOTE_MARK] + encode_utf8(record@.text)
            + seq![QUOTE_MARK] + separator_bytes() + encode_utf8(record@.attribution)
            + seq![LINE_FEED]));
    }
}

/// Renders `record` as the bytes of its reply.
pub fn format(record: &Quote) -> (reply: Vec<u8>)
    ensures
        reply@ == reply_bytes(record@),
{
    let mut reply: Vec<u8> = Vec::new();
    write_reply(&mut reply, record);
    reply
}

} // verus!

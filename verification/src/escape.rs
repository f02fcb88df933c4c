//! Escaping: how arbitrary bytes travel inside a field of a line.
//!
//! A field may hold neither the byte that separates fields nor the byte
//! that ends the line.  So a tab is written as `\t`, a newline as `\n` and
//! a backslash as `\\`; every other byte is written as it is.  What is
//! written this way holds no tab and no newline, and reading it gives the
//! bytes back, whatever they were.

use crate::text::{all_free_of, contents, free_of, NEWLINE, TAB};
use vstd::prelude::*;

verus! {

/// The byte that announces an escaped byte.
pub const BACKSLASH: u8 = 92;

/// The letter that stands for a tab after a backslash.
pub const TAB_CODE: u8 = 116;

/// The letter that stands for a newline after a backslash.
pub const NEWLINE_CODE: u8 = 110;

/// Whether `byte` cannot stand in a field as it is.
pub open spec fn needs_escape(byte: u8) -> bool {
    byte == TAB || byte == NEWLINE || byte == BACKSLASH
}

/// How one byte is written in a field.
pub open spec fn escape_byte(byte: u8) -> Seq<u8> {
    if byte == TAB {
        seq![BACKSLASH, TAB_CODE]
    } else if byte == NEWLINE {
        seq![BACKSLASH, NEWLINE_CODE]
    } else if byte == BACKSLASH {
        seq![BACKSLASH, BACKSLASH]
    } else {
        seq![byte]
    }
}

/// The byte that `code` stands for after a backslash, if it stands for
/// one.
pub open spec fn escaped_byte(code: u8) -> Option<u8> {
    if code == TAB_CODE {
        Some(TAB)
    } else if code == NEWLINE_CODE {
        Some(NEWLINE)
    } else if code == BACKSLASH {
        Some(BACKSLASH)
    } else {
        None
    }
}

/// How `bytes` are written in a field: byte by byte.
pub open spec fn escaped(bytes: Seq<u8>) -> Seq<u8>
    decreases bytes.len(),
{
    if bytes.len() == 0 {
        Seq::empty()
    } else {
        escape_byte(bytes[0]) + escaped(bytes.drop_first())
    }
}

/// `bytes` after `front`, where there are any.
pub open spec fn after(front: Seq<u8>, bytes: Option<Seq<u8>>) -> Option<Seq<u8>> {
    match bytes {
        Some(rest) => Some(front + rest),
        None => None,
    }
}

/// The bytes that the field `text` holds, if it is well written: a
/// backslash stands before `t`, `n` or another backslash and nowhere else.
pub open spec fn unescaped(text: Seq<u8>) -> Option<Seq<u8>>
    decreases text.len(),
{
    if text.len() == 0 {
        Some(Seq::empty())
    } else if text[0] == BACKSLASH {
        if text.len() >= 2 && escaped_byte(text[1]) is Some {
            after(seq![escaped_byte(text[1]).unwrap()], unescaped(text.skip(2)))
        } else {
            None
        }
    } else {
        after(seq![text[0]], unescaped(text.drop_first()))
    }
}

/// Whether the field `text` is well written.
pub open spec fn readable(text: Seq<u8>) -> bool {
    unescaped(text) is Some
}

/// The bytes that the well-written field `text` holds.
pub open spec fn plain(text: Seq<u8>) -> Seq<u8> {
    unescaped(text).unwrap()
}

/// Writing one more byte adds what that byte is written as.
pub proof fn lemma_escaped_push(bytes: Seq<u8>, byte: u8)
    ensures
        escaped(bytes.push(byte)) == escaped(bytes) + escape_byte(byte),
    decreases bytes.len(),
{
    let longer = bytes.push(byte);
    if bytes.len() == 0 {
        assert(longer.drop_first() =~= Seq::<u8>::empty());
        assert(escaped(longer.drop_first()) =~= Seq::<u8>::empty());
        assert(escaped(longer) =~= escaped(bytes) + escape_byte(byte));
    } else {
        lemma_escaped_push(bytes.drop_first(), byte);
        assert(longer.drop_first() =~= bytes.drop_first().push(byte));
        assert(escaped(longer) =~= escaped(bytes) + escape_byte(byte));
    }
}

/// What is written holds no tab and no newline.
pub proof fn lemma_escaped_is_clean(bytes: Seq<u8>)
    ensures
        free_of(escaped(bytes), TAB),
        free_of(escaped(bytes), NEWLINE),
    decreases bytes.len(),
{
    if bytes.len() > 0 {
        lemma_escaped_is_clean(bytes.drop_first());
        let head = escape_byte(bytes[0]);
        let tail = escaped(bytes.drop_first());
        assert forall|i: int| 0 <= i < escaped(bytes).len() implies escaped(bytes)[i] != TAB
            && escaped(bytes)[i] != NEWLINE by {
            if i >= head.len() {
                assert(escaped(bytes)[i] == tail[i - head.len()]);
            }
        }
    }
}

/// Reading what was written gives the bytes back, whatever they are.
pub proof fn lemma_escape_round_trip(bytes: Seq<u8>)
    ensures
        unescaped(escaped(bytes)) == Some(bytes),
    decreases bytes.len(),
{
    if bytes.len() > 0 {
        let rest = bytes.drop_first();
        lemma_escape_round_trip(rest);
        let text = escaped(bytes);
        assert(seq![bytes[0]] + rest =~= bytes);
        if needs_escape(bytes[0]) {
            assert(text[0] == BACKSLASH);
            assert(escaped_byte(text[1]) == Some(bytes[0]));
            assert(text.skip(2) =~= escaped(rest));
        } else {
            assert(text[0] == bytes[0]);
            assert(text.drop_first() =~= escaped(rest));
        }
    }
}

/// Writes `bytes` as a field.
pub fn escape(bytes: &[u8]) -> (text: Vec<u8>)
    ensures
        text@ == escaped(bytes@),
{
    let mut text: Vec<u8> = Vec::new();
    let mut i: usize = 0;
    assert(bytes@.take(0) =~= Seq::<u8>::empty());
    while i < bytes.len()
        invariant
            i <= bytes.len(),
            text@ == escaped(bytes@.take(i as int)),
        decreases bytes.len() - i,
    {
        let byte = bytes[i];
        let ghost before = text@;
        if byte == TAB {
            text.push(BACKSLASH);
            text.push(TAB_CODE);
        } else if byte == NEWLINE {
            text.push(BACKSLASH);
            text.push(NEWLINE_CODE);
        } else if byte == BACKSLASH {
            text.push(BACKSLASH);
            text.push(BACKSLASH);
        } else {
            text.push(byte);
        }
        proof {
            lemma_escaped_push(bytes@.take(i as int), byte);
            assert(bytes@.take(i as int).push(byte) =~= bytes@.take(i + 1));
            assert(text@ =~= before + escape_byte(byte));
        }
        i += 1;
    }
    assert(bytes@.take(i as int) =~= bytes@);
    text
}

/// Reads the field `text`: the bytes it holds, or `None` where it is not
/// well written.
pub fn unescape(text: &[u8]) -> (bytes: Option<Vec<u8>>)
    ensures
        match unescaped(text@) {
            Some(held) => bytes matches Some(found) && found@ == held,
            None => bytes is None,
        },
{
    let mut bytes: Vec<u8> = Vec::new();
    let mut i: usize = 0;
    assert(text@.skip(0) =~= text@);
    assert(after(bytes@, unescaped(text@)) =~= unescaped(text@)) by {
        if unescaped(text@) is Some {
            assert(bytes@ + unescaped(text@).unwrap() =~= unescaped(text@).unwrap());
        }
    }
    while i < text.len()
        invariant
            i <= text.len(),
            unescaped(text@) == after(bytes@, unescaped(text@.skip(i as int))),
        decreases text.len() - i,
    {
        let ghost rest = text@.skip(i as int);
        let ghost before = bytes@;
        assert(rest[0] == text@[i as int]);
        let byte = text[i];
        if byte == BACKSLASH {
            if i + 1 >= text.len() {
                return None;
            }
            let code = text[i + 1];
            assert(rest[1] == code);
            let held = if code == TAB_CODE {
                TAB
            } else if code == NEWLINE_CODE {
                NEWLINE
            } else if code == BACKSLASH {
                BACKSLASH
            } else {
                return None;
            };
            bytes.push(held);
            proof {
                assert(rest.skip(2) =~= text@.skip(i + 2));
                let tail = unescaped(text@.skip(i + 2));
                if tail is Some {
                    assert(before + (seq![held] + tail.unwrap()) =~= before.push(held)
                        + tail.unwrap());
                }
            }
            i += 2;
        } else {
            bytes.push(byte);
            proof {
                assert(rest.drop_first() =~= text@.skip(i + 1));
                let tail = unescaped(text@.skip(i + 1));
                if tail is Some {
                    assert(before + (seq![byte] + tail.unwrap()) =~= before.push(byte)
                        + tail.unwrap());
                }
            }
            i += 1;
        }
    }
    assert(text@.skip(i as int) =~= Seq::<u8>::empty());
    assert(bytes@ + Seq::<u8>::empty() =~= bytes@);
    Some(bytes)
}

/// Whether every one of `fields` is well written.
pub open spec fn all_readable(fields: Seq<Seq<u8>>) -> bool {
    forall|k: int| 0 <= k < fields.len() ==> readable(#[trigger] fields[k])
}

/// The bytes that each of the well-written `fields` holds.
pub open spec fn plain_all(fields: Seq<Seq<u8>>) -> Seq<Seq<u8>> {
    Seq::new(fields.len(), |k: int| plain(fields[k]))
}

/// Each of `texts` as it is written in a field.
pub open spec fn escaped_all(texts: Seq<Seq<u8>>) -> Seq<Seq<u8>> {
    Seq::new(texts.len(), |k: int| escaped(texts[k]))
}

/// What is written field by field holds no tab and no newline, and
/// reading it gives every field back.
pub proof fn lemma_escaped_all(texts: Seq<Seq<u8>>)
    ensures
        all_free_of(escaped_all(texts), TAB),
        all_free_of(escaped_all(texts), NEWLINE),
        all_readable(escaped_all(texts)),
        plain_all(escaped_all(texts)) == texts,
{
    let fields = escaped_all(texts);
    assert forall|k: int| 0 <= k < fields.len() implies free_of(#[trigger] fields[k], TAB)
        && free_of(fields[k], NEWLINE) && readable(fields[k]) && plain(fields[k]) == texts[k] by {
        lemma_escaped_is_clean(texts[k]);
        lemma_escape_round_trip(texts[k]);
    }
    assert(plain_all(fields) =~~= texts);
}

/// Reads every one of `fields`, or answers `None` where one of them is not
/// well written.
pub fn unescape_fields(fields: &Vec<Vec<u8>>) -> (texts: Option<Vec<Vec<u8>>>)
    ensures
        texts is Some <==> all_readable(contents(fields@)),
        texts matches Some(found) ==> contents(found@) == plain_all(contents(fields@)),
{
    let mut texts: Vec<Vec<u8>> = Vec::new();
    let ghost all = contents(fields@);
    let mut i: usize = 0;
    while i < fields.len()
        invariant
            i <= fields.len(),
            all == contents(fields@),
            texts.len() == i,
            forall|k: int| 0 <= k < i ==> readable(#[trigger] all[k]) && texts[k]@ == plain(all[k]),
        decreases fields.len() - i,
    {
        assert(all[i as int] == fields[i as int]@);
        match unescape(fields[i].as_slice()) {
            Some(text) => {
                texts.push(text);
            },
            None => {
                assert(!readable(all[i as int]));
                return None;
            },
        }
        i += 1;
    }
    assert(contents(texts@) =~~= plain_all(all));
    Some(texts)
}

} // verus!

//! Bytes on a line: fields between separators, and integers in decimal.
//!
//! A line is read as fields: the separator-free stretches between its
//! separators, so a line with `n` separators has `n + 1` fields, some of
//! them possibly empty.  [`join`] writes fields as a line, [`split`] reads
//! them back, and the two are inverse to each other on separator-free
//! fields.

use vstd::prelude::*;

verus! {

/// The byte that separates the fields of a line.
pub const TAB: u8 = 9;

/// The byte that ends a line.
pub const NEWLINE: u8 = 10;

/// The fields written one after the other with `sep` between neighbours.
pub open spec fn join(fields: Seq<Seq<u8>>, sep: u8) -> Seq<u8>
    decreases fields.len(),
{
    if fields.len() == 0 {
        Seq::empty()
    } else if fields.len() == 1 {
        fields[0]
    } else {
        join(fields.drop_last(), sep) + seq![sep] + fields.last()
    }
}

/// The fields of `line`: the stretches between its separators.
///
/// It is the one non-empty sequence of `sep`-free fields that [`join`]
/// writes as `line`; see [`lemma_join_split`], [`lemma_split_fields_clean`]
/// and [`lemma_split_join`].
pub open spec fn split(line: Seq<u8>, sep: u8) -> Seq<Seq<u8>>
    decreases line.len(),
{
    if line.len() == 0 {
        seq![Seq::empty()]
    } else {
        let fields = split(line.drop_last(), sep);
        if line.last() == sep {
            fields.push(Seq::empty())
        } else {
            fields.drop_last().push(fields.last().push(line.last()))
        }
    }
}

/// Whether `byte` occurs nowhere in `bytes`.
pub open spec fn free_of(bytes: Seq<u8>, byte: u8) -> bool {
    forall|i: int| 0 <= i < bytes.len() ==> bytes[i] != byte
}

/// Whether `byte` occurs in none of the `fields`.
pub open spec fn all_free_of(fields: Seq<Seq<u8>>, byte: u8) -> bool {
    forall|k: int| 0 <= k < fields.len() ==> free_of(#[trigger] fields[k], byte)
}

/// `line` without the newline that ends it, if one does.
pub open spec fn strip_newline(line: Seq<u8>) -> Seq<u8> {
    if line.len() > 0 && line.last() == NEWLINE {
        line.drop_last()
    } else {
        line
    }
}

/// Whether `line` is exactly one line: it ends in a newline and holds no
/// other.
pub open spec fn is_one_line(line: Seq<u8>) -> bool {
    line.len() > 0 && line.last() == NEWLINE && free_of(line.drop_last(), NEWLINE)
}

/// Fields that hold none of a byte, written with another byte between
/// them, make a line that holds none of it.
pub proof fn lemma_join_is_free(fields: Seq<Seq<u8>>, sep: u8, byte: u8)
    requires
        all_free_of(fields, byte),
        sep != byte,
    ensures
        free_of(join(fields, sep), byte),
    decreases fields.len(),
{
    if fields.len() == 1 {
        assert(free_of(fields[0], byte));
    } else if fields.len() > 1 {
        let front = fields.drop_last();
        assert(all_free_of(front, byte)) by {
            assert forall|k: int| 0 <= k < front.len() implies free_of(
                #[trigger] front[k],
                byte,
            ) by {
                assert(front[k] == fields[k]);
            }
        }
        lemma_join_is_free(front, sep, byte);
        assert(free_of(fields[fields.len() - 1], byte));
        let head = join(front, sep);
        let line = join(fields, sep);
        assert forall|i: int| 0 <= i < line.len() implies line[i] != byte by {
            if i < head.len() {
                assert(line[i] == head[i]);
            } else if i > head.len() {
                assert(line[i] == fields.last()[i - head.len() - 1]);
            }
        }
    }
}

/// Fields that hold no newline, written as a line and ended by a newline,
/// are exactly one line.
pub proof fn lemma_fields_make_one_line(fields: Seq<Seq<u8>>, sep: u8)
    requires
        all_free_of(fields, NEWLINE),
        sep != NEWLINE,
    ensures
        is_one_line(join(fields, sep).push(NEWLINE)),
{
    lemma_join_is_free(fields, sep, NEWLINE);
    assert(join(fields, sep).push(NEWLINE).drop_last() =~= join(fields, sep));
}

/// A line always has at least one field.
pub proof fn lemma_split_nonempty(line: Seq<u8>, sep: u8)
    ensures
        split(line, sep).len() >= 1,
    decreases line.len(),
{
    if line.len() > 0 {
        lemma_split_nonempty(line.drop_last(), sep);
    }
}

/// Writing the fields of a line gives the line back.
pub proof fn lemma_join_split(line: Seq<u8>, sep: u8)
    ensures
        join(split(line, sep), sep) == line,
    decreases line.len(),
{
    if line.len() == 0 {
        assert(join(split(line, sep), sep) =~= line);
    } else {
        let rest = line.drop_last();
        let fields = split(rest, sep);
        lemma_split_nonempty(rest, sep);
        lemma_join_split(rest, sep);
        if line.last() == sep {
            let all = fields.push(Seq::empty());
            assert(all.drop_last() =~~= fields);
            assert(join(all, sep) =~= rest + seq![sep] + Seq::<u8>::empty());
            assert(join(all, sep) =~= line);
        } else {
            let grown = fields.last().push(line.last());
            let all = fields.drop_last().push(grown);
            assert(rest.push(line.last()) =~= line);
            if fields.len() == 1 {
                assert(join(fields, sep) == fields[0]);
                assert(join(all, sep) =~= line);
            } else {
                assert(all.drop_last() =~~= fields.drop_last());
                assert(join(all, sep) == join(fields.drop_last(), sep) + seq![sep] + grown);
                assert(join(all, sep) =~= join(fields, sep).push(line.last()));
            }
        }
    }
}

/// No field of a line holds the separator.
pub proof fn lemma_split_fields_clean(line: Seq<u8>, sep: u8)
    ensures
        all_free_of(split(line, sep), sep),
    decreases line.len(),
{
    if line.len() > 0 {
        lemma_split_nonempty(line.drop_last(), sep);
        lemma_split_fields_clean(line.drop_last(), sep);
    }
}

/// A separator-free stretch is a line of one field.
pub proof fn lemma_split_single(field: Seq<u8>, sep: u8)
    requires
        free_of(field, sep),
    ensures
        split(field, sep) == seq![field],
    decreases field.len(),
{
    if field.len() == 0 {
        assert(split(field, sep) =~~= seq![field]);
    } else {
        lemma_split_single(field.drop_last(), sep);
        assert(field.drop_last().push(field.last()) =~= field);
        assert(split(field, sep) =~~= seq![field]);
    }
}

/// A separator and a clean stretch after a line add one field to it.
pub proof fn lemma_split_extend(line: Seq<u8>, field: Seq<u8>, sep: u8)
    requires
        free_of(field, sep),
    ensures
        split(line + seq![sep] + field, sep) == split(line, sep).push(field),
    decreases field.len(),
{
    let whole = line + seq![sep] + field;
    if field.len() == 0 {
        assert(whole.drop_last() =~= line);
        assert(whole.last() == sep);
        assert(split(whole, sep) =~~= split(line, sep).push(field));
    } else {
        let shorter = field.drop_last();
        lemma_split_extend(line, shorter, sep);
        assert(whole.drop_last() =~= line + seq![sep] + shorter);
        assert(whole.last() == field.last());
        assert(shorter.push(field.last()) =~= field);
        assert(split(line, sep).push(shorter).drop_last() =~~= split(line, sep));
        assert(split(whole, sep) =~~= split(line, sep).push(field));
    }
}

/// Reading a written line gives the fields back, where none of them holds
/// the separator and there is at least one.
pub proof fn lemma_split_join(fields: Seq<Seq<u8>>, sep: u8)
    requires
        fields.len() >= 1,
        all_free_of(fields, sep),
    ensures
        split(join(fields, sep), sep) == fields,
    decreases fields.len(),
{
    if fields.len() == 1 {
        lemma_split_single(fields[0], sep);
        assert(seq![fields[0]] =~~= fields);
    } else {
        let front = fields.drop_last();
        assert(all_free_of(front, sep)) by {
            assert forall|k: int| 0 <= k < front.len() implies free_of(
                #[trigger] front[k],
                sep,
            ) by {
                assert(front[k] == fields[k]);
            }
        }
        lemma_split_join(front, sep);
        lemma_split_extend(join(front, sep), fields.last(), sep);
        assert(front.push(fields.last()) =~~= fields);
    }
}

/// Appends `bytes` to `out`.
pub fn append_bytes(out: &mut Vec<u8>, bytes: &[u8])
    ensures
        final(out)@ == old(out)@ + bytes@,
{
    let mut i: usize = 0;
    while i < bytes.len()
        invariant
            i <= bytes.len(),
            out@ == old(out)@ + bytes@.take(i as int),
        decreases bytes.len() - i,
    {
        out.push(bytes[i]);
        assert(bytes@.take(i + 1) =~= bytes@.take(i as int).push(bytes@[i as int]));
        i += 1;
    }
    assert(bytes@.take(i as int) =~= bytes@);
}

/// The line without its ending newline, if it has one.
pub fn strip_line_end(line: &[u8]) -> (body: &[u8])
    ensures
        body@ == strip_newline(line@),
{
    let n = line.len();
    if n > 0 && line[n - 1] == NEWLINE {
        let body = vstd::slice::slice_subrange(line, 0, n - 1);
        assert(body@ =~= line@.drop_last());
        body
    } else {
        line
    }
}

/// The byte strings held by a list of buffers.
pub open spec fn contents(fields: Seq<Vec<u8>>) -> Seq<Seq<u8>> {
    Seq::new(fields.len(), |k: int| fields[k]@)
}

/// Cuts `line` into its fields.
pub fn split_fields(line: &[u8], sep: u8) -> (fields: Vec<Vec<u8>>)
    ensures
        contents(fields@) == split(line@, sep),
        fields.len() >= 1,
{
    let mut fields: Vec<Vec<u8>> = Vec::new();
    let mut current: Vec<u8> = Vec::new();
    let mut i: usize = 0;
    assert(line@.take(0) =~= Seq::<u8>::empty());
    assert(contents(fields@).push(current@) =~~= split(line@.take(0), sep));
    while i < line.len()
        invariant
            i <= line.len(),
            contents(fields@).push(current@) == split(line@.take(i as int), sep),
        decreases line.len() - i,
    {
        let byte = line[i];
        let ghost before = contents(fields@);
        let ghost open = current@;
        let ghost prefix = line@.take(i + 1);
        assert(prefix.drop_last() =~= line@.take(i as int));
        assert(prefix.last() == byte);
        if byte == sep {
            fields.push(current);
            current = Vec::new();
            assert(contents(fields@) =~~= before.push(open));
        } else {
            current.push(byte);
            assert(before.push(open).drop_last() =~~= before);
        }
        assert(contents(fields@).push(current@) =~~= split(prefix, sep));
        i += 1;
    }
    assert(line@.take(i as int) =~= line@);
    let ghost before = contents(fields@);
    fields.push(current);
    assert(contents(fields@) =~~= before.push(current@));
    fields
}

/// Writing one more field after at least one adds a separator and the
/// field.
pub proof fn lemma_join_push(fields: Seq<Seq<u8>>, field: Seq<u8>, sep: u8)
    requires
        fields.len() >= 1,
    ensures
        join(fields.push(field), sep) == join(fields, sep) + seq![sep] + field,
{
    assert(fields.push(field).drop_last() =~~= fields);
}

/// Writes the fields as a line, without a line end.
pub fn join_fields(fields: &Vec<Vec<u8>>, sep: u8) -> (line: Vec<u8>)
    ensures
        line@ == join(contents(fields@), sep),
{
    let mut line: Vec<u8> = Vec::new();
    let ghost all = contents(fields@);
    let mut i: usize = 0;
    assert(line@ =~= join(all.take(0), sep));
    while i < fields.len()
        invariant
            i <= fields.len(),
            all == contents(fields@),
            line@ == join(all.take(i as int), sep),
        decreases fields.len() - i,
    {
        let ghost before = line@;
        if i > 0 {
            line.push(sep);
        }
        append_bytes(&mut line, fields[i].as_slice());
        proof {
            assert(all.take(i as int).push(all[i as int]) =~~= all.take(i + 1));
            if i > 0 {
                lemma_join_push(all.take(i as int), all[i as int], sep);
                assert(line@ =~= before + seq![sep] + all[i as int]);
            } else {
                assert(before =~= Seq::<u8>::empty());
                assert(line@ =~= all[0]);
            }
        }
        i += 1;
    }
    assert(all.take(i as int) =~~= all);
    line
}

/// The bytes of `bytes` in a buffer of their own.
pub fn copy_bytes(bytes: &[u8]) -> (copy: Vec<u8>)
    ensures
        copy@ == bytes@,
{
    let mut copy: Vec<u8> = Vec::new();
    append_bytes(&mut copy, bytes);
    assert(copy@ =~= bytes@);
    copy
}

/// Whether `byte` is one of the ten decimal digits.
pub open spec fn is_digit(byte: u8) -> bool {
    48 <= byte <= 57
}

/// The number a digit stands for; zero for any other byte.
pub open spec fn digit_value(byte: u8) -> nat {
    if is_digit(byte) {
        (byte - 48) as nat
    } else {
        0
    }
}

/// Whether `text` is made of decimal digits, at least one.
pub open spec fn is_decimal(text: Seq<u8>) -> bool {
    text.len() > 0 && forall|i: int| 0 <= i < text.len() ==> is_digit(#[trigger] text[i])
}

/// The number that the digits of `text` write in base ten.
pub open spec fn decimal_value(text: Seq<u8>) -> nat
    decreases text.len(),
{
    if text.len() == 0 {
        0
    } else {
        decimal_value(text.drop_last()) * 10 + digit_value(text.last())
    }
}

/// The digits that write `n` in base ten, without leading zeros.
pub open spec fn decimal_digits(n: nat) -> Seq<u8>
    decreases n,
{
    if n < 10 {
        seq![(48 + n) as u8]
    } else {
        decimal_digits(n / 10).push((48 + n % 10) as u8)
    }
}

/// The number written by an optional `+` followed by digits, if `text` is
/// of that form.
pub open spec fn unsigned_value(text: Seq<u8>) -> Option<nat> {
    if text.len() > 0 && text[0] == 43 {
        if is_decimal(text.drop_first()) {
            Some(decimal_value(text.drop_first()))
        } else {
            None
        }
    } else if is_decimal(text) {
        Some(decimal_value(text))
    } else {
        None
    }
}

/// The integer written by an optional sign followed by digits, if `text`
/// is of that form.
pub open spec fn integer_value(text: Seq<u8>) -> Option<int> {
    if text.len() > 0 && text[0] == 45 {
        if is_decimal(text.drop_first()) {
            Some(-(decimal_value(text.drop_first()) as int))
        } else {
            None
        }
    } else {
        match unsigned_value(text) {
            Some(n) => Some(n as int),
            None => None,
        }
    }
}

/// How an integer is written: a minus sign where it is negative, then its
/// magnitude in decimal.
pub open spec fn integer_text(v: int) -> Seq<u8> {
    if v < 0 {
        seq![45u8] + decimal_digits((-v) as nat)
    } else {
        decimal_digits(v as nat)
    }
}

/// The digits of a number are digits, and they write that number.
pub proof fn lemma_decimal_digits(n: nat)
    ensures
        is_decimal(decimal_digits(n)),
        decimal_value(decimal_digits(n)) == n,
    decreases n,
{
    let digits = decimal_digits(n);
    if n < 10 {
        assert(digits.drop_last() =~= Seq::<u8>::empty());
        assert(decimal_value(digits.drop_last()) == 0);
    } else {
        lemma_decimal_digits(n / 10);
        assert(digits.drop_last() =~= decimal_digits(n / 10));
        assert forall|i: int| 0 <= i < digits.len() implies is_digit(#[trigger] digits[i]) by {
            if i < digits.len() - 1 {
                assert(digits[i] == decimal_digits(n / 10)[i]);
            }
        }
    }
}

/// Digits hold no byte that is not a digit.
pub proof fn lemma_decimal_is_free(text: Seq<u8>, byte: u8)
    requires
        is_decimal(text),
        !is_digit(byte),
    ensures
        free_of(text, byte),
{
    assert forall|i: int| 0 <= i < text.len() implies text[i] != byte by {
        assert(is_digit(text[i]));
    }
}

/// An integer written as text holds digits and the minus sign alone.
pub proof fn lemma_integer_text_is_free(v: int, byte: u8)
    requires
        !is_digit(byte),
        byte != 45,
    ensures
        free_of(integer_text(v), byte),
{
    let text = integer_text(v);
    if v < 0 {
        let digits = decimal_digits((-v) as nat);
        lemma_decimal_digits((-v) as nat);
        assert forall|i: int| 0 <= i < text.len() implies text[i] != byte by {
            if i > 0 {
                assert(text[i] == digits[i - 1]);
                assert(is_digit(digits[i - 1]));
            }
        }
    } else {
        lemma_decimal_digits(v as nat);
        lemma_decimal_is_free(text, byte);
    }
}

/// A number read from more digits is no smaller than the number read from
/// the first few of them.
pub proof fn lemma_decimal_value_grows(text: Seq<u8>, k: int)
    requires
        0 <= k <= text.len(),
    ensures
        decimal_value(text.take(k)) <= decimal_value(text),
    decreases text.len() - k,
{
    if k == text.len() {
        assert(text.take(k) =~= text);
    } else {
        lemma_decimal_value_grows(text, k + 1);
        assert(text.take(k + 1).drop_last() =~= text.take(k));
    }
}

/// Reading what [`integer_text`] writes gives the integer back.
pub proof fn lemma_integer_round_trip(v: int)
    ensures
        integer_value(integer_text(v)) == Some(v),
{
    if v < 0 {
        let digits = decimal_digits((-v) as nat);
        lemma_decimal_digits((-v) as nat);
        assert(integer_text(v).drop_first() =~= digits);
    } else {
        lemma_decimal_digits(v as nat);
        assert(is_digit(decimal_digits(v as nat)[0]));
    }
}

/// Reading the digits of a number as unsigned text gives the number back.
pub proof fn lemma_unsigned_round_trip(n: nat)
    ensures
        unsigned_value(decimal_digits(n)) == Some(n),
{
    lemma_decimal_digits(n);
    assert(is_digit(decimal_digits(n)[0]));
}

/// Reads a run of decimal digits as a number that fits in 64 bits.
pub fn parse_decimal(text: &[u8]) -> (value: Option<u64>)
    ensures
        value is Some <==> is_decimal(text@) && decimal_value(text@) <= u64::MAX,
        value matches Some(n) ==> n == decimal_value(text@),
{
    if text.len() == 0 {
        return None;
    }
    let mut acc: u64 = 0;
    let mut i: usize = 0;
    assert(text@.take(0) =~= Seq::<u8>::empty());
    while i < text.len()
        invariant
            i <= text.len(),
            text.len() > 0,
            forall|j: int| 0 <= j < i ==> is_digit(#[trigger] text@[j]),
            acc == decimal_value(text@.take(i as int)),
        decreases text.len() - i,
    {
        let byte = text[i];
        if byte < 48 || byte > 57 {
            return None;
        }
        let digit: u64 = (byte - 48) as u64;
        proof {
            assert(text@.take(i + 1).drop_last() =~= text@.take(i as int));
            assert(text@.take(i + 1).last() == byte);
            lemma_decimal_value_grows(text@, i + 1);
        }
        if acc > (u64::MAX - digit) / 10 {
            return None;
        }
        acc = acc * 10 + digit;
        i += 1;
    }
    assert(text@.take(i as int) =~= text@);
    Some(acc)
}

/// Reads an unsigned number: digits, with an optional `+` before them.
pub fn parse_unsigned(text: &[u8]) -> (value: Option<u64>)
    ensures
        value is Some <==> (unsigned_value(text@) matches Some(n) && n <= u64::MAX),
        value matches Some(n) ==> unsigned_value(text@) == Some(n as nat),
{
    if text.len() > 0 && text[0] == 43 {
        let digits = vstd::slice::slice_subrange(text, 1, text.len());
        assert(digits@ =~= text@.drop_first());
        parse_decimal(digits)
    } else {
        parse_decimal(text)
    }
}

/// Reads a size: an unsigned number that fits in `usize`.
pub fn parse_size(text: &[u8]) -> (value: Option<usize>)
    ensures
        value is Some <==> (unsigned_value(text@) matches Some(n) && n <= usize::MAX),
        value matches Some(n) ==> unsigned_value(text@) == Some(n as nat),
{
    match parse_unsigned(text) {
        Some(n) => {
            if n <= usize::MAX as u64 {
                Some(n as usize)
            } else {
                None
            }
        },
        None => None,
    }
}

/// Reads a signed number that fits in 32 bits: digits, with an optional
/// sign before them.
pub fn parse_i32(text: &[u8]) -> (value: Option<i32>)
    ensures
        value is Some <==> (integer_value(text@) matches Some(v) && i32::MIN <= v <= i32::MAX),
        value matches Some(v) ==> integer_value(text@) == Some(v as int),
{
    if text.len() > 0 && text[0] == 45 {
        let digits = vstd::slice::slice_subrange(text, 1, text.len());
        assert(digits@ =~= text@.drop_first());
        match parse_decimal(digits) {
            Some(n) => {
                if n <= 2147483648 {
                    Some((0 - (n as i64)) as i32)
                } else {
                    None
                }
            },
            None => None,
        }
    } else {
        match parse_unsigned(text) {
            Some(n) => {
                if n <= 2147483647 {
                    Some(n as i32)
                } else {
                    None
                }
            },
            None => None,
        }
    }
}

/// Appends the decimal digits of `n` to `out`.
pub fn push_decimal(out: &mut Vec<u8>, n: u64)
    ensures
        final(out)@ == old(out)@ + decimal_digits(n as nat),
    decreases n,
{
    if n >= 10 {
        push_decimal(out, n / 10);
    }
    let digit: u8 = (48 + n % 10) as u8;
    out.push(digit);
    assert(out@ =~= old(out)@ + decimal_digits(n as nat));
}

/// Appends `v` as text to `out`.
pub fn push_integer(out: &mut Vec<u8>, v: i32)
    ensures
        final(out)@ == old(out)@ + integer_text(v as int),
{
    if v < 0 {
        out.push(45);
        let magnitude: u64 = (0 - (v as i64)) as u64;
        push_decimal(out, magnitude);
        assert(out@ =~= old(out)@ + integer_text(v as int));
    } else {
        push_decimal(out, v as u64);
    }
}

/// The decimal digits of `n`.
pub fn format_decimal(n: u64) -> (text: Vec<u8>)
    ensures
        text@ == decimal_digits(n as nat),
{
    let mut text: Vec<u8> = Vec::new();
    push_decimal(&mut text, n);
    assert(text@ =~= decimal_digits(n as nat));
    text
}

/// `v` as text.
pub fn format_integer(v: i32) -> (text: Vec<u8>)
    ensures
        text@ == integer_text(v as int),
{
    let mut text: Vec<u8> = Vec::new();
    push_integer(&mut text, v);
    assert(text@ =~= integer_text(v as int));
    text
}

} // verus!

//! How records are laid out in the history file: one per line, each line ended by a line feed.

use super::log;
use super::log::Decoder;
use super::metadata;
use super::HistoryEntry;
use crate::text;
use vstd::prelude::*;
use vstd::utf8::*;

verus! {

/// The lines of a file, each with its end. Only the last one may lack it.
pub open spec fn lines_of(content: Seq<char>) -> Seq<Seq<char>>
    decreases content.len(),
{
    if content.len() == 0 {
        Seq::empty()
    } else {
        let before = lines_of(content.drop_last());
        if is_whole(content.drop_last()) {
            before.push(seq![content.last()])
        } else {
            before.drop_last().push(before.last().push(content.last()))
        }
    }
}

/// The last line of the file, if there is one, has its end.
pub open spec fn is_whole(content: Seq<char>) -> bool {
    content.len() == 0 || content.last() == '\n'
}

/// The text can be a record of its own: it is not empty, holds no line feed, and does not end in
/// a carriage return.
pub open spec fn is_one_line(record: Seq<char>) -> bool {
    &&& record.len() > 0
    &&& !record.contains('\n')
    &&& record.last() != '\r'
}

proof fn lemma_lines_are_not_empty(content: Seq<char>)
    ensures
        content.len() > 0 ==> lines_of(content).len() > 0,
        forall|i: int|
            0 <= i < lines_of(content).len() ==> (#[trigger] lines_of(content)[i]).len() > 0,
    decreases content.len(),
{
    if content.len() > 0 {
        lemma_lines_are_not_empty(content.drop_last());
    }
}

/// Text without a line feed becomes one more line of a whole file.
proof fn lemma_open_line(content: Seq<char>, line: Seq<char>)
    requires
        is_whole(content),
        line.len() > 0,
        !line.contains('\n'),
    ensures
        lines_of(content + line) == lines_of(content).push(line),
        !is_whole(content + line),
    decreases line.len(),
{
    let all = content + line;
    assert(all.last() == line.last());
    assert(line.contains(line.last()));
    assert(all.drop_last() =~= content + line.drop_last());
    if line.len() == 1 {
        assert(all.drop_last() =~= content);
        assert(line =~= seq![line.last()]);
    } else {
        assert(!line.drop_last().contains('\n'));
        lemma_open_line(content, line.drop_last());
        let before = lines_of(all.drop_last());
        assert(before.drop_last() =~= lines_of(content));
        assert(before.last().push(line.last()) =~= line);
    }
}

/// A record with its line feed becomes one more line of a whole file, which stays whole.
pub proof fn record_becomes_a_line(content: Seq<char>, record: Seq<char>)
    requires
        is_whole(content),
        is_one_line(record),
    ensures
        lines_of(content + record.push('\n')) == lines_of(content).push(record.push('\n')),
        is_whole(content + record.push('\n')),
{
    let all = content + record.push('\n');
    lemma_open_line(content, record);
    assert(all.last() == '\n');
    assert(all.drop_last() =~= content + record);
    let before = lines_of(all.drop_last());
    assert(before.drop_last() =~= lines_of(content));
}

/// The line of a record gives the record back.
pub proof fn line_holds_its_record(record: Seq<char>)
    requires
        is_one_line(record),
    ensures
        text::without_line_end(record.push('\n')) == record,
{
    let line = record.push('\n');
    assert(line.drop_last() =~= record);
    assert(record.contains(record.last()));
    assert(text::without_line_end(record) == record);
}

proof fn lemma_encoding_of_join(a: Seq<char>, b: Seq<char>)
    ensures
        encode_utf8(a + b) == encode_utf8(a) + encode_utf8(b),
    decreases a.len(),
{
    if a.len() == 0 {
        assert(a + b =~= b);
    } else {
        assert((a + b).drop_first() =~= a.drop_first() + b);
        lemma_encoding_of_join(a.drop_first(), b);
    }
}

proof fn lemma_bytes_before_prefix(a: Seq<Seq<char>>, b: Seq<Seq<char>>, n: nat)
    requires
        n <= a.len(),
        n <= b.len(),
        forall|i: int| 0 <= i < n ==> a[i] == b[i],
    ensures
        log::bytes_before(a, n) == log::bytes_before(b, n),
    decreases n,
{
    if n > 0 {
        lemma_bytes_before_prefix(a, b, (n - 1) as nat);
    }
}

proof fn lemma_bytes_of_lines(content: Seq<char>)
    ensures
        log::bytes_before(lines_of(content), lines_of(content).len()) == encode_utf8(
            content,
        ).len(),
    decreases content.len(),
{
    if content.len() > 0 {
        let shorter = content.drop_last();
        let before = lines_of(shorter);
        let last = seq![content.last()];
        lemma_bytes_of_lines(shorter);
        assert(content =~= shorter + last);
        lemma_encoding_of_join(shorter, last);
        if is_whole(shorter) {
            lemma_bytes_before_prefix(lines_of(content), before, before.len());
        } else {
            lemma_lines_are_not_empty(shorter);
            let n = (before.len() - 1) as nat;
            lemma_bytes_before_prefix(lines_of(content), before, n);
            assert(before.last().push(content.last()) =~= before.last() + last);
            lemma_encoding_of_join(before.last(), last);
        }
    }
}

/// The lines of a file whose size fits into 64 bits can be read by lookups.
pub proof fn files_are_logs(content: Seq<char>)
    requires
        encode_utf8(content).len() <= u64::MAX,
    ensures
        log::is_log(lines_of(content)),
{
    lemma_lines_are_not_empty(content);
    lemma_bytes_of_lines(content);
}

/// A record that is added to a whole file is found at the offset that was the number of records
/// before, and the records before it stay where they are.
pub proof fn added_record_comes_last(
    content: Seq<char>,
    entries: Seq<HistoryEntry>,
    record: Seq<char>,
    entry: HistoryEntry,
    decode: Decoder,
)
    requires
        is_whole(content),
        log::records(lines_of(content), lines_of(content).len(), decode) == Some(entries),
        is_one_line(record),
        decode(record) == Some(entry),
    ensures
        ({
            let lines = lines_of(content + record.push('\n'));
            &&& log::records(lines, lines.len(), decode) == Some(entries.push(entry))
            &&& log::record_at(lines, entries.len(), decode) == Some(entry)
            &&& forall|offset: nat|
                offset < entries.len() ==> #[trigger] log::record_at(lines, offset, decode) == Some(
                    entries[offset as int],
                )
        }),
{
    let before = lines_of(content);
    let line = record.push('\n');
    record_becomes_a_line(content, record);
    line_holds_its_record(record);
    let lines = before.push(line);
    assert(lines =~= before + seq![line]);
    log::lemma_prefix(before, seq![line], before.len(), decode);
    assert(log::records(lines, lines.len(), decode) == Some(entries.push(entry)));
    log::lemma_record_after(lines, lines.len(), entries.push(entry), entries.len(), decode);
    assert forall|offset: nat| offset < entries.len() implies #[trigger] log::record_at(
        lines,
        offset,
        decode,
    ) == Some(entries[offset as int]) by {
        log::lemma_record_after(lines, lines.len(), entries.push(entry), offset, decode);
    }
}

/// The encoding of a character holds a line feed if and only if the character is one.
proof fn lemma_line_feeds_of_char(c: char)
    ensures
        metadata::line_feeds(encode_utf8(seq![c])) == if c == '\n' {
            1nat
        } else {
            0
        },
{
    let scalar = c as u32;
    let bytes = encode_scalar(scalar);
    assert(seq![c].drop_first() =~= Seq::empty());
    reveal_with_fuel(encode_utf8, 2);
    assert(encode_utf8(seq![c]) =~= bytes);
    assert(scalar <= 0x7f ==> leading_byte_width_1(scalar) == scalar) by (bit_vector);
    assert(leading_byte_width_2(scalar) >= 0x80) by (bit_vector);
    assert(leading_byte_width_3(scalar) >= 0x80) by (bit_vector);
    assert(leading_byte_width_4(scalar) >= 0x80) by (bit_vector);
    assert(last_continuation_byte(scalar) >= 0x80) by (bit_vector);
    assert(second_last_continuation_byte(scalar) >= 0x80) by (bit_vector);
    assert(third_last_continuation_byte(scalar) >= 0x80) by (bit_vector);
    reveal_with_fuel(metadata::line_feeds, 5);
}

/// The number of line feeds in a whole file is the number of its lines.
pub proof fn line_feeds_count_lines(content: Seq<char>)
    ensures
        lines_of(content).len() == metadata::line_feeds(encode_utf8(content)) + if is_whole(
            content,
        ) {
            0nat
        } else {
            1
        },
    decreases content.len(),
{
    if content.len() > 0 {
        let shorter = content.drop_last();
        let last = seq![content.last()];
        line_feeds_count_lines(shorter);
        lemma_lines_are_not_empty(shorter);
        assert(content =~= shorter + last);
        lemma_encoding_of_join(shorter, last);
        metadata::line_feeds_add_up(encode_utf8(shorter), encode_utf8(last));
        lemma_line_feeds_of_char(content.last());
    }
}

/// Each record that is added to a file adds one to the number of its line feeds.
pub proof fn added_record_counts_once(content: Seq<char>, record: Seq<char>)
    requires
        is_one_line(record),
    ensures
        metadata::line_feeds(encode_utf8(content + record.push('\n'))) == metadata::line_feeds(
            encode_utf8(content),
        ) + 1,
{
    let line = record.push('\n');
    lemma_encoding_of_join(content, line);
    metadata::line_feeds_add_up(encode_utf8(content), encode_utf8(line));
    line_feeds_count_lines(line);
    record_becomes_a_line(Seq::empty(), record);
    assert(Seq::<char>::empty() + line =~= line);
}

proof fn lemma_dense_records(lines: Seq<Seq<char>>, n: nat, decode: Decoder)
    requires
        n <= lines.len(),
        forall|i: int| 0 <= i < lines.len() ==> !log::is_blank_line(#[trigger] lines[i]),
        log::records(lines, n, decode) is Some,
    ensures
        log::records(lines, n, decode)->0.len() == n,
    decreases n,
{
    if n > 0 {
        lemma_dense_records(lines, (n - 1) as nat, decode);
    }
}

/// In a whole file without blank lines, the number of line feeds is the number of records.
pub proof fn line_feeds_count_records(
    content: Seq<char>,
    entries: Seq<HistoryEntry>,
    decode: Decoder,
)
    requires
        is_whole(content),
        forall|i: int|
            0 <= i < lines_of(content).len() ==> !log::is_blank_line(
                #[trigger] lines_of(content)[i],
            ),
        log::records(lines_of(content), lines_of(content).len(), decode) == Some(entries),
    ensures
        metadata::line_feeds(encode_utf8(content)) == entries.len(),
{
    line_feeds_count_lines(content);
    lemma_dense_records(lines_of(content), lines_of(content).len(), decode);
}

} // verus!

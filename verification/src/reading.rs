//! Reading the word table page back. Nothing in a variant is escaped, so a
//! variant that holds markup of its own can pass for cells or rows that are
//! not there. Where no variant holds a `<`, the character that every tag
//! begins with, that cannot happen: the page tells the entries it was made
//! of, their number and their order included.

use vstd::prelude::*;
use crate::table::data_rows;
use crate::table::page_html;
use crate::table::row_html;
use crate::table::rows_html;
use crate::table::CELL_BREAK;
use crate::table::HEADER_ROW;
use crate::table::PAGE_CLOSE;
use crate::table::PAGE_OPEN;
use crate::table::ROW_CLOSE;
use crate::table::ROW_OPEN;
use crate::table::TABLE_CLOSE;
use crate::table::TABLE_OPEN;
use crate::words::WordText;

verus! {

/// Whether `text` holds no `<`.
pub open spec fn is_plain(text: Seq<char>) -> bool {
    forall|k: int| 0 <= k < text.len() ==> #[trigger] text[k] != '<'
}

/// Whether none of the three variants of `word` holds a `<`.
pub open spec fn is_plain_word(word: WordText) -> bool {
    is_plain(word.american) && is_plain(word.british) && is_plain(word.indian)
}

/// Whether no variant of any of `words` holds a `<`.
pub open spec fn all_plain(words: Seq<WordText>) -> bool {
    forall|i: int| 0 <= i < words.len() ==> is_plain_word(#[trigger] words[i])
}

/// The few characters of the fixed markup that reading a page back rests on:
/// what follows a cell text begins with `<`, a data row goes on with `t` and
/// the end of the table with `/`.
proof fn lemma_markup()
    ensures
        ROW_OPEN@.len() >= 2,
        ROW_OPEN@[1] == 't',
        CELL_BREAK@.len() >= 1,
        CELL_BREAK@[0] == '<',
        ROW_CLOSE@.len() >= 1,
        ROW_CLOSE@[0] == '<',
        TABLE_CLOSE@.len() >= 2,
        TABLE_CLOSE@[1] == '/',
{
    reveal_strlit("<tr>
                        <td>");
    reveal_strlit("</td>
                        <td>");
    reveal_strlit("</td>
                    </tr>");
    reveal_strlit("</table>");
}

/// Texts that are equal and begin alike go on alike.
proof fn lemma_same_start(start: Seq<char>, first: Seq<char>, second: Seq<char>)
    requires
        start + first == start + second,
    ensures
        first == second,
{
    assert(first == (start + first).skip(start.len() as int));
    assert(second == (start + second).skip(start.len() as int));
}

/// Plain text ends where markup begins: of two equal texts, each a plain text
/// with markup behind it, the plain texts are equal and so is what follows.
proof fn lemma_plain_ends(
    first: Seq<char>,
    after_first: Seq<char>,
    second: Seq<char>,
    after_second: Seq<char>,
)
    requires
        is_plain(first),
        is_plain(second),
        after_first.len() > 0 && after_first[0] == '<',
        after_second.len() > 0 && after_second[0] == '<',
        first + after_first == second + after_second,
    ensures
        first == second,
        after_first == after_second,
{
    let whole = first + after_first;
    if first.len() < second.len() {
        assert(whole[first.len() as int] == after_first[0]);
        assert((second + after_second)[first.len() as int] == second[first.len() as int]);
    }
    if second.len() < first.len() {
        assert((second + after_second)[second.len() as int] == after_second[0]);
        assert(whole[second.len() as int] == first[second.len() as int]);
    }
    assert(first == whole.take(first.len() as int));
    assert(second == (second + after_second).take(second.len() as int));
    assert(after_first == whole.skip(first.len() as int));
    assert(after_second == (second + after_second).skip(second.len() as int));
}

/// The rows of a list that is not empty are the row of its first entry and,
/// behind it, the rows of the others.
proof fn lemma_first_row(words: Seq<WordText>)
    requires
        words.len() > 0,
    ensures
        rows_html(words) == row_html(words[0]) + rows_html(words.drop_first()),
{
    assert(data_rows(words).drop_first() == data_rows(words.drop_first()));
}

/// A data row tells its entry: where two texts are equal, each the row of an
/// entry without `<` with something behind it, the entries are equal and so
/// is what stands behind the rows.
pub proof fn lemma_row_tells_entry(
    first: WordText,
    after_first: Seq<char>,
    second: WordText,
    after_second: Seq<char>,
)
    requires
        is_plain_word(first),
        is_plain_word(second),
        row_html(first) + after_first == row_html(second) + after_second,
    ensures
        first == second,
        after_first == after_second,
{
    lemma_markup();
    let first_close = ROW_CLOSE@ + after_first;
    let second_close = ROW_CLOSE@ + after_second;
    let first_indian = CELL_BREAK@ + (first.indian + first_close);
    let second_indian = CELL_BREAK@ + (second.indian + second_close);
    let first_british = CELL_BREAK@ + (first.british + first_indian);
    let second_british = CELL_BREAK@ + (second.british + second_indian);
    assert(row_html(first) + after_first == ROW_OPEN@ + (first.american + first_british));
    assert(row_html(second) + after_second == ROW_OPEN@ + (second.american + second_british));
    lemma_same_start(ROW_OPEN@, first.american + first_british, second.american + second_british);
    lemma_plain_ends(first.american, first_british, second.american, second_british);
    lemma_same_start(CELL_BREAK@, first.british + first_indian, second.british + second_indian);
    lemma_plain_ends(first.british, first_indian, second.british, second_indian);
    lemma_same_start(CELL_BREAK@, first.indian + first_close, second.indian + second_close);
    lemma_plain_ends(first.indian, first_close, second.indian, second_close);
    lemma_same_start(ROW_CLOSE@, after_first, after_second);
}

/// No data row begins like the end of the table: a text that goes on with
/// `/` is not the rows of a list that has an entry, whatever stands behind
/// them.
proof fn lemma_rows_are_not_the_end(words: Seq<WordText>, after: Seq<char>, end: Seq<char>)
    requires
        words.len() > 0,
        end.len() >= 2 && end[1] == '/',
    ensures
        rows_html(words) + after != end,
{
    lemma_markup();
    lemma_first_row(words);
    let row = row_html(words[0]);
    assert(row[1] == ROW_OPEN@[1]);
    assert((rows_html(words) + after)[1] == row[1]);
}

/// Data rows tell their entries: where the rows of two lists without `<`,
/// each with the end of the table behind it, are equal texts, the lists are
/// equal.
proof fn lemma_rows_tell_entries(first: Seq<WordText>, second: Seq<WordText>, end: Seq<char>)
    requires
        all_plain(first),
        all_plain(second),
        end.len() >= 2 && end[1] == '/',
        rows_html(first) + end == rows_html(second) + end,
    ensures
        first == second,
    decreases first.len(),
{
    if first.len() == 0 {
        assert(rows_html(first) + end == end);
        if second.len() > 0 {
            lemma_rows_are_not_the_end(second, end, end);
        }
        assert(first == second);
    } else if second.len() == 0 {
        assert(rows_html(second) + end == end);
        lemma_rows_are_not_the_end(first, end, end);
    } else {
        let first_rest = first.drop_first();
        let second_rest = second.drop_first();
        lemma_first_row(first);
        lemma_first_row(second);
        assert(rows_html(first) + end == row_html(first[0]) + (rows_html(first_rest) + end));
        assert(rows_html(second) + end == row_html(second[0]) + (rows_html(second_rest) + end));
        lemma_row_tells_entry(
            first[0],
            rows_html(first_rest) + end,
            second[0],
            rows_html(second_rest) + end,
        );
        assert(all_plain(first_rest)) by {
            assert forall|i: int| 0 <= i < first_rest.len() implies is_plain_word(
                #[trigger] first_rest[i],
            ) by {
                assert(is_plain_word(first[i + 1]));
            }
        }
        assert(all_plain(second_rest)) by {
            assert forall|i: int| 0 <= i < second_rest.len() implies is_plain_word(
                #[trigger] second_rest[i],
            ) by {
                assert(is_plain_word(second[i + 1]));
            }
        }
        lemma_rows_tell_entries(first_rest, second_rest, end);
        assert(first == seq![first[0]] + first_rest);
        assert(second == seq![second[0]] + second_rest);
    }
}

/// A page tells its entries: two lists of entries without `<` that have the
/// same page are the same list, with the same number of entries in the same
/// order.
pub proof fn lemma_page_tells_entries(first: Seq<WordText>, second: Seq<WordText>)
    requires
        all_plain(first),
        all_plain(second),
        page_html(first) == page_html(second),
    ensures
        first == second,
{
    lemma_markup();
    let start = PAGE_OPEN@ + TABLE_OPEN@ + HEADER_ROW@;
    let end = TABLE_CLOSE@ + PAGE_CLOSE@;
    assert(page_html(first) == start + (rows_html(first) + end));
    assert(page_html(second) == start + (rows_html(second) + end));
    lemma_same_start(start, rows_html(first) + end, rows_html(second) + end);
    lemma_rows_tell_entries(first, second, end);
}

} // verus!

//! Where things stand in the word table page: every entry has its row, the
//! rows follow each other in the order of the entries, and nothing else
//! stands between the header row and the end of the table.

use vstd::prelude::*;
use vstd::seq_lib::lemma_flatten_concat;
use crate::table::data_rows;
use crate::table::lemma_rows_push;
use crate::table::page_html;
use crate::table::row_html;
use crate::table::rows_html;
use crate::table::table_html;
use crate::table::CELL_BREAK;
use crate::table::HEADER_ROW;
use crate::table::PAGE_CLOSE;
use crate::table::PAGE_OPEN;
use crate::table::ROW_CLOSE;
use crate::table::ROW_OPEN;
use crate::table::TABLE_CLOSE;
use crate::table::TABLE_OPEN;
use crate::words::WordText;

verus! {

/// Where the data rows begin in the page of any list: right after the header
/// row.
pub open spec fn rows_offset() -> int {
    (PAGE_OPEN@.len() + TABLE_OPEN@.len() + HEADER_ROW@.len()) as int
}

/// Where the data row of entry `i` begins in the page of `words`. For `i`
/// equal to the number of entries this is where the data rows end.
pub open spec fn row_offset(words: Seq<WordText>, i: int) -> int {
    rows_offset() + rows_html(words.take(i)).len()
}

/// Rows written one after the other split wherever the list of entries
/// splits: the rows of the first `i` entries come first, the rows of the
/// remaining entries follow.
pub proof fn lemma_rows_split(words: Seq<WordText>, i: int)
    requires
        0 <= i <= words.len(),
    ensures
        rows_html(words) == rows_html(words.take(i)) + rows_html(words.skip(i)),
{
    assert(data_rows(words) == data_rows(words.take(i)) + data_rows(words.skip(i)));
    lemma_flatten_concat(data_rows(words.take(i)), data_rows(words.skip(i)));
}

/// A data row holds the three variants of its entry in the order American,
/// British, Indian: each cell text stands at its place in the row, unchanged,
/// and the row holds nothing but the fixed markup besides them.
pub proof fn lemma_cells_in_order(word: WordText)
    ensures
        ({
            let row = row_html(word);
            let american = ROW_OPEN@.len() as int;
            let british = american + word.american.len() + CELL_BREAK@.len();
            let indian = british + word.british.len() + CELL_BREAK@.len();
            &&& row.subrange(0, american) == ROW_OPEN@
            &&& row.subrange(american, american + word.american.len()) == word.american
            &&& row.subrange(american + word.american.len(), british) == CELL_BREAK@
            &&& row.subrange(british, british + word.british.len()) == word.british
            &&& row.subrange(british + word.british.len(), indian) == CELL_BREAK@
            &&& row.subrange(indian, indian + word.indian.len()) == word.indian
            &&& row.subrange(indian + word.indian.len(), row.len() as int) == ROW_CLOSE@
        }),
{
}

/// The page of a list of entries holds one data row for each entry, in the
/// order of the entries: the row of entry `i` fills the page from where the
/// row of entry `i - 1` ends to where the row of entry `i + 1` begins.
pub proof fn lemma_rows_in_order(words: Seq<WordText>, i: int)
    requires
        0 <= i < words.len(),
    ensures
        data_rows(words)[i] == row_html(words[i]),
        row_offset(words, i + 1) == row_offset(words, i) + row_html(words[i]).len(),
        page_html(words).subrange(row_offset(words, i), row_offset(words, i + 1)) == row_html(
            words[i],
        ),
{
    let before = words.take(i);
    let after = words.skip(i + 1);
    assert(words.take(i + 1) == before.push(words[i]));
    lemma_rows_push(before, words[i]);
    lemma_rows_split(words, i + 1);
    assert(page_html(words) == (PAGE_OPEN@ + TABLE_OPEN@ + HEADER_ROW@ + rows_html(before))
        + row_html(words[i]) + (rows_html(after) + TABLE_CLOSE@ + PAGE_CLOSE@));
}

/// Around its data rows the page of a list of `n` entries is the same for
/// every list: everything before the first data row is the opening of the page
/// and the header row, and everything after the `n`-th is the closing of the
/// table and of the page. So the table holds exactly `n` data rows.
pub proof fn lemma_rows_between_header_and_close(words: Seq<WordText>)
    ensures
        data_rows(words).len() == words.len(),
        row_offset(words, 0) == rows_offset(),
        page_html(words).subrange(0, rows_offset()) == PAGE_OPEN@ + TABLE_OPEN@ + HEADER_ROW@,
        page_html(words).subrange(
            row_offset(words, words.len() as int),
            page_html(words).len() as int,
        ) == TABLE_CLOSE@ + PAGE_CLOSE@,
{
    assert(words.take(0) == Seq::<WordText>::empty());
    assert(words.take(words.len() as int) == words);
    assert(data_rows(Seq::<WordText>::empty()) == Seq::<Seq<char>>::empty());
    assert(page_html(words) == (PAGE_OPEN@ + TABLE_OPEN@ + HEADER_ROW@) + rows_html(words)
        + (TABLE_CLOSE@ + PAGE_CLOSE@));
}

/// The table of the empty list holds the header row and no other row.
pub proof fn lemma_empty_table()
    ensures
        table_html(Seq::empty()) == TABLE_OPEN@ + HEADER_ROW@ + TABLE_CLOSE@,
        page_html(Seq::empty()) == PAGE_OPEN@ + TABLE_OPEN@ + HEADER_ROW@ + TABLE_CLOSE@
            + PAGE_CLOSE@,
{
    assert(data_rows(Seq::<WordText>::empty()) == Seq::<Seq<char>>::empty());
}

} // verus!

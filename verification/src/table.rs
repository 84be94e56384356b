//! The word table page: its fixed parts, what the page is for a given list of
//! entries, and the function that renders it.

use vstd::prelude::*;
use vstd::string::*;
use crate::words::Word;
use crate::words::WordList;
use crate::words::WordText;

verus! {

/// The page up to the table: document head, style sheet and the start of the
/// body.
pub const PAGE_OPEN: &'static str = "<!DOCTYPE html>
                <html lang='en'>
                <head>
                    <meta charset='UTF-8'>
                    <meta name='viewport' content='width=device-width, initial-scale=1.0'>
                    <style>
                        body {
                            font-family: Arial, sans-serif;
                            background: linear-gradient(135deg, #f0f0f0, #e0e0e0);
                            margin: 0;
                            padding: 20px;
                        }
                        table {
                            width: 100%;
                            border-collapse: collapse;
                            box-shadow: 0 4px 8px rgba(0, 0, 0, 0.1); 
                            background: white;
                        }
                        th, td {
                            border: 1px solid #ddd;
                            padding: 32px;
                            text-align: left;
                            transition: background 0.3s, transform 0.3s;
                        }
                        th {
                            background: linear-gradient(135deg, #4CAF50, #2E8B57);
                            color: white;
                        }
                        tr:nth-child(even) {
                            background: #f9f9f9;
                        }
                        tr:hover td {
                            background: #f1c40f;
                            color: #00000;
                            transform: scale(1.05);
                        }
                        .button-container {
                            margin-top: 20px;
                        }
                        .download-btn {
                            padding: 10px 20px;
                            font-size: 16px;
                            color: white;
                            background: #3498db;
                            border: none;
                            border-radius: 5px;
                            cursor: pointer;
                            text-decoration: none;
                        }
                        .download-btn:hover {
                            background: #2980b9;
                        }
                    </style>
                </head>
                <body>
                    ";

/// The opening tag of the table.
pub const TABLE_OPEN: &'static str = "<table id='wordTable'>
                        ";

/// The header row, which names the three variants.
pub const HEADER_ROW: &'static str = "<tr>
                            <th>American English</th>
                            <th>British English</th>
                            <th>Indian English</th>
                        </tr>";

/// The start of a data row, up to the text of its first cell.
pub const ROW_OPEN: &'static str = "<tr>
                        <td>";

/// What stands between the texts of two neighbouring cells of a data row.
pub const CELL_BREAK: &'static str = "</td>
                        <td>";

/// The end of a data row, after the text of its last cell.
pub const ROW_CLOSE: &'static str = "</td>
                    </tr>";

/// The closing tag of the table.
pub const TABLE_CLOSE: &'static str = "</table>";

/// The page after the table: the export button, the scripts that turn the
/// table into a PDF in the browser, and the end of the document.
pub const PAGE_CLOSE: &'static str = "<div class='button-container'>
                    <button class='download-btn' onclick='downloadPDF()'>Download as PDF</button>
                </div>
                <script src='https://unpkg.com/jspdf@latest/dist/jspdf.umd.min.js'></script>
                <script src='https://unpkg.com/jspdf-autotable@latest/dist/jspdf.plugin.autotable.min.js'></script>
                <script>
                    window.onload = () => {
                        const { jsPDF } = window.jspdf;
                        document.querySelector('.download-btn').addEventListener('click', () => {
                            const doc = new jsPDF();
                            doc.autoTable({ html: '#wordTable' });
                            doc.save('table.pdf');
                        });
                    };
                </script>
                </body>
                </html>";

/// The data row of one entry: three cells that hold the American, the British
/// and the Indian variant, in this order and exactly as given (nothing is
/// escaped).
pub open spec fn row_html(word: WordText) -> Seq<char> {
    ROW_OPEN@ + word.american + CELL_BREAK@ + word.british + CELL_BREAK@ + word.indian
        + ROW_CLOSE@
}

/// The data rows of a list of entries: one row for each entry, in the order
/// of the entries.
pub open spec fn data_rows(words: Seq<WordText>) -> Seq<Seq<char>> {
    words.map_values(|w: WordText| row_html(w))
}

/// The data rows of a list of entries, written one after the other.
pub open spec fn rows_html(words: Seq<WordText>) -> Seq<char> {
    data_rows(words).flatten()
}

/// The table of a list of entries: the header row, then the data rows.
pub open spec fn table_html(words: Seq<WordText>) -> Seq<char> {
    TABLE_OPEN@ + HEADER_ROW@ + rows_html(words) + TABLE_CLOSE@
}

/// The whole page of a list of entries.
pub open spec fn page_html(words: Seq<WordText>) -> Seq<char> {
    PAGE_OPEN@ + table_html(words) + PAGE_CLOSE@
}

/// One more entry adds its row behind the rows that are there.
pub proof fn lemma_rows_push(words: Seq<WordText>, word: WordText)
    ensures
        rows_html(words.push(word)) == rows_html(words) + row_html(word),
{
    assert(data_rows(words.push(word)) == data_rows(words).push(row_html(word)));
    data_rows(words).lemma_flatten_push(row_html(word));
}

/// Renders the data row of one entry.
pub fn render_row(word: &Word) -> (html: String)
    ensures
        html@ == row_html(word@),
{
    let mut html = String::from_str(ROW_OPEN);
    html.append(word.american.as_str());
    html.append(CELL_BREAK);
    html.append(word.british.as_str());
    html.append(CELL_BREAK);
    html.append(word.indian.as_str());
    html.append(ROW_CLOSE);
    html
}

/// Renders the page of a list of entries.
pub fn render_page(list: &WordList) -> (html: String)
    ensures
        html@ == page_html(list@),
{
    let mut html = String::from_str(PAGE_OPEN);
    html.append(TABLE_OPEN);
    html.append(HEADER_ROW);
    let ghost before_rows = html@;
    let mut i: usize = 0;
    while i < list.words.len()
        invariant
            i <= list.words.len(),
            before_rows == PAGE_OPEN@ + TABLE_OPEN@ + HEADER_ROW@,
            html@ == before_rows + rows_html(list@.take(i as int)),
        decreases list.words.len() - i,
    {
        let row = render_row(&list.words[i]);
        proof {
            assert(list@.take(i + 1) == list@.take(i as int).push(list@[i as int]));
            lemma_rows_push(list@.take(i as int), list@[i as int]);
        }
        html.append(row.as_str());
        i += 1;
    }
    assert(list@.take(i as int) == list@);
    html.append(TABLE_CLOSE);
    html.append(PAGE_CLOSE);
    html
}

} // verus!

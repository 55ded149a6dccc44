//! What the operator is shown: the label of each candidate in the selection
//! list, and the table that sums up a selection.

use vstd::prelude::*;
use vstd::string::*;
use human_units::FormatDuration;
use crate::candidate::{choice_views, BranchChoice, ChoiceView};
use vstd::utf8::encode_utf8;
use crate::text::texts;

verus! {

/// A point in time: seconds and nanoseconds since the Unix epoch.
#[derive(Clone, Copy, Debug, PartialEq, Eq)]
pub struct Moment {
    pub secs: u64,
    pub nanos: u32,
}

impl Moment {
    /// The nanoseconds are less than a second.
    pub open spec fn wf(&self) -> bool {
        self.nanos < 1_000_000_000
    }

    /// The moment `nanos` nanoseconds after second `secs`, or none where
    /// `nanos` is a second or more.
    pub fn new(secs: u64, nanos: u32) -> (m: Option<Moment>)
        ensures
            m is Some <==> nanos < 1_000_000_000,
            m is Some ==> m->0 == (Moment { secs, nanos }),
    {
        if nanos < 1_000_000_000 {
            Some(Moment { secs, nanos })
        } else {
            None
        }
    }
}

/// The time from the second `commit_time` up to `now`, as seconds and
/// nanoseconds; nothing where the commit lies ahead of `now`.
pub open spec fn elapsed_since(now: Moment, commit_time: u64) -> (u64, u32) {
    if now.secs >= commit_time {
        ((now.secs - commit_time) as u64, now.nanos)
    } else {
        (0, 0)
    }
}

/// The text that `human_units` gives a duration of `secs` seconds and `nanos` nanoseconds.
pub uninterp spec fn formatted_duration(secs: u64, nanos: u32) -> Seq<char>;

/// Calls `human_units::FormatDuration::format_duration` on a
/// `human_units::Duration` and takes the text that the formatted duration
/// displays as. The duration is built with `std::time::Duration::new`, which
/// panics where the nanoseconds carry over the last second: `requires` keeps
/// them under a second. The text depends on the duration alone; the contract
/// gives it the name `formatted_duration` and says nothing more of it.
#[verifier::external_body]
fn format_age(secs: u64, nanos: u32) -> (text: String)
    requires
        nanos < 1_000_000_000,
    ensures
        text@ == formatted_duration(secs, nanos),
{
    human_units::Duration(std::time::Duration::new(secs, nanos)).format_duration().to_string()
}

/// The marker that follows the name of a branch with an upstream.
pub open spec fn upstream_marker(has_upstream: bool) -> Seq<char> {
    if has_upstream {
        " (🔭)"@
    } else {
        Seq::empty()
    }
}

/// The author as the label shows it: `no-name` where there is none.
pub open spec fn author_or_placeholder(author: Option<Seq<char>>) -> Seq<char> {
    match author {
        Some(a) => a,
        None => "no-name"@,
    }
}

/// The label of a candidate whose age reads `ago`.
pub open spec fn label_text(choice: ChoiceView, ago: Seq<char>) -> Seq<char> {
    choice.branch_name + upstream_marker(choice.upstream_name is Some) + " 🧒 "@
        + author_or_placeholder(choice.author_name) + " ⏰ "@ + ago + " ago"@
}

/// The headers of the summary table.
pub open spec fn summary_headers() -> Seq<Seq<char>> {
    seq!["Local"@, "Author"@, "Remote"@]
}

/// The text of an optional field in the summary table: blank where it is absent.
pub open spec fn or_blank(field: Option<Seq<char>>) -> Seq<char> {
    match field {
        Some(t) => t,
        None => Seq::empty(),
    }
}

/// The character that opens a terminal control sequence.
pub open spec fn escape() -> char {
    '\x1b'
}

/// Whether a control sequence opens at position `i` of `text`: an escape
/// character there, directly followed by `[`.
pub open spec fn sequence_opens_at(text: Seq<char>, i: int) -> bool {
    0 <= i && i + 1 < text.len() && text[i] == escape() && text[i + 1] == '['
}

/// Whether `text` holds an escape character directly followed by `[`.
pub open spec fn opens_sequence(text: Seq<char>) -> bool {
    exists|i: int| sequence_opens_at(text, i)
}

/// Whether the table can measure a cell. It cannot where the text opens a
/// control sequence and is shorter than four bytes.
pub open spec fn measurable(text: Seq<char>) -> bool {
    !(opens_sequence(text) && encode_utf8(text).len() < 4)
}

/// A text as it stands in a cell of the table: the text itself where the
/// table can measure it, else the text without its escape characters.
pub open spec fn cell_text(text: Seq<char>) -> Seq<char> {
    if measurable(text) {
        text
    } else {
        text.filter(|c: char| c != escape())
    }
}

/// The summary row of a candidate: local name, author, remote name.
pub open spec fn summary_row(choice: ChoiceView) -> Seq<Seq<char>> {
    seq![
        cell_text(choice.branch_name),
        cell_text(or_blank(choice.author_name)),
        cell_text(or_blank(choice.upstream_name)),
    ]
}

/// The summary rows of a selection, in its order.
pub open spec fn summary_of(chosen: Seq<ChoiceView>) -> Seq<Seq<Seq<char>>> {
    chosen.map_values(|c: ChoiceView| summary_row(c))
}

/// The characters of each cell of each row.
pub open spec fn row_texts(rows: Seq<Vec<String>>) -> Seq<Seq<Seq<char>>> {
    rows.map_values(|r: Vec<String>| texts(r@))
}

/// The text that `verynicetable` renders for a table with these headers and rows.
pub uninterp spec fn rendered_table(headers: Seq<Seq<char>>, rows: Seq<Seq<Seq<char>>>) -> Seq<char>;

/// Builds a `verynicetable::Table` with `Table::headers` and `Table::data`
/// and renders it through its `Display` impl. The crate panics where a row
/// has more or fewer cells than there are headers, and where a header or a
/// cell holds an escape character directly followed by `[` in fewer than
/// four bytes (it takes four from the byte length): `requires` leaves out
/// these two and nothing else. The
/// text depends on headers and rows alone; the contract gives it the name
/// `rendered_table` and says nothing more of it.
#[verifier::external_body]
fn render_table(headers: &Vec<String>, rows: &Vec<Vec<String>>) -> (out: String)
    requires
        forall|i: int| 0 <= i < rows.len() ==> (#[trigger] rows[i]).len() == headers.len(),
        forall|j: int| 0 <= j < headers.len() ==> measurable((#[trigger] headers[j])@),
        forall|i: int, j: int|
            0 <= i < rows.len() && 0 <= j < rows[i].len() ==> measurable((#[trigger] rows[i][j])@),
    ensures
        out@ == rendered_table(texts(headers@), row_texts(rows@)),
{
    verynicetable::Table::new().headers(headers.as_slice()).data(rows.as_slice()).to_string()
}

/// Puts a candidate's label together: the name, a marker where the branch
/// has an upstream, the author or `no-name`, and the age.
pub fn compose_label(choice: &BranchChoice, ago: &str) -> (label: String)
    ensures
        label@ == label_text(choice@, ago@),
{
    let mut label = choice.branch_name.clone();
    match &choice.upstream_name {
        Some(_) => {
            label.append(" (🔭)");
        },
        None => {
            assert(label@ + Seq::<char>::empty() =~= label@);
        },
    }
    label.append(" 🧒 ");
    match &choice.author_name {
        Some(a) => {
            label.append(a.as_str());
        },
        None => {
            label.append("no-name");
        },
    }
    label.append(" ⏰ ");
    label.append(ago);
    label.append(" ago");
    label
}

impl BranchChoice {
    /// The label under which the candidate appears in the selection list at
    /// the moment `now`. The age is counted from the tip commit to `now`.
    pub fn label(&self, now: &Moment) -> (label: String)
        requires
            now.wf(),
        ensures
            label@ == label_text(
                self@,
                formatted_duration(
                    elapsed_since(*now, self.commit_time).0,
                    elapsed_since(*now, self.commit_time).1,
                ),
            ),
    {
        let ago = if now.secs >= self.commit_time {
            format_age(now.secs - self.commit_time, now.nanos)
        } else {
            format_age(0, 0)
        };
        compose_label(self, ago.as_str())
    }
}

/// Whether `text` holds an escape character directly followed by `[`.
pub fn has_sequence_opener(text: &str) -> (found: bool)
    ensures
        found == opens_sequence(text@),
{
    let n = text.unicode_len();
    if n < 2 {
        return false;
    }
    let mut i: usize = 0;
    while i < n - 1
        invariant
            2 <= n,
            i <= n - 1,
            n == text@.len(),
            forall|j: int| 0 <= j < i ==> !sequence_opens_at(text@, j),
        decreases n - i,
    {
        if text.get_char(i) == '\x1b' && text.get_char(i + 1) == '[' {
            assert(sequence_opens_at(text@, i as int));
            return true;
        }
        i += 1;
    }
    false
}

/// A text as it stands in a cell of the table: the text itself, unless it
/// opens a control sequence in fewer than four bytes. Such a text, which the
/// table cannot measure, stands there without its escape characters.
pub fn table_cell(text: &str) -> (cell: String)
    ensures
        cell@ == cell_text(text@),
        measurable(cell@),
{
    let bytes = text.as_bytes().len();
    if bytes >= 4 || !has_sequence_opener(text) {
        return String::from_str(text);
    }
    let n = text.unicode_len();
    let ghost keep = |c: char| c != escape();
    let mut cell = String::new();
    let mut i: usize = 0;
    proof {
        assert(text@.take(0).filter(keep) =~= Seq::<char>::empty()) by {
            text@.take(0).lemma_filter_len(keep);
        }
    }
    while i < n
        invariant
            i <= n,
            n == text@.len(),
            keep == (|c: char| c != escape()),
            cell@ == text@.take(i as int).filter(keep),
        decreases n - i,
    {
        proof {
            assert(text@.take(i + 1) =~= text@.take(i as int).push(text@[i as int]));
            text@.take(i as int).lemma_filter_push(text@[i as int], keep);
        }
        if text.get_char(i) != '\x1b' {
            let one = text.substring_char(i, i + 1);
            assert(one@ =~= seq![text@[i as int]]);
            let ghost before = cell@;
            cell.append(one);
            assert(cell@ =~= before.push(text@[i as int]));
        }
        i += 1;
    }
    proof {
        assert(text@.take(n as int) =~= text@);
        assert(!opens_sequence(cell@)) by {
            if opens_sequence(cell@) {
                let k = choose|k: int| sequence_opens_at(cell@, k);
                text@.lemma_filter_pred(keep, k);
            }
        }
    }
    cell
}

/// The rows of the summary table for a selection.
pub fn summary_rows(chosen: &Vec<BranchChoice>) -> (rows: Vec<Vec<String>>)
    ensures
        row_texts(rows@) == summary_of(choice_views(chosen@)),
        rows@.len() == chosen@.len(),
        forall|i: int| 0 <= i < rows.len() ==> (#[trigger] rows[i]).len() == 3,
        forall|i: int, j: int|
            0 <= i < rows.len() && 0 <= j < rows[i].len() ==> measurable((#[trigger] rows[i][j])@),
{
    let mut rows: Vec<Vec<String>> = Vec::new();
    let mut i: usize = 0;
    while i < chosen.len()
        invariant
            i <= chosen.len(),
            rows.len() == i,
            forall|k: int| 0 <= k < i ==> (#[trigger] rows[k]).len() == 3,
            forall|k: int| 0 <= k < i ==> texts((#[trigger] rows[k])@) == summary_row(chosen[k]@),
            forall|k: int, j: int|
                0 <= k < i && 0 <= j < rows[k].len() ==> measurable((#[trigger] rows[k][j])@),
        decreases chosen.len() - i,
    {
        let c = &chosen[i];
        let author = match &c.author_name {
            Some(a) => table_cell(a.as_str()),
            None => table_cell(""),
        };
        let remote = match &c.upstream_name {
            Some(u) => table_cell(u.as_str()),
            None => table_cell(""),
        };
        proof {
            reveal_strlit("");
            assert(""@ =~= Seq::<char>::empty());
            assert(!opens_sequence(""@));
        }
        let mut row: Vec<String> = Vec::new();
        row.push(table_cell(c.branch_name.as_str()));
        row.push(author);
        row.push(remote);
        assert(texts(row@) =~= summary_row(c@));
        rows.push(row);
        i += 1;
    }
    assert(row_texts(rows@) =~= summary_of(choice_views(chosen@)));
    rows
}

/// Sets a rendered table on a line of its own.
pub fn frame_summary(table: &str) -> (out: String)
    ensures
        out@ == "\n"@ + table@,
{
    let mut out = String::from_str("\n");
    out.append(table);
    out
}

/// The summary of a selection: a table of local name, author and remote
/// name, one row for each chosen branch in the order chosen, after a line
/// break. Author and remote name are blank where the branch has none.
pub fn format_final_answers(chosen: &Vec<BranchChoice>) -> (out: String)
    ensures
        out@ == "\n"@ + rendered_table(summary_headers(), summary_of(choice_views(chosen@))),
{
    let mut headers: Vec<String> = Vec::new();
    headers.push(String::from_str("Local"));
    headers.push(String::from_str("Author"));
    headers.push(String::from_str("Remote"));
    proof {
        reveal_strlit("Local");
        reveal_strlit("Author");
        reveal_strlit("Remote");
        assert(texts(headers@) =~= summary_headers());
        assert forall|j: int| 0 <= j < headers.len() implies measurable((#[trigger] headers[j])@) by {
            assert(forall|i: int| !sequence_opens_at(headers[j]@, i));
        }
    }
    let rows = summary_rows(chosen);
    let table = render_table(&headers, &rows);
    frame_summary(table.as_str())
}

/// How the selection list is drawn.
#[derive(Clone, Debug, PartialEq, Eq)]
pub struct RenderSettings {
    /// Shown above the list where entries are hidden further up.
    pub scroll_up_prefix: String,
    /// Shown below the list where entries are hidden further down.
    pub scroll_down_prefix: String,
}

/// The list settings of this tool: plain triangles mark hidden entries.
pub fn get_render_config() -> (settings: RenderSettings)
    ensures
        settings.scroll_up_prefix@ == "▲"@,
        settings.scroll_down_prefix@ == "▼"@,
{
    RenderSettings {
        scroll_up_prefix: String::from_str("▲"),
        scroll_down_prefix: String::from_str("▼"),
    }
}

} // verus!

//! What editing and showing a line come down to, in terms of the clusters of the line, of the
//! keys that are pressed, and of the bytes that reach the terminal.

use crate::input::{Command, InputEvent, KeyCode, KeyEvent};
use crate::line_state::LineModel;
use vstd::prelude::*;

verus! {

/// How many characters the first `count` clusters hold.
pub open spec fn place(clusters: Seq<Seq<char>>, count: int) -> nat {
    clusters.take(count).flatten().len()
}

/// Whether the clusters from `from` up to `to` are all whitespace, or all not: a cluster is
/// what its first character is.
pub open spec fn all_blank(clusters: Seq<Seq<char>>, from: int, to: int, blank: bool) -> bool {
    forall|k: int|
        from <= k < to ==> crate::unicode::white_space((#[trigger] clusters[k])[0]) == blank
}

/// Whether the cursor is at the first place at or behind `from` where a cluster starts or the
/// line ends.
pub open spec fn first_boundary(line: Seq<char>, from: nat, cursor: nat) -> bool {
    let clusters = crate::unicode::grapheme_clusters(line);
    exists|k: int|
        #![trigger place(clusters, k)]
        {
            &&& 0 <= k <= clusters.len()
            &&& cursor == place(clusters, k)
            &&& cursor >= from
            &&& k > 0 ==> place(clusters, k - 1) < from
        }
}

/// Whether the line is well segmented, and the cursor is behind the first `count` clusters.
pub open spec fn behind_clusters(state: LineModel, count: int) -> bool {
    let clusters = crate::unicode::grapheme_clusters(state.line);
    &&& crate::unicode::well_segmented(state.line)
    &&& 0 <= count <= clusters.len()
    &&& state.cursor == place(clusters, count)
}

proof fn lemma_cut(clusters: Seq<Seq<char>>, count: int)
    requires
        0 <= count <= clusters.len(),
    ensures
        place(clusters, count) <= clusters.flatten().len(),
        place(clusters, count) == crate::unicode::cluster_start(clusters, count),
        clusters.flatten().take(place(clusters, count) as int) == clusters.take(count).flatten(),
        clusters.flatten().skip(place(clusters, count) as int) == clusters.skip(count).flatten(),
{
    crate::unicode::lemma_cluster_start(clusters, count);
    vstd::seq_lib::lemma_flatten_concat(clusters.take(count), clusters.skip(count));
    assert(clusters.take(count) + clusters.skip(count) =~= clusters);
    let whole = clusters.take(count).flatten() + clusters.skip(count).flatten();
    assert(clusters.flatten() =~= whole);
    assert(whole.take(place(clusters, count) as int) =~= clusters.take(count).flatten());
    assert(whole.skip(place(clusters, count) as int) =~= clusters.skip(count).flatten());
}

proof fn lemma_cluster_is_found(clusters: Seq<Seq<char>>, count: int)
    requires
        0 <= count <= clusters.len(),
        forall|i: int| 0 <= i < clusters.len() ==> (#[trigger] clusters[i]).len() > 0,
    ensures
        crate::unicode::cluster_at_or_after(clusters, place(clusters, count), 0) == count,
{
    let position = place(clusters, count);
    lemma_cut(clusters, count);
    let found = crate::unicode::cluster_at_or_after(clusters, position, 0);
    crate::unicode::lemma_cluster_at_or_after(clusters, position, 0);
    if found < count {
        crate::line_state::lemma_starts_differ(clusters, found, count);
    }
    if found > count {
        assert(crate::unicode::cluster_start(clusters, count) < position);
    }
}

proof fn lemma_snapped(line: Seq<char>, from: nat)
    requires
        crate::unicode::grapheme_clusters(line).flatten() == line,
        from <= line.len(),
    ensures
        first_boundary(line, from, crate::line_state::snapped(line, from)),
{
    let clusters = crate::unicode::grapheme_clusters(line);
    let found = crate::unicode::cluster_at_or_after(clusters, from, 0);
    crate::unicode::lemma_cluster_at_or_after(clusters, from, 0);
    lemma_cut(clusters, found);
    if found > 0 {
        lemma_cut(clusters, found - 1);
        assert(crate::unicode::cluster_start(clusters, found - 1) < from);
    }
    assert(crate::line_state::snapped(line, from) == place(clusters, found));
}

proof fn lemma_skip_back(clusters: Seq<Seq<char>>, from: int, to: int, blank: bool)
    requires
        0 <= from <= to <= clusters.len(),
        all_blank(clusters, from, to, blank),
        from > 0 ==> crate::unicode::white_space(clusters[from - 1][0]) != blank,
    ensures
        crate::unicode::skip_back(clusters, to, blank) == from,
    decreases to - from,
{
    if from < to {
        assert(crate::unicode::white_space(clusters[to - 1][0]) == blank);
        lemma_skip_back(clusters, from, to - 1, blank);
    }
}

proof fn lemma_skip_forward(clusters: Seq<Seq<char>>, from: int, to: int, blank: bool)
    requires
        0 <= from <= to <= clusters.len(),
        all_blank(clusters, from, to, blank),
        to < clusters.len() ==> crate::unicode::white_space(clusters[to][0]) != blank,
    ensures
        crate::unicode::skip_forward(clusters, from, blank) == to,
    decreases to - from,
{
    if from < to {
        assert(crate::unicode::white_space(clusters[from][0]) == blank);
        lemma_skip_forward(clusters, from + 1, to, blank);
    }
}

/// What is typed comes between what was left and what was right of the cursor, and the cursor
/// ends up behind it: at the first boundary there.
pub proof fn law_typing_inserts_at_the_cursor(state: LineModel, c: char)
    requires
        state.cursor <= state.line.len(),
    ensures
        ({
            let after = state.edited(Command::Insert(c));
            &&& after.line.len() == state.line.len() + 1
            &&& forall|i: int| 0 <= i < state.cursor ==> #[trigger] after.line[i] == state.line[i]
            &&& after.line[state.cursor as int] == c
            &&& forall|i: int|
                state.cursor < i < after.line.len() ==> #[trigger] after.line[i] == state.line[i
                    - 1]
            &&& crate::unicode::well_segmented(after.line) ==> first_boundary(
                after.line,
                state.cursor + 1,
                after.cursor,
            )
        }),
{
    let after = state.edited(Command::Insert(c));
    if crate::unicode::well_segmented(after.line) {
        lemma_snapped(after.line, state.cursor + 1);
    }
}

/// Left and Right go over exactly one cluster, and stay where there is none. Neither changes
/// the line.
pub proof fn law_arrows_go_over_one_cluster(state: LineModel, count: int)
    ensures
        behind_clusters(state, count) ==> {
            let clusters = crate::unicode::grapheme_clusters(state.line);
            let left = state.edited(Command::MoveLeft);
            let right = state.edited(Command::MoveRight);
            &&& left.line == state.line && right.line == state.line
            &&& left.cursor == if count > 0 {
                place(clusters, count - 1)
            } else {
                0
            }
            &&& right.cursor == if count < clusters.len() {
                place(clusters, count + 1)
            } else {
                state.line.len()
            }
        },
{
    if behind_clusters(state, count) {
        let clusters = crate::unicode::grapheme_clusters(state.line);
        lemma_cluster_is_found(clusters, count);
        lemma_cut(clusters, count);
        if count > 0 {
            lemma_cut(clusters, count - 1);
        }
        if count < clusters.len() {
            lemma_cut(clusters, count + 1);
        }
        crate::unicode::lemma_cluster_start(clusters, clusters.len() as int);
    }
}

/// Home goes to the start of the line and End to its end, and neither changes the line.
pub proof fn law_home_and_end(state: LineModel)
    ensures
        state.edited(Command::MoveToStart).line == state.line,
        state.edited(Command::MoveToStart).cursor == 0,
        state.edited(Command::MoveToEnd).line == state.line,
        state.edited(Command::MoveToEnd).cursor == state.line.len(),
{
}

/// Backspace removes exactly the cluster left of the cursor, and nothing where there is none.
pub proof fn law_backspace_removes_one_cluster(state: LineModel, count: int)
    ensures
        behind_clusters(state, count) ==> {
            let clusters = crate::unicode::grapheme_clusters(state.line);
            let after = state.edited(Command::EraseLeft);
            let kept = if count > 0 {
                count - 1
            } else {
                0
            };
            &&& after.line == clusters.take(kept).flatten() + clusters.skip(count).flatten()
            &&& count == 0 ==> after.line == state.line
            &&& crate::unicode::well_segmented(after.line) ==> first_boundary(
                after.line,
                place(clusters, kept),
                after.cursor,
            )
        },
{
    if behind_clusters(state, count) {
        let clusters = crate::unicode::grapheme_clusters(state.line);
        let after = state.edited(Command::EraseLeft);
        let kept = if count > 0 {
            count - 1
        } else {
            0
        };
        lemma_cluster_is_found(clusters, count);
        lemma_cut(clusters, count);
        lemma_cut(clusters, kept);
        assert(after.line =~= clusters.take(kept).flatten() + clusters.skip(count).flatten());
        if count == 0 {
            assert(clusters.skip(0) =~= clusters);
            assert(clusters.take(0).flatten() =~= Seq::<char>::empty());
            assert(after.line =~= state.line);
        }
        if crate::unicode::well_segmented(after.line) {
            lemma_snapped(after.line, place(clusters, kept));
        }
    }
}

/// Delete removes exactly the cluster right of the cursor, and nothing where there is none.
pub proof fn law_delete_removes_one_cluster(state: LineModel, count: int)
    ensures
        behind_clusters(state, count) ==> {
            let clusters = crate::unicode::grapheme_clusters(state.line);
            let after = state.edited(Command::EraseRight);
            let dropped = if count < clusters.len() {
                count + 1
            } else {
                count
            };
            &&& after.line == clusters.take(count).flatten() + clusters.skip(dropped).flatten()
            &&& count == clusters.len() ==> after.line == state.line
            &&& crate::unicode::well_segmented(after.line) ==> first_boundary(
                after.line,
                state.cursor,
                after.cursor,
            )
        },
{
    if behind_clusters(state, count) {
        let clusters = crate::unicode::grapheme_clusters(state.line);
        let after = state.edited(Command::EraseRight);
        let dropped = if count < clusters.len() {
            count + 1
        } else {
            count
        };
        lemma_cluster_is_found(clusters, count);
        lemma_cut(clusters, count);
        lemma_cut(clusters, dropped);
        assert(after.line =~= clusters.take(count).flatten() + clusters.skip(dropped).flatten());
        if count == clusters.len() {
            assert(clusters.take(count) =~= clusters);
            assert(clusters.skip(count).flatten() =~= Seq::<char>::empty());
            assert(after.line =~= state.line);
        }
        if crate::unicode::well_segmented(after.line) {
            lemma_snapped(after.line, state.cursor);
        }
    }
}

/// Whether `word` is where the last word before the cluster `count` starts, and `gap` where it
/// ends: between them there is no whitespace, and behind `gap` there is nothing else; before
/// `word` there is whitespace, or nothing. Without any word both are the start of the line.
pub open spec fn last_word(clusters: Seq<Seq<char>>, word: int, gap: int, count: int) -> bool {
    &&& 0 <= word <= gap <= count <= clusters.len()
    &&& all_blank(clusters, word, gap, false)
    &&& all_blank(clusters, gap, count, true)
    &&& word > 0 ==> crate::unicode::white_space(clusters[word - 1][0])
    &&& word < gap || gap == 0
}

/// Whether `word` is where the next word from the cluster `count` on starts, and `end` where it
/// ends: before `word` there is only whitespace, and between them there is none; behind `end`
/// there is whitespace, or nothing. Without any word both are the end of the line.
pub open spec fn next_word(clusters: Seq<Seq<char>>, count: int, word: int, end: int) -> bool {
    &&& 0 <= count <= word <= end <= clusters.len()
    &&& all_blank(clusters, count, word, true)
    &&& all_blank(clusters, word, end, false)
    &&& end < clusters.len() ==> crate::unicode::white_space(clusters[end][0])
    &&& word < end || word == clusters.len()
}

proof fn lemma_skipped_back(clusters: Seq<Seq<char>>, to: int, blank: bool)
    requires
        0 <= to <= clusters.len(),
    ensures
        ({
            let from = crate::unicode::skip_back(clusters, to, blank);
            &&& 0 <= from <= to
            &&& all_blank(clusters, from, to, blank)
            &&& from > 0 ==> crate::unicode::white_space(clusters[from - 1][0]) != blank
        }),
    decreases to,
{
    if to > 0 && crate::unicode::blank_cluster(clusters[to - 1]) == blank {
        lemma_skipped_back(clusters, to - 1, blank);
    }
}

proof fn lemma_skipped_forward(clusters: Seq<Seq<char>>, from: int, blank: bool)
    requires
        0 <= from <= clusters.len(),
    ensures
        ({
            let to = crate::unicode::skip_forward(clusters, from, blank);
            &&& from <= to <= clusters.len()
            &&& all_blank(clusters, from, to, blank)
            &&& to < clusters.len() ==> crate::unicode::white_space(clusters[to][0]) != blank
        }),
    decreases clusters.len() - from,
{
    if from < clusters.len() && crate::unicode::blank_cluster(clusters[from]) == blank {
        lemma_skipped_forward(clusters, from + 1, blank);
    }
}

/// Wherever the cursor is, there is a last word before it and a next word behind it, in the
/// sense that also covers lines without words.
pub proof fn law_words_are_found_everywhere(clusters: Seq<Seq<char>>, count: int)
    requires
        0 <= count <= clusters.len(),
    ensures
        exists|word: int, gap: int| last_word(clusters, word, gap, count),
        exists|word: int, end: int| next_word(clusters, count, word, end),
{
    let gap = crate::unicode::skip_back(clusters, count, true);
    let word = crate::unicode::skip_back(clusters, gap, false);
    lemma_skipped_back(clusters, count, true);
    lemma_skipped_back(clusters, gap, false);
    if word == gap && gap > 0 {
        assert(crate::unicode::white_space(clusters[gap - 1][0]) != true);
    }
    assert(last_word(clusters, word, gap, count));
    let start = crate::unicode::skip_forward(clusters, count, true);
    let end = crate::unicode::skip_forward(clusters, start, false);
    lemma_skipped_forward(clusters, count, true);
    lemma_skipped_forward(clusters, start, false);
    if start == end && start < clusters.len() {
        assert(crate::unicode::white_space(clusters[start][0]) != true);
    }
    assert(next_word(clusters, count, start, end));
}

proof fn lemma_previous_whitespace(state: LineModel, word: int, gap: int, count: int)
    requires
        behind_clusters(state, count),
        last_word(crate::unicode::grapheme_clusters(state.line), word, gap, count),
    ensures
        state.previous_whitespace() == place(
            crate::unicode::grapheme_clusters(state.line),
            word,
        ),
        state.previous_whitespace() <= state.cursor,
{
    let clusters = crate::unicode::grapheme_clusters(state.line);
    lemma_cluster_is_found(clusters, count);
    if word < gap {
        assert(crate::unicode::white_space(clusters[gap - 1][0]) == false);
    }
    lemma_skip_back(clusters, gap, count, true);
    lemma_skip_back(clusters, word, gap, false);
    lemma_cut(clusters, word);
    lemma_cut(clusters, count);
    if word < count {
        crate::line_state::lemma_starts_differ(clusters, word, count);
    }
}

/// Ctrl-W removes exactly what is between the start of the last word and the cursor: that word,
/// and the whitespace behind it. All that is before the word stays, and all that is right of
/// the cursor.
pub proof fn law_control_w_removes_one_word(
    state: LineModel,
    word: int,
    gap: int,
    count: int,
)
    ensures
        behind_clusters(state, count) && last_word(
            crate::unicode::grapheme_clusters(state.line),
            word,
            gap,
            count,
        ) ==> {
            let clusters = crate::unicode::grapheme_clusters(state.line);
            let after = state.edited(Command::EraseToPreviousWhitespace);
            &&& after.line == clusters.take(word).flatten() + clusters.skip(count).flatten()
            &&& crate::unicode::well_segmented(after.line) ==> first_boundary(
                after.line,
                place(clusters, word),
                after.cursor,
            )
        },
{
    let clusters = crate::unicode::grapheme_clusters(state.line);
    if behind_clusters(state, count) && last_word(clusters, word, gap, count) {
        let after = state.edited(Command::EraseToPreviousWhitespace);
        lemma_previous_whitespace(state, word, gap, count);
        lemma_cut(clusters, word);
        lemma_cut(clusters, count);
        assert(after.line =~= clusters.take(word).flatten() + clusters.skip(count).flatten());
        if crate::unicode::well_segmented(after.line) {
            lemma_snapped(after.line, place(clusters, word));
        }
    }
}

/// Ctrl-Left goes to the start of the last word before the cursor, and Ctrl-Right to the end of
/// the next word behind it. Neither changes the line.
pub proof fn law_control_arrows_go_over_one_word(
    state: LineModel,
    count: int,
    word: int,
    end: int,
)
    ensures
        behind_clusters(state, count) && last_word(
            crate::unicode::grapheme_clusters(state.line),
            word,
            end,
            count,
        ) ==> {
            let after = state.edited(Command::MoveToPreviousWhitespace);
            &&& after.line == state.line
            &&& after.cursor == place(crate::unicode::grapheme_clusters(state.line), word)
        },
        behind_clusters(state, count) && next_word(
            crate::unicode::grapheme_clusters(state.line),
            count,
            word,
            end,
        ) ==> {
            let after = state.edited(Command::MoveToNextWhitespace);
            &&& after.line == state.line
            &&& after.cursor == place(crate::unicode::grapheme_clusters(state.line), end)
        },
{
    let clusters = crate::unicode::grapheme_clusters(state.line);
    if behind_clusters(state, count) && last_word(clusters, word, end, count) {
        lemma_previous_whitespace(state, word, end, count);
    }
    if behind_clusters(state, count) && next_word(clusters, count, word, end) {
        lemma_cluster_is_found(clusters, count);
        if word < end {
            assert(crate::unicode::white_space(clusters[word][0]) == false);
        }
        lemma_skip_forward(clusters, count, word, true);
        lemma_skip_forward(clusters, word, end, false);
        lemma_cut(clusters, end);
    }
}

/// Ctrl-U removes exactly what is left of the cursor, and the cursor is then at the start.
pub proof fn law_control_u_removes_all_before_the_cursor(state: LineModel)
    requires
        state.cursor <= state.line.len(),
    ensures
        ({
            let after = state.edited(Command::EraseToStart);
            &&& after.line == state.line.skip(state.cursor as int)
            &&& after.cursor == 0
        }),
{
    assert(state.edited(Command::EraseToStart).line =~= state.line.skip(state.cursor as int));
}

/// Commands that are not there to edit the line leave it alone.
pub proof fn law_other_commands_do_not_edit(state: LineModel, command: Command)
    requires
        command is ClearScreen || command is HistoryOlder || command is HistoryNewer
            || command is Submit || command is Interrupt || command is EndOfInput
            || command is Nothing,
    ensures
        state.edited(command) == state,
{
}

/// Editing changes neither the prompt, nor the settings, nor the size of the terminal.
pub proof fn law_editing_keeps_settings(state: LineModel, command: Command)
    ensures
        ({
            let after = state.edited(command);
            &&& after.prompt == state.prompt
            &&& after.print_on_enter == state.print_on_enter
            &&& after.print_on_control_c == state.print_on_control_c
            &&& after.term_size == state.term_size
        }),
{
}

/// Each key does to the line what its name, or the habit of shells, says, and all other keys do
/// nothing. A key that stands for a character, pressed alone, always types that character,
/// whichever it is.
pub proof fn law_keys(state: LineModel, key: KeyEvent, history: crate::history::HistoryModel)
    requires
        state.cursor <= state.line.len(),
    ensures
        ({
            let handled = state.handled(InputEvent::Key(key), history);
            let ctrl = |c: char| key.code == KeyCode::Char(c) && key.control && !key.alt;
            &&& key.code is Char && !key.control && !key.alt ==> {
                let c = key.code->Char_0;
                &&& handled.state.line == state.line.take(state.cursor as int) + seq![c]
                    + state.line.skip(state.cursor as int)
                &&& handled.state == state.edited(Command::Insert(c))
            }
            &&& key.code == KeyCode::Left && !key.control ==> handled.state == state.edited(
                Command::MoveLeft,
            )
            &&& key.code == KeyCode::Right && !key.control ==> handled.state == state.edited(
                Command::MoveRight,
            )
            &&& key.code == KeyCode::Left && key.control ==> handled.state == state.edited(
                Command::MoveToPreviousWhitespace,
            )
            &&& key.code == KeyCode::Right && key.control ==> handled.state == state.edited(
                Command::MoveToNextWhitespace,
            )
            &&& key.code == KeyCode::Home || ctrl('a') ==> handled.state.cursor == 0
                && handled.state.line == state.line
            &&& key.code == KeyCode::End || ctrl('e') ==> handled.state.cursor == state.line.len()
                && handled.state.line == state.line
            &&& key.code == KeyCode::Backspace ==> handled.state == state.edited(
                Command::EraseLeft,
            )
            &&& key.code == KeyCode::Delete ==> handled.state == state.edited(Command::EraseRight)
            &&& ctrl('w') ==> handled.state == state.edited(Command::EraseToPreviousWhitespace)
            &&& ctrl('u') ==> handled.state.line == state.line.skip(state.cursor as int)
                && handled.state.cursor == 0
            &&& ctrl('l') ==> handled.state == state
            &&& handled.event == if key.code == KeyCode::Enter {
                Some(crate::readline::ReadlineEventModel::Line(state.line))
            } else if ctrl('c') {
                Some(crate::readline::ReadlineEventModel::Interrupted)
            } else if ctrl('d') {
                Some(crate::readline::ReadlineEventModel::Eof)
            } else {
                None
            }
            &&& key.code == KeyCode::Enter || ctrl('c') ==> handled.state.line.len() == 0
                && handled.state.cursor == 0
            &&& ctrl('d') ==> handled.state == state
            &&& key.code == KeyCode::Other || (key.code is Char && key.alt) || (key.code is Char
                && key.control && !(ctrl('a') || ctrl('c') || ctrl('d') || ctrl('e') || ctrl('l')
                || ctrl('u') || ctrl('w'))) ==> {
                &&& handled.state == state
                &&& handled.output.len() == 0
            }
        }),
{
    let handled = state.handled(InputEvent::Key(key), history);
    law_control_u_removes_all_before_the_cursor(state);
    assert(state.line.take(0) + Seq::<char>::empty() + state.line.skip(state.line.len() as int)
        =~= Seq::<char>::empty());
}

/// The up and down arrows put the entry that scrolling finds into the line, whole, with the
/// cursor behind it; the line stays if there is none. The history is scrolled, and no other key
/// touches it.
pub proof fn law_history_keys(
    state: LineModel,
    key: KeyEvent,
    history: crate::history::HistoryModel,
)
    ensures
        ({
            let handled = state.handled(InputEvent::Key(key), history);
            let found = if key.code == KeyCode::Up {
                history.next_text()
            } else {
                history.previous_text()
            };
            if key.code == KeyCode::Up || key.code == KeyCode::Down {
                &&& handled.history == if key.code == KeyCode::Up {
                    history.scrolled_next()
                } else {
                    history.scrolled_previous()
                }
                &&& handled.event is None
                &&& found is None ==> handled.state == state && handled.output.len() == 0
                &&& found matches Some(text) ==> {
                    &&& handled.state.line == text
                    &&& crate::unicode::well_segmented(text) ==> handled.state.cursor
                        == text.len()
                    &&& handled.output == vstd::utf8::encode_utf8(
                        state.clear_text() + handled.state.render_text(),
                    )
                }
            } else {
                handled.history == history
            }
        }),
{
    let handled = state.handled(InputEvent::Key(key), history);
    let found = if key.code == KeyCode::Up {
        history.next_text()
    } else {
        history.previous_text()
    };
    if key.code == KeyCode::Up || key.code == KeyCode::Down {
        if let Some(text) = found {
            assert(state.line.take(0) + text + state.line.skip(state.line.len() as int) =~= text);
            if crate::unicode::well_segmented(text) {
                let clusters = crate::unicode::grapheme_clusters(text);
                let at = crate::unicode::cluster_at_or_after(clusters, text.len(), 0);
                crate::unicode::lemma_cluster_at_or_after(clusters, text.len(), 0);
                crate::unicode::lemma_cluster_start(clusters, at);
            }
        }
    }
}

/// What comes of pressing the keys that stand for the characters of a text, each of them alone.
pub open spec fn pressed(
    state: LineModel,
    history: crate::history::HistoryModel,
    text: Seq<char>,
) -> (LineModel, crate::history::HistoryModel)
    decreases text.len(),
{
    if text.len() == 0 {
        (state, history)
    } else {
        let (line, scrolled) = pressed(state, history, text.drop_last());
        let key = KeyEvent { code: KeyCode::Char(text.last()), control: false, alt: false };
        let handled = line.handled(InputEvent::Key(key), scrolled);
        (handled.state, handled.history)
    }
}

proof fn lemma_plain_key(state: LineModel, history: crate::history::HistoryModel, c: char)
    ensures
        ({
            let key = KeyEvent { code: KeyCode::Char(c), control: false, alt: false };
            let handled = state.handled(InputEvent::Key(key), history);
            &&& handled.state == state.edited(Command::Insert(c))
            &&& handled.history == history
        }),
{
}

proof fn lemma_typed_at_the_end(state: LineModel, c: char)
    requires
        state.cursor == state.line.len(),
        crate::unicode::well_segmented(state.line.push(c)),
    ensures
        state.edited(Command::Insert(c)).line == state.line.push(c),
        state.edited(Command::Insert(c)).cursor == state.line.len() + 1,
{
    let after = state.edited(Command::Insert(c));
    assert(after.line =~= state.line.push(c));
    let clusters = crate::unicode::grapheme_clusters(after.line);
    let at = crate::unicode::cluster_at_or_after(clusters, after.line.len(), 0);
    crate::unicode::lemma_cluster_at_or_after(clusters, after.line.len(), 0);
    crate::unicode::lemma_cluster_start(clusters, at);
}

proof fn lemma_pressed_text(
    state: LineModel,
    history: crate::history::HistoryModel,
    text: Seq<char>,
)
    requires
        state.cursor == state.line.len(),
        forall|k: int|
            0 < k <= text.len() ==> crate::unicode::well_segmented(
                state.line + #[trigger] text.take(k),
            ),
    ensures
        pressed(state, history, text).0.line == state.line + text,
        pressed(state, history, text).0.cursor == state.line.len() + text.len(),
    decreases text.len(),
{
    if text.len() == 0 {
        assert(state.line + text =~= state.line);
    } else {
        let earlier = text.drop_last();
        let c = text.last();
        assert forall|k: int| 0 < k <= earlier.len() implies crate::unicode::well_segmented(
            state.line + #[trigger] earlier.take(k),
        ) by {
            assert(earlier.take(k) =~= text.take(k));
        }
        lemma_pressed_text(state, history, earlier);
        let (before, scrolled) = pressed(state, history, earlier);
        lemma_plain_key(before, scrolled, c);
        assert(before.line.push(c) =~= state.line + text);
        assert(text.take(text.len() as int) =~= text);
        lemma_typed_at_the_end(before, c);
    }
}

/// Whatever the text is, pressing the keys of its characters at the end of the line puts it
/// there, and Enter then gives all of it. The lines that occur on the way are taken to be well
/// segmented.
pub proof fn law_pressed_text_is_entered(
    state: LineModel,
    history: crate::history::HistoryModel,
    text: Seq<char>,
    enter: KeyEvent,
)
    requires
        state.cursor == state.line.len(),
        enter.code == KeyCode::Enter,
    ensures
        (forall|k: int|
            0 < k <= text.len() ==> crate::unicode::well_segmented(
                state.line + #[trigger] text.take(k),
            )) ==> {
            let (line, scrolled) = pressed(state, history, text);
            &&& line.line == state.line + text
            &&& line.cursor == line.line.len()
            &&& line.handled(InputEvent::Key(enter), scrolled).event == Some(
                crate::readline::ReadlineEventModel::Line(state.line + text),
            )
        },
{
    if forall|k: int|
        0 < k <= text.len() ==> crate::unicode::well_segmented(
            state.line + #[trigger] text.take(k),
        ) {
        lemma_pressed_text(state, history, text);
    }
}

/// Whether text of this width, from the first column on, ends in this row.
pub open spec fn ends_in_row(width: nat, columns: nat, row: nat) -> bool {
    if width == 0 {
        row == 0
    } else {
        row * columns < width <= (row + 1) * columns
    }
}

/// How many columns there are to write in.
pub open spec fn usable_columns(state: LineModel) -> nat {
    if state.term_size.0 == 0 {
        1
    } else {
        state.term_size.0 as nat
    }
}

proof fn lemma_row(width: nat, columns: nat, row: nat)
    requires
        columns > 0,
        ends_in_row(width, columns, row),
    ensures
        crate::line_state::row_after(width, columns) == row,
        width > 0 ==> ((width - 1) as nat) % columns == width - 1 - row * columns,
{
    if width > 0 {
        let rest = width - 1 - row * columns;
        assert((row + 1) * columns == row * columns + columns) by (nonlinear_arith);
        vstd::arithmetic::div_mod::lemma_fundamental_div_mod_converse(
            width - 1,
            columns as int,
            row as int,
            rest,
        );
    }
}

/// What moves the cursor up by some rows, as far as a terminal can be told to.
pub open spec fn going_up(rows: nat) -> Seq<char> {
    if rows == 0 {
        Seq::empty()
    } else {
        seq!['\u{1b}', '['] + crate::ansi::decimal(
            if rows > 65535 {
                65535
            } else {
                rows
            },
        ) + seq!['A']
    }
}

/// Erasing goes up from the row of the cursor to that of the prompt, then to the first column,
/// and clears all from there on.
pub proof fn law_erasing_starts_at_the_prompt(state: LineModel, row: nat)
    ensures
        ends_in_row(
            crate::unicode::display_width(state.prompt + state.line.take(state.cursor as int)),
            usable_columns(state),
            row,
        ) ==> state.clear_text() == going_up(row) + seq!['\u{1b}', '[', '1', 'G', '\u{1b}', '[', 'J'],
{
    let width = crate::unicode::display_width(
        state.prompt + state.line.take(state.cursor as int),
    );
    if ends_in_row(width, usable_columns(state), row) {
        lemma_row(width, usable_columns(state), row);
        crate::ansi::lemma_first_column();
        assert(crate::line_state::up_sequence(row) =~= going_up(row));
        assert(state.clear_text() =~= going_up(row) + seq![
            '\u{1b}',
            '[',
            '1',
            'G',
            '\u{1b}',
            '[',
            'J',
        ]);
    }
}

/// Showing writes the prompt and then the whole line; then it goes up from the row where the
/// line ends to that of the cursor, and to the column of the cursor. A cursor past the last
/// column is shown in the last one.
pub proof fn law_showing_writes_prompt_and_line(state: LineModel, row: nat, last: nat)
    ensures
        ({
            let width = crate::unicode::display_width(
                state.prompt + state.line.take(state.cursor as int),
            );
            let columns = usable_columns(state);
            let shown = state.render_text();
            let both = state.prompt.len() + state.line.len();
            let column = if width == 0 {
                0
            } else if width - row * columns < columns {
                width - row * columns
            } else {
                columns - 1
            };
            ends_in_row(width, columns, row) && ends_in_row(
                crate::unicode::display_width(state.prompt + state.line),
                columns,
                last,
            ) ==> {
                &&& shown.len() >= both
                &&& shown.take(state.prompt.len() as int) == state.prompt
                &&& shown.subrange(state.prompt.len() as int, both as int) == state.line
                &&& shown.skip(both as int) == going_up(
                    if last > row {
                        (last - row) as nat
                    } else {
                        0
                    },
                ) + seq!['\u{1b}', '['] + crate::ansi::decimal((column + 1) as nat) + seq!['G']
            }
        }),
{
    let width = crate::unicode::display_width(
        state.prompt + state.line.take(state.cursor as int),
    );
    let all = crate::unicode::display_width(state.prompt + state.line);
    let columns = usable_columns(state);
    if ends_in_row(width, columns, row) && ends_in_row(all, columns, last) {
        lemma_row(width, columns, row);
        lemma_row(all, columns, last);
        let back = if last > row {
            (last - row) as nat
        } else {
            0
        };
        let shown = state.render_text();
        let both = state.prompt.len() + state.line.len();
        assert(crate::line_state::up_sequence(back) =~= going_up(back));
        assert(shown.take(state.prompt.len() as int) =~= state.prompt);
        assert(shown.subrange(state.prompt.len() as int, both as int) =~= state.line);
        assert(shown.skip(both as int) =~= going_up(back) + seq!['\u{1b}', '[']
            + crate::ansi::decimal(state.cursor_column() + 1) + seq!['G']);
    }
}

/// Every key that edits the line has the old line erased and the new one shown. Ctrl-L does so
/// on a screen that is cleared first, and so does a change of size, at the new size. Events that
/// ask for nothing write nothing.
pub proof fn law_what_is_written_for_an_event(
    state: LineModel,
    event: InputEvent,
    history: crate::history::HistoryModel,
)
    ensures
        ({
            let handled = state.handled(event, history);
            let anew = vstd::utf8::encode_utf8(state.clear_text() + handled.state.render_text());
            match event {
                InputEvent::Key(key) => match key.bound_to() {
                    Command::Nothing => handled.output.len() == 0 && handled.state == state,
                    Command::EndOfInput => handled.output.len() == 0,
                    Command::ClearScreen => handled.output == vstd::utf8::encode_utf8(
                        seq!['\u{1b}', '[', '2', 'J'] + state.clear_text() + state.render_text(),
                    ),
                    Command::Submit => true,
                    Command::Interrupt => true,
                    Command::HistoryOlder => true,
                    Command::HistoryNewer => true,
                    _ => handled.output == anew,
                },
                InputEvent::Resize(columns, rows) => {
                    &&& handled.event is None
                    &&& handled.history == history
                    &&& handled.state == (LineModel { term_size: (columns, rows), ..state })
                    &&& handled.output == vstd::utf8::encode_utf8(
                        handled.state.clear_text() + handled.state.render_text(),
                    )
                },
                InputEvent::Other => {
                    &&& handled.event is None
                    &&& handled.history == history
                    &&& handled.state == state
                    &&& handled.output.len() == 0
                },
            }
        }),
{
    assert(crate::ansi::clear_sequence(crate::ansi::ClearType::All) =~= seq![
        '\u{1b}',
        '[',
        '2',
        'J',
    ]);
}

/// When the line is left with Enter or Ctrl-C, it is erased and the prompt is shown with an
/// empty line. In between, if that is wanted for the key, the prompt and the line are written
/// once more, whole, on a row that is then left.
pub proof fn law_a_left_line_stays_on_the_screen_if_wanted(
    state: LineModel,
    key: KeyEvent,
    history: crate::history::HistoryModel,
)
    requires
        key.code == KeyCode::Enter || (key.code == KeyCode::Char('c') && key.control && !key.alt),
    ensures
        ({
            let handled = state.handled(InputEvent::Key(key), history);
            let keep = if key.code == KeyCode::Enter {
                state.print_on_enter
            } else {
                state.print_on_control_c
            };
            let kept = if keep {
                state.prompt + state.line + seq!['\n', '\u{1b}', '[', '1', 'G']
            } else {
                Seq::empty()
            };
            &&& handled.state.line.len() == 0
            &&& handled.output == vstd::utf8::encode_utf8(
                state.clear_text() + kept + handled.state.render_text(),
            )
        }),
{
    let handled = state.handled(InputEvent::Key(key), history);
    let keep = if key.code == KeyCode::Enter {
        state.print_on_enter
    } else {
        state.print_on_control_c
    };
    crate::ansi::lemma_first_column();
    assert(state.line.take(0) + Seq::<char>::empty() + state.line.skip(state.line.len() as int)
        =~= Seq::<char>::empty());
    if keep {
        assert(state.prompt + state.line + seq!['\n'] + crate::ansi::move_to_column_sequence(0)
            =~= state.prompt + state.line + seq!['\n', '\u{1b}', '[', '1', 'G']);
    }
}

/// Bytes without what goes back to the first column behind each line feed.
pub open spec fn without_returns(bytes: Seq<u8>) -> Seq<u8>
    decreases bytes.len(),
{
    if bytes.len() == 0 {
        Seq::empty()
    } else if bytes[0] != 10 {
        seq![bytes[0]] + without_returns(bytes.skip(1))
    } else if bytes.len() <= 5 {
        seq![10u8]
    } else {
        seq![10u8] + without_returns(bytes.skip(5))
    }
}

/// Whether each line feed is followed by what goes back to the first column.
pub open spec fn returns_follow(bytes: Seq<u8>) -> bool {
    forall|i: int|
        0 <= i < bytes.len() && #[trigger] bytes[i] == 10 ==> {
            &&& i + 4 < bytes.len()
            &&& bytes[i + 1] == 27
            &&& bytes[i + 2] == 91
            &&& bytes[i + 3] == 49
            &&& bytes[i + 4] == 71
        }
}

proof fn lemma_go_back_bytes()
    ensures
        vstd::utf8::encode_utf8(crate::ansi::move_to_column_sequence(0)) == seq![
            27u8,
            91u8,
            49u8,
            71u8,
        ],
{
    crate::ansi::lemma_first_column();
    let chars = seq!['\u{1b}', '[', '1', 'G'];
    assert(vstd::utf8::is_ascii_chars(chars));
    vstd::utf8::is_ascii_chars_encode_utf8(chars);
    assert(vstd::utf8::encode_utf8(chars) =~= seq![27u8, 91u8, 49u8, 71u8]);
}

proof fn lemma_returns_are_all_that_is_added(data: Seq<u8>)
    ensures
        without_returns(crate::line_state::with_carriage_returns(data)) == data,
        returns_follow(crate::line_state::with_carriage_returns(data)),
    decreases data.len(),
{
    if data.len() > 0 {
        let first = seq![data[0]];
        let rest = data.skip(1);
        lemma_returns_are_all_that_is_added(rest);
        lemma_go_back_bytes();
        crate::line_state::law_data_is_written_in_order(first, rest);
        assert(first + rest =~= data);
        assert(first.drop_last() =~= Seq::<u8>::empty());
        assert(crate::line_state::with_carriage_returns(first.drop_last()) =~= Seq::<u8>::empty());
        let written = crate::line_state::with_carriage_returns(data);
        let others = crate::line_state::with_carriage_returns(rest);
        if data[0] == 10 {
            assert(written =~= seq![10u8, 27u8, 91u8, 49u8, 71u8] + others);
            assert(written.skip(5) =~= others);
            assert forall|i: int| 0 <= i < written.len() && #[trigger] written[i] == 10 implies {
                &&& i + 4 < written.len()
                &&& written[i + 1] == 27
                &&& written[i + 2] == 91
                &&& written[i + 3] == 49
                &&& written[i + 4] == 71
            } by {
                if i >= 5 {
                    assert(others[i - 5] == 10);
                }
            }
            if written.len() <= 5 {
                assert(others =~= Seq::<u8>::empty());
                assert(rest =~= Seq::<u8>::empty()) by {
                    assert(without_returns(others) =~= Seq::<u8>::empty());
                }
            }
            assert(without_returns(written) =~= data);
        } else {
            assert(written =~= seq![data[0]] + others);
            assert(written.skip(1) =~= others);
            assert forall|i: int| 0 <= i < written.len() && #[trigger] written[i] == 10 implies {
                &&& i + 4 < written.len()
                &&& written[i + 1] == 27
                &&& written[i + 2] == 91
                &&& written[i + 3] == 49
                &&& written[i + 4] == 71
            } by {
                assert(others[i - 1] == 10);
            }
            assert(without_returns(written) =~= data);
        }
    }
}

/// Data is shown whole above the line, whatever its length and whatever the terminal: first the
/// line is erased, and last it is shown again; what is written in between is all of the data,
/// byte for byte, and a line feed if the data does not end with one. Behind each line feed the
/// cursor goes back to the first column, and nothing else is added.
pub proof fn law_data_is_shown_whole(state: LineModel, data: Seq<u8>)
    ensures
        ({
            let bytes = state.print_bytes(data);
            let erased = vstd::utf8::encode_utf8(state.clear_text());
            let shown = vstd::utf8::encode_utf8(state.render_text());
            let between = bytes.subrange(
                erased.len() as int,
                bytes.len() - shown.len(),
            );
            &&& bytes.len() >= erased.len() + shown.len()
            &&& bytes.take(erased.len() as int) == erased
            &&& bytes.skip(bytes.len() - shown.len()) == shown
            &&& without_returns(between) == if data.len() > 0 && data.last() != 10 {
                data.push(10)
            } else {
                data
            }
            &&& returns_follow(between)
        }),
{
    let bytes = state.print_bytes(data);
    let erased = vstd::utf8::encode_utf8(state.clear_text());
    let shown = vstd::utf8::encode_utf8(state.render_text());
    let whole = if data.len() > 0 && data.last() != 10 {
        data.push(10)
    } else {
        data
    };
    lemma_returns_are_all_that_is_added(whole);
    let written = crate::line_state::with_carriage_returns(whole);
    assert(bytes =~= erased + written + shown);
    assert(bytes.take(erased.len() as int) =~= erased);
    assert(bytes.skip(bytes.len() - shown.len()) =~= shown);
    assert(bytes.subrange(erased.len() as int, bytes.len() - shown.len()) =~= written);
}

/// Showing one line in place of another erases that one and shows this one.
pub proof fn law_replacing_erases_and_shows(state: LineModel, other: LineModel)
    ensures
        state.replacing(other) == vstd::utf8::encode_utf8(
            other.clear_text() + state.render_text(),
        ),
{
}

/// The model of a line holds what its fields hold.
pub proof fn law_model_of_line(state: crate::line_state::LineState)
    ensures
        state@.line == state.line@,
        state@.cursor == state.cursor,
        state@.prompt == state.prompt@,
        state@.print_on_enter == state.should_print_line_on_enter,
        state@.print_on_control_c == state.should_print_line_on_control_c,
        state@.term_size == state.term_size,
{
}

} // verus!

//! The input history: newest entry first, bounded, and scrolled with a position.

use futures_channel::mpsc::{UnboundedReceiver, UnboundedSender};
use std::collections::VecDeque;
use vstd::prelude::*;

verus! {

/// How many entries a fresh history keeps at most.
pub const HISTORY_SIZE_MAX: usize = 1000;

#[verifier::external_type_specification]
#[verifier::external_body]
#[verifier::reject_recursive_types(T)]
pub struct ExUnboundedSender<T>(futures_channel::mpsc::UnboundedSender<T>);

#[verifier::external_type_specification]
#[verifier::external_body]
#[verifier::reject_recursive_types(T)]
pub struct ExUnboundedReceiver<T>(futures_channel::mpsc::UnboundedReceiver<T>);

/// The entries that have been put into the channel through this handle, oldest first.
pub uninterp spec fn sent_entries(sender: UnboundedSender<String>) -> Seq<Seq<char>>;

/// The channel that this handle puts entries into.
pub uninterp spec fn entry_channel(sender: UnboundedSender<String>) -> int;

/// Whether the channel of this handle is known to be closed: whether an entry that was to be
/// sent through it, or through the handle that it was cloned from, has been refused.
pub uninterp spec fn known_closed(sender: UnboundedSender<String>) -> bool;

/// The channel that this receiver takes entries from.
pub uninterp spec fn entry_source(receiver: UnboundedReceiver<String>) -> int;

/// Calls `futures_channel::mpsc::unbounded`: a new channel, with the receiver joined to the
/// sender, nothing sent yet and nothing refused.
#[verifier::external_body]
fn new_entry_channel() -> (pair: (UnboundedSender<String>, UnboundedReceiver<String>))
    ensures
        entry_channel(pair.0) == entry_source(pair.1),
        sent_entries(pair.0) == Seq::<Seq<char>>::empty(),
        !known_closed(pair.0),
{
    futures_channel::mpsc::unbounded()
}

/// Calls `UnboundedSender::clone`: another handle to the same channel, through which nothing
/// has been sent yet. A channel that is known to be closed is known to be so of both handles.
#[verifier::external_body]
pub(crate) fn clone_entry_sender(sender: &UnboundedSender<String>) -> (handle: UnboundedSender<
    String,
>)
    ensures
        entry_channel(handle) == entry_channel(*sender),
        sent_entries(handle) == Seq::<Seq<char>>::empty(),
        known_closed(handle) == known_closed(*sender),
{
    sender.clone()
}

/// Calls `UnboundedSender::unbounded_send`: on success the entry, and nothing else, is in the
/// channel; on failure nothing is. It fails for no other reason than that the channel is
/// closed, and a closed channel is never opened again: once an entry has been refused, so are
/// all that follow. When the channel is closed depends on the receiver, and is left unsaid.
#[verifier::external_body]
pub(crate) fn send_entry(sender: &mut UnboundedSender<String>, entry: String) -> (sent: bool)
    ensures
        entry_channel(*final(sender)) == entry_channel(*old(sender)),
        sent_entries(*final(sender)) == if sent {
            sent_entries(*old(sender)).push(entry@)
        } else {
            sent_entries(*old(sender))
        },
        known_closed(*final(sender)) == !sent,
        known_closed(*old(sender)) ==> !sent,
{
    sender.unbounded_send(entry).is_ok()
}

/// The texts of a sequence of strings.
pub open spec fn texts(strings: Seq<String>) -> Seq<Seq<char>> {
    strings.map_values(|s: String| s@)
}

/// What a history is, without its representation.
#[verifier::ext_equal]
pub struct HistoryModel {
    /// The entries, newest first.
    pub entries: Seq<Seq<char>>,
    /// The most entries that are kept.
    pub max_size: nat,
    /// The entry that was shown last while scrolling, if any.
    pub position: Option<nat>,
}

impl HistoryModel {
    /// Whether a line is left out of the history: it is empty, or repeats the newest entry.
    pub open spec fn ignores(self, line: Seq<char>) -> bool {
        line.len() == 0 || (self.entries.len() > 0 && self.entries[0] == line)
    }

    /// The history after a line has been offered to it.
    pub open spec fn updated(self, line: Seq<char>) -> HistoryModel {
        if self.ignores(line) {
            self
        } else {
            let grown = seq![line] + self.entries;
            HistoryModel {
                entries: if grown.len() > self.max_size {
                    grown.drop_last()
                } else {
                    grown
                },
                position: None,
                ..self
            }
        }
    }

    /// The position after scrolling one entry back in time.
    pub open spec fn next_position(self) -> Option<nat> {
        match self.position {
            Some(index) => if index + 1 < self.entries.len() {
                Some(index + 1)
            } else {
                Some(index)
            },
            None => if self.entries.len() > 0 {
                Some(0)
            } else {
                None
            },
        }
    }

    /// The history after scrolling one entry back in time.
    pub open spec fn scrolled_next(self) -> HistoryModel {
        HistoryModel { position: self.next_position(), ..self }
    }

    /// The text that is shown after scrolling one entry back in time.
    pub open spec fn next_text(self) -> Option<Seq<char>> {
        match self.next_position() {
            Some(index) => Some(self.entries[index as int]),
            None => None,
        }
    }

    /// The position after scrolling one entry forward in time.
    pub open spec fn previous_position(self) -> Option<nat> {
        match self.position {
            Some(index) => if index == 0 {
                None
            } else {
                Some((index - 1) as nat)
            },
            None => None,
        }
    }

    /// The history after scrolling one entry forward in time.
    pub open spec fn scrolled_previous(self) -> HistoryModel {
        HistoryModel { position: self.previous_position(), ..self }
    }

    /// The text that is shown after scrolling one entry forward in time: past the newest
    /// entry that is the empty text, and nothing at all while not scrolling.
    pub open spec fn previous_text(self) -> Option<Seq<char>> {
        match (self.position, self.previous_position()) {
            (None, _) => None,
            (Some(_), None) => Some(Seq::empty()),
            (Some(_), Some(index)) => Some(self.entries[index as int]),
        }
    }

    /// The history with another bound on its size: the oldest entries go.
    pub open spec fn resized(self, max_size: nat) -> HistoryModel {
        HistoryModel {
            entries: if self.entries.len() > max_size {
                self.entries.take(max_size as int)
            } else {
                self.entries
            },
            max_size,
            ..self
        }
    }

    /// Whether the position, if there is one, is that of an entry.
    pub open spec fn position_in_range(self) -> bool {
        self.position matches Some(index) ==> index < self.entries.len()
    }

    /// Whether scrolling forward ends at an entry, or past the newest one.
    pub open spec fn can_scroll_forward(self) -> bool {
        self.position matches Some(index) ==> index <= self.entries.len()
    }

    /// Whether the bound on the size is kept.
    pub open spec fn bounded(self) -> bool {
        self.entries.len() <= self.max_size
    }

    /// Whether there is neither an empty entry nor an entry that repeats its neighbour.
    pub open spec fn tidy(self) -> bool {
        &&& forall|i: int| 0 <= i < self.entries.len() ==> (#[trigger] self.entries[i]).len() > 0
        &&& forall|i: int, j: int|
            0 <= i && j == i + 1 && j < self.entries.len() ==> #[trigger] self.entries[i]
                != #[trigger] self.entries[j]
    }
}

/// The input history.
pub struct History {
    /// The entries, newest first.
    pub entries: VecDeque<String>,
    /// The most entries that are kept.
    pub max_size: usize,
    /// Takes lines that are to be offered to the history.
    pub sender: UnboundedSender<String>,
    /// The entry that was shown last while scrolling, if any.
    pub current_position: Option<usize>,
}

impl View for History {
    type V = HistoryModel;

    open spec fn view(&self) -> HistoryModel {
        HistoryModel {
            entries: texts(self.entries@),
            max_size: self.max_size as nat,
            position: match self.current_position {
                Some(index) => Some(index as nat),
                None => None,
            },
        }
    }
}

impl History {
    /// An empty history, with the receiving end of the channel that lines come through.
    pub fn new() -> (pair: (History, UnboundedReceiver<String>))
        ensures
            pair.0@ == (HistoryModel {
                entries: Seq::empty(),
                max_size: HISTORY_SIZE_MAX as nat,
                position: None,
            }),
            entry_channel(pair.0.sender) == entry_source(pair.1),
            sent_entries(pair.0.sender) == Seq::<Seq<char>>::empty(),
            !known_closed(pair.0.sender),
    {
        let (sender, receiver) = new_entry_channel();
        let history = History {
            entries: VecDeque::new(),
            max_size: HISTORY_SIZE_MAX,
            sender,
            current_position: None,
        };
        assert(history@.entries =~= Seq::empty());
        (history, receiver)
    }

    /// Offers a line that came through the channel to the history. `None` stands for a channel
    /// that has ended, and changes nothing.
    pub fn update(&mut self, maybe_line: Option<String>)
        ensures
            final(self)@ == match maybe_line {
                Some(line) => old(self)@.updated(line@),
                None => old(self)@,
            },
            final(self).sender == old(self).sender,
    {
        if let Some(line) = maybe_line {
            // Don't add the line if it is empty, or the same as the newest entry.
            if line.as_str().is_empty() {
                return;
            }
            if self.entries.len() > 0 && self.entries[0] == line {
                return;
            }
            let ghost before = self@.entries;
            let ghost text = line@;

            // Add the line to the front of the history.
            self.entries.push_front(line);
            assert(self@.entries =~= seq![text] + before);

            // Scrolling starts over from the newest entry.
            self.current_position = None;

            // Drop the oldest entry if there are too many now.
            if self.entries.len() > self.max_size {
                let _ = self.entries.pop_back();
                assert(self@.entries =~= (seq![text] + before).drop_last());
            }
        }
    }

    /// Scrolls one entry back in time, and stays at the oldest entry.
    pub fn search_next(&mut self, _current: &str) -> (found: Option<&str>)
        requires
            old(self)@.position_in_range(),
        ensures
            final(self)@ == old(self)@.scrolled_next(),
            final(self).sender == old(self).sender,
            found is Some <==> old(self)@.next_text() is Some,
            found matches Some(text) ==> Some(text@) == old(self)@.next_text(),
    {
        let position: Option<usize> = match self.current_position {
            Some(index) => if index < self.entries.len() - 1 {
                Some(index + 1)
            } else {
                Some(index)
            },
            None => if self.entries.len() > 0 {
                Some(0)
            } else {
                None
            },
        };
        self.current_position = position;
        match position {
            Some(index) => Some(self.entries[index].as_str()),
            None => None,
        }
    }

    /// Scrolls one entry forward in time; past the newest entry scrolling ends with the empty
    /// text.
    pub fn search_previous(&mut self, _current: &str) -> (found: Option<&str>)
        requires
            old(self)@.can_scroll_forward(),
        ensures
            final(self)@ == old(self)@.scrolled_previous(),
            final(self).sender == old(self).sender,
            found is Some <==> old(self)@.previous_text() is Some,
            found matches Some(text) ==> Some(text@) == old(self)@.previous_text(),
    {
        match self.current_position {
            Some(index) => if index == 0 {
                self.current_position = None;
                proof {
                    reveal_strlit("");
                }
                assert(""@ =~= Seq::<char>::empty());
                Some("")
            } else {
                let newer: usize = index - 1;
                self.current_position = Some(newer);
                Some(self.entries[newer].as_str())
            },
            None => None,
        }
    }

    /// Sets the most entries that are kept, and drops the oldest entries that are too many.
    pub fn set_max_size(&mut self, max_size: usize)
        ensures
            final(self)@ == old(self)@.resized(max_size as nat),
            final(self).sender == old(self).sender,
    {
        self.max_size = max_size;
        self.entries.truncate(max_size);
        assert(self@.entries =~= old(self)@.resized(max_size as nat).entries);
    }

    /// Whether the position, if there is one, is that of an entry.
    pub fn is_position_in_range(&self) -> (in_range: bool)
        ensures
            in_range == self@.position_in_range(),
    {
        match self.current_position {
            Some(index) => index < self.entries.len(),
            None => true,
        }
    }

    /// Whether scrolling forward ends at an entry, or past the newest one.
    pub fn can_scroll_forward(&self) -> (can_scroll: bool)
        ensures
            can_scroll == self@.can_scroll_forward(),
    {
        match self.current_position {
            Some(index) => index <= self.entries.len(),
            None => true,
        }
    }
}

/// A history that keeps its bound still does after a line has been offered to it; one that is
/// resized always does.
pub proof fn law_size_stays_bounded(history: HistoryModel, line: Seq<char>, max_size: nat)
    ensures
        history.bounded() ==> history.updated(line).bounded(),
        history.resized(max_size).bounded(),
{
}

/// No empty entry and no repeated neighbour ever gets into a history.
pub proof fn law_history_stays_tidy(history: HistoryModel, line: Seq<char>, max_size: nat)
    requires
        history.tidy(),
    ensures
        history.updated(line).tidy(),
        history.resized(max_size).tidy(),
{
    let updated = history.updated(line).entries;
    if !history.ignores(line) {
        assert forall|i: int, j: int|
            0 <= i && j == i + 1 && j < updated.len() implies #[trigger] updated[i]
            != #[trigger] updated[j] by {
            if i > 0 {
                assert(updated[i] == history.entries[i - 1]);
            }
            assert(updated[j] == history.entries[j - 1]);
        }
        assert forall|i: int| 0 <= i < updated.len() implies (#[trigger] updated[i]).len() > 0 by {
            if i > 0 {
                assert(updated[i] == history.entries[i - 1]);
            }
        }
    }
    let resized = history.resized(max_size).entries;
    assert(forall|i: int|
        0 <= i < resized.len() ==> #[trigger] resized[i] == history.entries[i]);
}

/// Scrolling and offering lines keep the position on an entry. Making the history smaller does
/// as long as the entry that is shown is not among those that go.
pub proof fn law_position_stays_in_range(history: HistoryModel, line: Seq<char>, max_size: nat)
    requires
        history.position_in_range(),
    ensures
        history.updated(line).position_in_range(),
        history.scrolled_next().position_in_range(),
        history.scrolled_previous().position_in_range(),
        (history.position matches Some(index) ==> index < max_size) ==> history.resized(
            max_size,
        ).position_in_range(),
{
}

/// A line that is taken into the history is the first one that scrolling back shows.
pub proof fn law_newest_line_is_shown_first(history: HistoryModel, line: Seq<char>)
    requires
        history.max_size > 0,
        !history.ignores(line),
    ensures
        history.updated(line).entries[0] == line,
        history.updated(line).next_text() == Some(line),
{
}

/// The history after some lines have been offered to it, one after another.
pub open spec fn offered(history: HistoryModel, lines: Seq<Seq<char>>) -> HistoryModel
    decreases lines.len(),
{
    if lines.len() == 0 {
        history
    } else {
        offered(history, lines.drop_last()).updated(lines.last())
    }
}

/// Whether a line is the last one that is not empty.
pub open spec fn is_newest(lines: Seq<Seq<char>>, newest: int) -> bool {
    &&& 0 <= newest < lines.len()
    &&& lines[newest].len() > 0
    &&& forall|i: int| newest < i < lines.len() ==> (#[trigger] lines[i]).len() == 0
}

pub(crate) proof fn lemma_offered_keeps_max_size(history: HistoryModel, lines: Seq<Seq<char>>)
    ensures
        offered(history, lines).max_size == history.max_size,
    decreases lines.len(),
{
    if lines.len() > 0 {
        lemma_offered_keeps_max_size(history, lines.drop_last());
    }
}

/// However many lines are offered, the last one that is not empty is the newest entry, unless
/// the history keeps no entries at all.
pub proof fn law_newest_line_becomes_the_newest_entry(
    history: HistoryModel,
    lines: Seq<Seq<char>>,
    newest: int,
)
    requires
        history.max_size > 0,
        is_newest(lines, newest),
    ensures
        offered(history, lines).entries.len() > 0,
        offered(history, lines).entries[0] == lines[newest],
    decreases lines.len(),
{
    let earlier = lines.drop_last();
    lemma_offered_keeps_max_size(history, earlier);
    if newest < earlier.len() {
        assert(lines[lines.len() - 1].len() == 0);
        assert forall|i: int| newest < i < earlier.len() implies (#[trigger] earlier[i]).len()
            == 0 by {
            assert(lines[i].len() == 0);
        }
        law_newest_line_becomes_the_newest_entry(history, earlier, newest);
    }
}

/// Offering a line twice in a row is the same as offering it once.
pub proof fn law_repeated_line_is_kept_once(history: HistoryModel, line: Seq<char>)
    ensures
        history.updated(line).updated(line) == history.updated(line),
{
    let once = history.updated(line);
    if !history.ignores(line) && once.entries.len() == 0 {
        assert(once.updated(line).entries =~= once.entries);
    }
}

/// Scrolling forward undoes scrolling back, wherever scrolling back found an older entry.
pub proof fn law_scrolling_forward_undoes_scrolling_back(history: HistoryModel)
    requires
        history.position_in_range(),
        history.next_position() != history.position,
    ensures
        history.scrolled_next().scrolled_previous() == history,
        history.scrolled_next().previous_text() == match history.position {
            Some(index) => Some(history.entries[index as int]),
            None => Some(Seq::<char>::empty()),
        },
{
}

/// The history after scrolling back `times` times.
pub open spec fn scrolled_back(history: HistoryModel, times: nat) -> HistoryModel
    decreases times,
{
    if times == 0 {
        history
    } else {
        scrolled_back(history, (times - 1) as nat).scrolled_next()
    }
}

/// Scrolling back from the prompt shows every entry in turn, from the newest to the oldest,
/// and then stays at the oldest.
pub proof fn law_scrolling_back_visits_every_entry(history: HistoryModel, times: nat)
    requires
        history.position is None,
        history.entries.len() > 0,
    ensures
        scrolled_back(history, times).next_text() == Some(
            history.entries[if times < history.entries.len() {
                times as int
            } else {
                history.entries.len() - 1
            }],
        ),
        scrolled_back(history, times).entries == history.entries,
    decreases times,
{
    if times > 0 {
        lemma_scrolled_back_position(history, times);
        lemma_scrolled_back_position(history, times + 1);
    }
}

proof fn lemma_scrolled_back_position(history: HistoryModel, times: nat)
    requires
        history.position is None,
        history.entries.len() > 0,
        times > 0,
    ensures
        scrolled_back(history, times).entries == history.entries,
        scrolled_back(history, times).position == Some(
            if times <= history.entries.len() {
                (times - 1) as nat
            } else {
                (history.entries.len() - 1) as nat
            },
        ),
    decreases times,
{
    reveal_with_fuel(scrolled_back, 2);
    if times > 1 {
        lemma_scrolled_back_position(history, (times - 1) as nat);
    }
}

/// A line that is neither empty nor the same as the newest entry becomes the newest entry. Below
/// the bound no entry is lost; at the bound exactly the oldest one is. Scrolling starts over.
pub proof fn law_taken_line_costs_at_most_the_oldest_entry(history: HistoryModel, line: Seq<char>)
    requires
        line.len() > 0,
        history.entries.len() > 0 ==> history.entries[0] != line,
    ensures
        ({
            let after = history.updated(line);
            &&& history.entries.len() < history.max_size ==> after.entries == seq![line]
                + history.entries
            &&& history.entries.len() >= history.max_size ==> after.entries == (seq![line]
                + history.entries).drop_last()
            &&& after.position is None
            &&& after.max_size == history.max_size
        }),
{
}

/// An empty line, and one that is the same as the newest entry, change nothing at all.
pub proof fn law_ignored_line_changes_nothing(history: HistoryModel, line: Seq<char>)
    requires
        line.len() == 0 || (history.entries.len() > 0 && history.entries[0] == line),
    ensures
        history.updated(line) == history,
{
}

/// Whether none of some lines is empty or the same as the one before it, the first one being
/// compared with the newest entry.
pub open spec fn all_new(history: HistoryModel, lines: Seq<Seq<char>>) -> bool {
    &&& forall|i: int| 0 <= i < lines.len() ==> (#[trigger] lines[i]).len() > 0
    &&& forall|i: int, j: int|
        0 <= i && j == i + 1 && j < lines.len() ==> #[trigger] lines[i] != #[trigger] lines[j]
    &&& lines.len() > 0 && history.entries.len() > 0 ==> lines[0] != history.entries[0]
}

/// However many new lines are offered, the history holds the newest of them and of the entries
/// that were there, newest first, as many as the bound allows: nothing is lost before that.
pub proof fn law_history_holds_as_many_as_it_may(history: HistoryModel, lines: Seq<Seq<char>>)
    requires
        history.entries.len() <= history.max_size,
        all_new(history, lines),
    ensures
        ({
            let all = lines.reverse() + history.entries;
            offered(history, lines).entries == if all.len() <= history.max_size {
                all
            } else {
                all.take(history.max_size as int)
            }
        }),
    decreases lines.len(),
{
    let all = lines.reverse() + history.entries;
    if lines.len() == 0 {
        assert(all =~= history.entries);
    } else {
        let earlier = lines.drop_last();
        let before = offered(history, earlier);
        let line = lines.last();
        assert forall|i: int| 0 <= i < earlier.len() implies (#[trigger] earlier[i]).len() > 0 by {
            assert(lines[i].len() > 0);
        }
        assert forall|i: int, j: int|
            0 <= i && j == i + 1 && j < earlier.len() implies #[trigger] earlier[i]
            != #[trigger] earlier[j] by {
            assert(lines[i] != lines[j]);
        }
        law_history_holds_as_many_as_it_may(history, earlier);
        lemma_offered_keeps_max_size(history, earlier);
        let older = earlier.reverse() + history.entries;
        assert(seq![line] + older =~= all);
        assert(lines[lines.len() - 1].len() > 0);
        if before.entries.len() > 0 {
            if earlier.len() > 0 {
                assert(before.entries[0] == lines[lines.len() - 2]);
                assert(lines[lines.len() - 2] != lines[lines.len() - 1]);
            } else {
                assert(earlier =~= Seq::<Seq<char>>::empty());
                assert(before.entries[0] == history.entries[0]);
            }
        }
        law_taken_line_costs_at_most_the_oldest_entry(before, line);
        let grown = seq![line] + before.entries;
        if all.len() <= history.max_size {
            assert(offered(history, lines).entries =~= all);
        } else {
            if before.entries.len() >= before.max_size {
                assert(grown.drop_last() =~= all.take(history.max_size as int));
            } else {
                assert(grown =~= all.take(history.max_size as int));
            }
        }
    }
}

/// Resizing keeps the newest entries, as many as the new bound allows, and where scrolling is.
pub proof fn law_resizing_keeps_the_newest_entries(history: HistoryModel, max_size: nat)
    ensures
        ({
            let after = history.resized(max_size);
            &&& after.max_size == max_size
            &&& after.position == history.position
            &&& after.entries.len() == if history.entries.len() < max_size {
                history.entries.len()
            } else {
                max_size
            }
            &&& forall|i: int|
                0 <= i < after.entries.len() ==> #[trigger] after.entries[i] == history.entries[i]
        }),
{
}

/// Scrolling back goes from no entry to the newest one, from each entry to the next older one,
/// and stays at the oldest one; the text that is shown is that of the entry, and without entries
/// there is none. It changes nothing else.
pub proof fn law_scrolling_back_goes_one_entry_back(history: HistoryModel)
    requires
        history.position matches Some(index) ==> index < history.entries.len(),
    ensures
        ({
            let after = history.scrolled_next();
            let count = history.entries.len();
            &&& after.entries == history.entries && after.max_size == history.max_size
            &&& count == 0 ==> after.position is None && history.next_text() is None
            &&& count > 0 ==> {
                &&& after.position is Some
                &&& after.position->0 < count
                &&& history.next_text() == Some(history.entries[after.position->0 as int])
                &&& history.position is None ==> after.position->0 == 0
                &&& history.position matches Some(index) ==> after.position->0 == if index
                    == count - 1 {
                    index
                } else {
                    index + 1
                }
            }
        }),
{
}

/// Scrolling forward goes from each entry to the next newer one, and past the newest one to the
/// empty text and to no entry; without an entry it does nothing. It changes nothing else.
pub proof fn law_scrolling_forward_goes_one_entry_forward(history: HistoryModel)
    ensures
        ({
            let after = history.scrolled_previous();
            &&& after.entries == history.entries && after.max_size == history.max_size
            &&& history.position is None ==> after == history && history.previous_text() is None
            &&& history.position == Some(0nat) ==> after.position is None
                && history.previous_text() == Some(Seq::<char>::empty())
            &&& history.position matches Some(index) ==> index > 0 ==> {
                &&& after.position == Some((index - 1) as nat)
                &&& history.previous_text() == Some(history.entries[index - 1])
            }
        }),
{
}

/// The position is in range unless it is behind the oldest entry, and scrolling forward is
/// possible from one place further.
pub proof fn law_where_scrolling_is_possible(history: HistoryModel)
    ensures
        history.position is None ==> history.position_in_range() && history.can_scroll_forward(),
        history.position matches Some(index) ==> {
            &&& history.position_in_range() <==> index < history.entries.len()
            &&& history.can_scroll_forward() <==> index <= history.entries.len()
        },
{
}

/// The model of a history holds each entry, character for character, and what the other fields
/// hold.
pub proof fn law_model_of_history(history: History)
    ensures
        history@.entries.len() == history.entries@.len(),
        forall|i: int|
            0 <= i < history.entries@.len() ==> #[trigger] history@.entries[i]
                == history.entries@[i]@,
        history@.max_size == history.max_size,
        history@.position is None <==> history.current_position is None,
        history@.position matches Some(index) ==> history.current_position == Some(index as usize),
{
}

} // verus!

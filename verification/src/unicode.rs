//! Text as a user sees it: grapheme clusters, whitespace, and the cells that text takes up.

use unicode_segmentation::UnicodeSegmentation;
use unicode_width::UnicodeWidthStr;
use vstd::prelude::*;

verus! {

/// The extended grapheme clusters of a text, in order.
pub uninterp spec fn grapheme_clusters(text: Seq<char>) -> Seq<Seq<char>>;

/// How many columns a text takes up on the screen.
pub uninterp spec fn display_width(text: Seq<char>) -> nat;

/// Whether a character has the Unicode property `White_Space`.
pub uninterp spec fn white_space(c: char) -> bool;

/// Calls `graphemes` of `unicode_segmentation`, for extended clusters. The clusters are pieces
/// of the text that follow each other without a gap, and none of them is empty. Which pieces
/// they are is a matter of the Unicode tables.
#[verifier::external_body]
fn graphemes(text: &str) -> (clusters: Vec<String>)
    ensures
        crate::history::texts(clusters@) == grapheme_clusters(text@),
        crate::history::texts(clusters@).flatten() == text@,
        forall|i: int| 0 <= i < clusters@.len() ==> (#[trigger] clusters@[i])@.len() > 0,
{
    text.graphemes(true).map(String::from).collect()
}

/// Calls `UnicodeWidthStr::width`: the width is a matter of the Unicode tables.
#[verifier::external_body]
pub(crate) fn width(text: &str) -> (columns: usize)
    ensures
        columns == display_width(text@),
{
    text.width()
}

/// Calls `char::is_whitespace`: which characters are whitespace is a matter of the Unicode
/// tables.
#[verifier::external_body]
fn is_whitespace(c: char) -> (whitespace: bool)
    ensures
        whitespace == white_space(c),
{
    c.is_whitespace()
}

/// `String::push` appends a character.
pub assume_specification[ String::push ](string: &mut String, c: char)
    ensures
        final(string)@ == old(string)@.push(c),
;

/// Whether the clusters of a text are pieces of it that follow each other without a gap, none
/// of them empty.
pub open spec fn well_segmented(text: Seq<char>) -> bool {
    let clusters = grapheme_clusters(text);
    &&& clusters.flatten() == text
    &&& forall|i: int| 0 <= i < clusters.len() ==> (#[trigger] clusters[i]).len() > 0
}

/// How many grapheme clusters a text has. The text is well segmented, whatever it is.
pub fn cluster_count(text: &str) -> (count: usize)
    ensures
        count == grapheme_clusters(text@).len(),
        well_segmented(text@),
{
    let clusters = graphemes(text);
    assert forall|i: int| 0 <= i < grapheme_clusters(text@).len() implies (
    #[trigger] grapheme_clusters(text@)[i]).len() > 0 by {
        assert(clusters@[i]@.len() > 0);
    }
    clusters.len()
}

/// How many characters come before a cluster, or before the end of the text if `index` is the
/// number of clusters.
pub open spec fn cluster_start(clusters: Seq<Seq<char>>, index: int) -> nat
    decreases index,
{
    if index <= 0 {
        0
    } else {
        cluster_start(clusters, index - 1) + clusters[index - 1].len()
    }
}

/// The first cluster from `from` on that does not start before `position`.
pub open spec fn cluster_at_or_after(
    clusters: Seq<Seq<char>>,
    position: nat,
    from: int,
) -> int
    decreases clusters.len() - from,
{
    if from >= clusters.len() || cluster_start(clusters, from) >= position {
        from
    } else {
        cluster_at_or_after(clusters, position, from + 1)
    }
}

/// Whether a cluster is whitespace: whether its first character is.
pub open spec fn blank_cluster(cluster: Seq<char>) -> bool {
    white_space(cluster[0])
}

/// The start of the clusters before `index` that are all blank, or all not blank.
pub open spec fn skip_back(clusters: Seq<Seq<char>>, index: int, blank: bool) -> int
    decreases index,
{
    if index > 0 && blank_cluster(clusters[index - 1]) == blank {
        skip_back(clusters, index - 1, blank)
    } else {
        index
    }
}

/// The end of the clusters from `index` on that are all blank, or all not blank.
pub open spec fn skip_forward(clusters: Seq<Seq<char>>, index: int, blank: bool) -> int
    decreases clusters.len() - index,
{
    if 0 <= index < clusters.len() && blank_cluster(clusters[index]) == blank {
        skip_forward(clusters, index + 1, blank)
    } else {
        index
    }
}

/// The start of clusters is how many characters the clusters before them hold; it grows, and
/// never passes the end of the text.
pub proof fn lemma_cluster_start(clusters: Seq<Seq<char>>, index: int)
    requires
        0 <= index <= clusters.len(),
    ensures
        cluster_start(clusters, index) == clusters.take(index).flatten().len(),
        cluster_start(clusters, index) <= clusters.flatten().len(),
        index == clusters.len() ==> cluster_start(clusters, index) == clusters.flatten().len(),
    decreases index,
{
    if index > 0 {
        lemma_cluster_start(clusters, index - 1);
        clusters.take(index - 1).lemma_flatten_push(clusters[index - 1]);
        assert(clusters.take(index - 1).push(clusters[index - 1]) =~= clusters.take(index));
    }
    vstd::seq_lib::lemma_flatten_concat(clusters.take(index), clusters.skip(index));
    assert(clusters.take(index) + clusters.skip(index) =~= clusters);
    if index == clusters.len() {
        assert(clusters.take(index) =~= clusters);
    }
}

proof fn lemma_cluster_start_grows(clusters: Seq<Seq<char>>, low: int, high: int)
    requires
        0 <= low <= high,
    ensures
        cluster_start(clusters, low) <= cluster_start(clusters, high),
    decreases high - low,
{
    if low < high {
        lemma_cluster_start_grows(clusters, low, high - 1);
    }
}

/// The cluster that is found is the first one that does not start before the position.
pub proof fn lemma_cluster_at_or_after(clusters: Seq<Seq<char>>, position: nat, from: int)
    requires
        0 <= from <= clusters.len(),
    ensures
        from <= cluster_at_or_after(clusters, position, from) <= clusters.len(),
        position <= clusters.flatten().len() ==> cluster_start(
            clusters,
            cluster_at_or_after(clusters, position, from),
        ) >= position,
        forall|k: int|
            from <= k < cluster_at_or_after(clusters, position, from) ==> #[trigger] cluster_start(
                clusters,
                k,
            ) < position,
    decreases clusters.len() - from,
{
    if from < clusters.len() && cluster_start(clusters, from) < position {
        lemma_cluster_at_or_after(clusters, position, from + 1);
    } else {
        lemma_cluster_start(clusters, clusters.len() as int);
    }
}

/// The start of a cluster is found again as the start of a cluster.
pub proof fn lemma_start_is_start(clusters: Seq<Seq<char>>, index: int)
    requires
        0 <= index <= clusters.len(),
    ensures
        cluster_start(
            clusters,
            cluster_at_or_after(clusters, cluster_start(clusters, index), 0),
        ) == cluster_start(clusters, index),
{
    let found = cluster_at_or_after(clusters, cluster_start(clusters, index), 0);
    lemma_cluster_at_or_after(clusters, cluster_start(clusters, index), 0);
    lemma_cluster_start(clusters, index);
    if found > index {
        assert(cluster_start(clusters, index) < cluster_start(clusters, index));
    }
    lemma_cluster_start_grows(clusters, found, index);
}

/// A text, cut into its grapheme clusters.
pub(crate) struct Segments {
    clusters: Vec<String>,
    starts: Vec<usize>,
    text: Ghost<Seq<char>>,
}

impl Segments {
    /// The clusters.
    pub(crate) closed spec fn clusters(self) -> Seq<Seq<char>> {
        crate::history::texts(self.clusters@)
    }

    /// The text.
    pub(crate) closed spec fn text(self) -> Seq<char> {
        self.text@
    }

    /// Whether the clusters are those of the text, and the starts those of the clusters.
    pub(crate) closed spec fn wf(self) -> bool {
        &&& self.clusters() == grapheme_clusters(self.text@)
        &&& self.clusters().flatten() == self.text@
        &&& forall|i: int| 0 <= i < self.clusters@.len() ==> (#[trigger] self.clusters@[i])@.len()
            > 0
        &&& self.starts@.len() == self.clusters@.len() + 1
        &&& forall|i: int|
            0 <= i < self.starts@.len() ==> #[trigger] self.starts@[i] == cluster_start(
                self.clusters(),
                i,
            )
    }

    /// Cuts a text into its grapheme clusters.
    pub(crate) fn new(text: &str) -> (segments: Segments)
        ensures
            segments.wf(),
            segments.text() == text@,
            segments.clusters() == grapheme_clusters(text@),
            segments.clusters().flatten() == text@,
    {
        let clusters = graphemes(text);
        let total: usize = text.unicode_len();
        let ghost cs = crate::history::texts(clusters@);
        let mut starts: Vec<usize> = Vec::new();
        starts.push(0);
        let mut i: usize = 0;
        while i < clusters.len()
            invariant
                i <= clusters@.len(),
                cs == crate::history::texts(clusters@),
                cs.flatten() == text@,
                total == text@.len(),
                starts@.len() == i + 1,
                forall|k: int|
                    0 <= k < starts@.len() ==> #[trigger] starts@[k] == cluster_start(cs, k),
            decreases clusters@.len() - i,
        {
            proof {
                lemma_cluster_start(cs, i + 1);
                assert(cs[i as int] == clusters@[i as int]@);
            }
            let start: usize = starts[i] + clusters[i].as_str().unicode_len();
            starts.push(start);
            i += 1;
        }
        Segments { clusters, starts, text: Ghost(text@) }
    }

    /// How many clusters there are.
    pub(crate) fn len(&self) -> (len: usize)
        requires
            self.wf(),
        ensures
            len == self.clusters().len(),
    {
        self.clusters.len()
    }

    /// The first cluster that does not start before a position.
    pub(crate) fn index_at(&self, position: usize) -> (index: usize)
        requires
            self.wf(),
        ensures
            index == cluster_at_or_after(self.clusters(), position as nat, 0),
            index <= self.clusters().len(),
    {
        let mut index: usize = 0;
        while index < self.clusters.len() && self.starts[index] < position
            invariant
                self.wf(),
                index <= self.clusters@.len(),
                cluster_at_or_after(self.clusters(), position as nat, 0) == cluster_at_or_after(
                    self.clusters(),
                    position as nat,
                    index as int,
                ),
            decreases self.clusters@.len() - index,
        {
            index += 1;
        }
        index
    }

    /// How many characters come before a cluster.
    pub(crate) fn start(&self, index: usize) -> (start: usize)
        requires
            self.wf(),
            index <= self.clusters().len(),
        ensures
            start == cluster_start(self.clusters(), index as int),
            start <= self.text().len(),
            cluster_start(
                self.clusters(),
                cluster_at_or_after(self.clusters(), start as nat, 0),
            ) == start,
    {
        proof {
            lemma_cluster_start(self.clusters(), index as int);
            lemma_start_is_start(self.clusters(), index as int);
        }
        self.starts[index]
    }

    fn is_blank(&self, index: usize) -> (blank: bool)
        requires
            self.wf(),
            index < self.clusters().len(),
        ensures
            blank == blank_cluster(self.clusters()[index as int]),
    {
        is_whitespace(self.clusters[index].as_str().get_char(0))
    }

    /// The start of the clusters before `from` that are all blank, or all not blank.
    pub(crate) fn skip_back(
        &self,
        from: usize,
        blank: bool,
    ) -> (index: usize)
        requires
            self.wf(),
            from <= self.clusters().len(),
        ensures
            index == skip_back(self.clusters(), from as int, blank),
            index <= from,
    {
        let mut index: usize = from;
        while index > 0 && self.is_blank(index - 1) == blank
            invariant
                self.wf(),
                index <= from <= self.clusters().len(),
                skip_back(self.clusters(), from as int, blank) == skip_back(
                    self.clusters(),
                    index as int,
                    blank,
                ),
            decreases index,
        {
            index -= 1;
        }
        index
    }

    /// The end of the clusters from `from` on that are all blank, or all not blank.
    pub(crate) fn skip_forward(
        &self,
        from: usize,
        blank: bool,
    ) -> (index: usize)
        requires
            self.wf(),
            from <= self.clusters().len(),
        ensures
            index == skip_forward(self.clusters(), from as int, blank),
            index <= self.clusters().len(),
    {
        let mut index: usize = from;
        while index < self.clusters.len() && self.is_blank(index) == blank
            invariant
                self.wf(),
                index <= self.clusters().len(),
                skip_forward(self.clusters(), from as int, blank) == skip_forward(
                    self.clusters(),
                    index as int,
                    blank,
                ),
            decreases self.clusters().len() - index,
        {
            index += 1;
        }
        index
    }
}

} // verus!

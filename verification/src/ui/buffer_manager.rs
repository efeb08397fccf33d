//! A one-line text buffer whose cursor counts grapheme clusters.
use vstd::prelude::*;
use vstd::string::*;
use crate::text::{chars_of, string_from_chars};

verus! {

/// The extended grapheme clusters of `s`, in order, as unicode-segmentation
/// (`UnicodeSegmentation::graphemes(s, true)`) gives them.
pub uninterp spec fn grapheme_clusters(s: Seq<char>) -> Seq<Seq<char>>;

/// Whether every character of `s` is printable ASCII (a space to `~`).
pub open spec fn is_printable_ascii(s: Seq<char>) -> bool {
    forall|i: int| 0 <= i < s.len() ==> ' ' <= #[trigger] s[i] && s[i] <= '~'
}

/// Each character of `s` on its own, in order.
pub open spec fn single_chars(s: Seq<char>) -> Seq<Seq<char>> {
    Seq::new(s.len(), |i: int| seq![s[i]])
}

/// The extended grapheme clusters of `s` (unicode-segmentation's
/// `graphemes(true)`, collected).
///
/// Trusted: the contract claims that the result is a function of `s` (named
/// `grapheme_clusters`), that the clusters, put together in order, give `s` back,
/// that no cluster is empty, and that on printable ASCII text each character is a
/// cluster of its own (the source gives those characters the category `Any`, and
/// between two of them the pair rules break, GB999).  Where the boundaries fall
/// in other text is not stated.
#[verifier::external_body]
pub(crate) fn graphemes_of<'a>(s: &'a str) -> (r: Vec<&'a str>)
    ensures
        r@.map_values(|g: &str| g@) == grapheme_clusters(s@),
        r@.map_values(|g: &str| g@).flatten() == s@,
        forall|i: int| 0 <= i < r@.len() ==> (#[trigger] r@[i])@.len() > 0,
        is_printable_ascii(s@) ==> r@.map_values(|g: &str| g@) == single_chars(s@),
{
    unicode_segmentation::UnicodeSegmentation::graphemes(s, true).collect()
}

/// The number of grapheme clusters of `s`.
pub open spec fn grapheme_count(s: Seq<char>) -> nat {
    grapheme_clusters(s).len()
}

/// The character position at which the `cursor`-th grapheme cluster of `s` starts,
/// or the end of `s` where there is no such cluster.
pub open spec fn cluster_offset(s: Seq<char>, cursor: nat) -> nat {
    let cl = grapheme_clusters(s);
    if cursor < cl.len() {
        cl.take(cursor as int).flatten().len()
    } else {
        s.len()
    }
}

/// Whether the grapheme clusters of `s` put together give `s` back and none is
/// empty, as unicode-segmentation's clusters do (`SingleLineBufferManager::len`
/// states it of the text it is called on).
pub open spec fn clusters_cover(s: Seq<char>) -> bool {
    &&& grapheme_clusters(s).flatten() == s
    &&& forall|i: int| 0 <= i < grapheme_clusters(s).len() ==> #[trigger] grapheme_clusters(s)[i].len() > 0
}

proof fn lemma_single_chars_offset(s: Seq<char>, k: nat)
    requires
        grapheme_clusters(s) == single_chars(s),
    ensures
        cluster_offset(s, k) == if k < s.len() {
            k
        } else {
            s.len()
        },
{
    if k < s.len() {
        lemma_single_chars_prefix(s, k);
    }
}

proof fn lemma_single_chars_prefix(s: Seq<char>, k: nat)
    requires
        k <= s.len(),
    ensures
        single_chars(s).take(k as int).flatten().len() == k,
    decreases k,
{
    if k == 0 {
        assert(single_chars(s).take(0) =~= Seq::<Seq<char>>::empty());
    } else {
        lemma_single_chars_prefix(s, (k - 1) as nat);
        let t = single_chars(s);
        assert(t.take(k as int) =~= t.take(k - 1).push(seq![s[k - 1]]));
        t.take(k - 1).lemma_flatten_push(seq![s[k - 1]]);
    }
}

/// `s` with `c` inserted at position `i`.
pub open spec fn insert_char_at(s: Seq<char>, i: int, c: char) -> Seq<char> {
    s.take(i).push(c) + s.skip(i)
}

/// `s` with the character at position `i` removed.
pub open spec fn remove_char_at(s: Seq<char>, i: int) -> Seq<char> {
    s.take(i) + s.skip(i + 1)
}

/// Where the `k`-th cluster starts, it starts before the end of the text.
proof fn lemma_cluster_offset_in_text(s: Seq<char>, k: nat)
    requires
        k < grapheme_count(s),
        grapheme_clusters(s).flatten() == s,
        forall|i: int| 0 <= i < grapheme_clusters(s).len() ==> #[trigger] grapheme_clusters(s)[i].len() > 0,
    ensures
        cluster_offset(s, k) < s.len(),
{
    let cl = grapheme_clusters(s);
    assert(cl =~= cl.take(k as int) + cl.skip(k as int));
    vstd::seq_lib::lemma_flatten_concat(cl.take(k as int), cl.skip(k as int));
    assert(cl.skip(k as int)[0] == cl[k as int]);
    assert(cl.skip(k as int).flatten() == cl.skip(k as int)[0] + cl.skip(k as int).drop_first().flatten());
}

/// A buffer as mathematical values: its text and its cursor (a grapheme index).
pub struct BufferView {
    pub text: Seq<char>,
    pub cursor: nat,
}

/// The buffer after `insert(c)`: `c` goes where the cursor's cluster starts (or
/// at the end) and the cursor moves one cluster on.
pub open spec fn inserted(b: BufferView, c: char) -> BufferView {
    BufferView {
        text: insert_char_at(b.text, cluster_offset(b.text, b.cursor) as int, c),
        cursor: b.cursor + 1,
    }
}

/// The buffer after `backspace()`: nothing at the start; otherwise the cursor
/// moves one cluster back and the character that starts the cluster it reaches
/// is removed.
pub open spec fn backspaced(b: BufferView) -> BufferView {
    if b.cursor == 0 {
        b
    } else {
        BufferView {
            text: remove_char_at(b.text, cluster_offset(b.text, (b.cursor - 1) as nat) as int),
            cursor: (b.cursor - 1) as nat,
        }
    }
}

/// On printable ASCII text, where each character is a cluster: the buffer after
/// `insert(c)`, with `c` put at the cursor (or at the end).
pub open spec fn ascii_inserted(b: BufferView, c: char) -> BufferView {
    let k = if b.cursor < b.text.len() {
        b.cursor
    } else {
        b.text.len()
    };
    BufferView { text: insert_char_at(b.text, k as int, c), cursor: b.cursor + 1 }
}

/// On printable ASCII text: the buffer after `backspace()`, the character before
/// the cursor removed.
pub open spec fn ascii_backspaced(b: BufferView) -> BufferView {
    if b.cursor == 0 {
        b
    } else {
        BufferView { text: remove_char_at(b.text, b.cursor - 1), cursor: (b.cursor - 1) as nat }
    }
}

/// On printable ASCII text: the buffer after `delete()`, the character at the
/// cursor removed.
pub open spec fn ascii_deleted(b: BufferView) -> BufferView {
    if b.cursor < b.text.len() {
        BufferView { text: remove_char_at(b.text, b.cursor as int), cursor: b.cursor }
    } else {
        b
    }
}

/// On printable ASCII text, backspace undoes an insert (with the cursor within
/// the text): the text and the cursor are back as they were, and a printable
/// character keeps the text printable ASCII.
pub proof fn lemma_ascii_backspace_undoes_insert(b: BufferView, c: char)
    requires
        b.cursor <= b.text.len(),
    ensures
        ascii_backspaced(ascii_inserted(b, c)) == b,
        is_printable_ascii(b.text) && ' ' <= c <= '~' ==> is_printable_ascii(ascii_inserted(b, c).text),
{
    let k = b.cursor as int;
    assert(remove_char_at(insert_char_at(b.text, k, c), k) =~= b.text);
    if is_printable_ascii(b.text) && ' ' <= c <= '~' {
        let t = ascii_inserted(b, c).text;
        assert forall|i: int| 0 <= i < t.len() implies ' ' <= #[trigger] t[i] && t[i] <= '~' by {
            if i < k {
                assert(t[i] == b.text[i]);
            } else if i > k {
                assert(t[i] == b.text[i - 1]);
            }
        }
    }
}

/// The buffer after inserting the characters of `cs` one after the other.
pub open spec fn inserted_all(b: BufferView, cs: Seq<char>) -> BufferView
    decreases cs.len(),
{
    if cs.len() == 0 {
        b
    } else {
        inserted(inserted_all(b, cs.drop_last()), cs.last())
    }
}

proof fn lemma_offset_of_covered(s: Seq<char>, k: nat)
    requires
        clusters_cover(s),
        k <= grapheme_count(s),
    ensures
        cluster_offset(s, k) == grapheme_clusters(s).take(k as int).flatten().len(),
{
    let cl = grapheme_clusters(s);
    if k == cl.len() {
        assert(cl.take(k as int) =~= cl);
    }
}

proof fn lemma_count_within_len(cl: Seq<Seq<char>>)
    requires
        forall|i: int| 0 <= i < cl.len() ==> #[trigger] cl[i].len() > 0,
    ensures
        cl.len() <= cl.flatten().len(),
    decreases cl.len(),
{
    if cl.len() > 0 {
        let rest = cl.drop_first();
        assert(cl.flatten() == cl[0] + rest.flatten());
        assert forall|i: int| 0 <= i < rest.len() implies #[trigger] rest[i].len() > 0 by {
            assert(rest[i] == cl[i + 1]);
        }
        lemma_count_within_len(rest);
    }
}

/// With the cursor at the end of the text (or past it), an insert appends: the
/// text gains `c` at its end.  Holds where the clusters cover the text, as they
/// do for every text (`len` states it).
pub proof fn lemma_insert_at_end_appends(b: BufferView, c: char)
    requires
        clusters_cover(b.text),
        b.cursor >= b.text.len(),
    ensures
        inserted(b, c) == (BufferView { text: b.text.push(c), cursor: b.cursor + 1 }),
{
    let cl = grapheme_clusters(b.text);
    lemma_count_within_len(cl);
    assert(insert_char_at(b.text, b.text.len() as int, c) =~= b.text.push(c));
}

/// Inserting characters one after the other into an empty buffer gives them in
/// order, with the cursor after the last: the buffer appends, whatever clusters
/// the characters form.  Holds where the clusters cover each text on the way, as
/// they do for every text (`len` states it).
pub proof fn lemma_inserts_append(cs: Seq<char>)
    requires
        forall|k: int| 0 <= k <= cs.len() ==> clusters_cover(#[trigger] cs.take(k)),
    ensures
        inserted_all(BufferView { text: Seq::empty(), cursor: 0 }, cs) == (BufferView {
            text: cs,
            cursor: cs.len(),
        }),
    decreases cs.len(),
{
    if cs.len() > 0 {
        let front = cs.drop_last();
        assert forall|k: int| 0 <= k <= front.len() implies clusters_cover(#[trigger] front.take(k)) by {
            assert(front.take(k) =~= cs.take(k));
        }
        lemma_inserts_append(front);
        assert(cs.take(front.len() as int) =~= front);
        lemma_insert_at_end_appends(BufferView { text: front, cursor: front.len() }, cs.last());
        assert(front.push(cs.last()) =~= cs);
    } else {
        assert(cs =~= Seq::<char>::empty());
    }
}

/// Backspace undoes an insert where the inserted character stands as a grapheme
/// cluster of its own and the other clusters stay as they were (as between
/// printable ASCII characters): the text and the cursor are back as they were.
pub proof fn lemma_backspace_undoes_insert(b: BufferView, c: char)
    requires
        clusters_cover(b.text),
        b.cursor <= grapheme_count(b.text),
        grapheme_clusters(inserted(b, c).text) == grapheme_clusters(b.text).take(b.cursor as int)
            + seq![seq![c]] + grapheme_clusters(b.text).skip(b.cursor as int),
    ensures
        backspaced(inserted(b, c)) == b,
{
    let s = b.text;
    let k = b.cursor;
    let cl = grapheme_clusters(s);
    let t = inserted(b, c).text;
    let cl2 = grapheme_clusters(t);
    lemma_offset_of_covered(s, k);
    let o = cluster_offset(s, k);
    assert(cl2.take(k as int) =~= cl.take(k as int));
    assert(cluster_offset(t, k) == o);
    assert(remove_char_at(t, o as int) =~= s) by {
        assert(cl =~= cl.take(k as int) + cl.skip(k as int));
        vstd::seq_lib::lemma_flatten_concat(cl.take(k as int), cl.skip(k as int));
    }
}

/// A one-line text buffer with a cursor that counts grapheme clusters.
#[derive(Debug)]
pub struct SingleLineBufferManager {
    buffer: String,
    pub cursor: usize,
}

impl View for SingleLineBufferManager {
    type V = BufferView;

    closed spec fn view(&self) -> BufferView {
        BufferView { text: self.buffer@, cursor: self.cursor as nat }
    }
}

impl Default for SingleLineBufferManager {
    fn default() -> (r: Self)
        ensures
            r@.text == Seq::<char>::empty(),
            r@.cursor == 0,
    {
        Self::init_empty()
    }
}

impl SingleLineBufferManager {
    /// A buffer holding `buf` with the cursor at grapheme `ptr`.
    pub fn init_with(buf: String, ptr: usize) -> (r: Self)
        ensures
            r@.text == buf@,
            r@.cursor == ptr,
    {
        Self { buffer: buf, cursor: ptr }
    }

    /// An empty buffer.
    pub fn init_empty() -> (r: Self)
        ensures
            r@.text == Seq::<char>::empty(),
            r@.cursor == 0,
    {
        Self { buffer: String::new(), cursor: 0 }
    }

    /// The cursor, as a number of grapheme clusters.
    pub fn cursor_position(&self) -> (r: usize)
        ensures
            r == self@.cursor,
    {
        self.cursor
    }

    /// The character position where the cursor's grapheme cluster starts, or the
    /// end of the text.
    fn get_idx(&self) -> (r: usize)
        ensures
            r == cluster_offset(self@.text, self@.cursor),
            r <= self@.text.len(),
            self@.cursor < grapheme_count(self@.text) ==> r < self@.text.len(),
            is_printable_ascii(self@.text) ==> grapheme_count(self@.text) == self@.text.len() && r == (
            if self@.cursor < self@.text.len() {
                self@.cursor
            } else {
                self@.text.len()
            }),
    {
        let clusters = graphemes_of(self.buffer.as_str());
        let ghost cl = grapheme_clusters(self.buffer@);
        let ghost s = self.buffer@;
        let n = self.buffer.as_str().unicode_len();
        proof {
            if is_printable_ascii(s) {
                lemma_single_chars_offset(s, self.cursor as nat);
            }
        }
        if self.cursor >= clusters.len() {
            return n;
        }
        let mut idx: usize = 0;
        let mut k: usize = 0;
        proof {
            lemma_cluster_offset_in_text(s, self.cursor as nat);
        }
        assert(cl.take(0).flatten() =~= Seq::<char>::empty());
        while k < self.cursor
            invariant
                k <= self.cursor,
                self.cursor < clusters@.len(),
                cl == grapheme_clusters(s),
                s == self.buffer@,
                clusters@.map_values(|g: &str| g@) == cl,
                cl.flatten() == s,
                idx as nat == cl.take(k as int).flatten().len(),
                cl.take(self.cursor as int).flatten().len() < s.len(),
                n as nat == s.len(),
            decreases self.cursor - k,
        {
            assert(cl.take(k + 1) =~= cl.take(k as int).push(cl[k as int]));
            proof {
                cl.take(k as int).lemma_flatten_push(cl[k as int]);
                lemma_flatten_prefix_len(cl, k + 1, self.cursor as int);
            }
            assert(cl[k as int] == clusters@[k as int]@);
            idx = idx + clusters[k].unicode_len();
            k = k + 1;
        }
        idx
    }

    /// Inserts `c` at the cursor and moves the cursor one grapheme on.
    pub fn insert(&mut self, c: char)
        requires
            old(self)@.cursor < usize::MAX,
        ensures
            final(self)@.text == insert_char_at(
                old(self)@.text,
                cluster_offset(old(self)@.text, old(self)@.cursor) as int,
                c,
            ),
            final(self)@.cursor == old(self)@.cursor + 1,
            final(self)@ == inserted(old(self)@, c),
            is_printable_ascii(old(self)@.text) ==> final(self)@ == ascii_inserted(old(self)@, c),
    {
        let i = self.get_idx();
        let t = chars_of(self.buffer.as_str());
        let mut v: Vec<char> = Vec::new();
        let mut k: usize = 0;
        while k < i
            invariant
                k <= i <= t@.len(),
                v@ == t@.take(k as int),
            decreases i - k,
        {
            v.push(t[k]);
            k = k + 1;
        }
        v.push(c);
        let ghost head = v@;
        while k < t.len()
            invariant
                i <= k <= t@.len(),
                v@ == head + t@.subrange(i as int, k as int),
            decreases t@.len() - k,
        {
            v.push(t[k]);
            k = k + 1;
        }
        assert(v@ =~= insert_char_at(t@, i as int, c));
        self.buffer = string_from_chars(v.as_slice());
        self.cursor = self.cursor + 1;
    }

    fn remove_at(&mut self, i: usize)
        requires
            i < old(self)@.text.len(),
        ensures
            final(self)@.text == remove_char_at(old(self)@.text, i as int),
            final(self)@.cursor == old(self)@.cursor,
    {
        let t = chars_of(self.buffer.as_str());
        let mut v: Vec<char> = Vec::new();
        let mut k: usize = 0;
        while k < t.len()
            invariant
                i < t@.len(),
                k <= t@.len(),
                v@ == (if k <= i {
                    t@.take(k as int)
                } else {
                    t@.take(i as int) + t@.subrange(i + 1, k as int)
                }),
            decreases t@.len() - k,
        {
            if k != i {
                v.push(t[k]);
            }
            k = k + 1;
            assert(v@ =~= (if k <= i {
                t@.take(k as int)
            } else {
                t@.take(i as int) + t@.subrange(i + 1, k as int)
            }));
        }
        assert(v@ =~= remove_char_at(t@, i as int));
        self.buffer = string_from_chars(v.as_slice());
    }

    /// Moves the cursor one grapheme back and removes the character that starts
    /// the grapheme it reaches; does nothing at the start.
    pub fn backspace(&mut self)
        requires
            old(self)@.cursor == 0 || old(self)@.cursor - 1 < grapheme_count(old(self)@.text),
        ensures
            old(self)@.cursor == 0 ==> final(self)@ == old(self)@,
            old(self)@.cursor > 0 ==> final(self)@.cursor == old(self)@.cursor - 1
                && final(self)@.text == remove_char_at(
                old(self)@.text,
                cluster_offset(old(self)@.text, (old(self)@.cursor - 1) as nat) as int,
            ),
            final(self)@ == backspaced(old(self)@),
            is_printable_ascii(old(self)@.text) ==> final(self)@ == ascii_backspaced(old(self)@),
    {
        if self.cursor == 0 {
            return;
        }
        self.cursor = self.cursor - 1;
        let i = self.get_idx();
        self.remove_at(i);
    }

    /// Removes the character that starts the cursor's grapheme; does nothing at
    /// the end.
    pub fn delete(&mut self)
        requires
            old(self)@.cursor <= grapheme_count(old(self)@.text),
        ensures
            old(self)@.cursor == grapheme_count(old(self)@.text) ==> final(self)@ == old(self)@,
            old(self)@.cursor < grapheme_count(old(self)@.text) ==> final(self)@.cursor == old(
                self,
            )@.cursor && final(self)@.text == remove_char_at(
                old(self)@.text,
                cluster_offset(old(self)@.text, old(self)@.cursor) as int,
            ),
            is_printable_ascii(old(self)@.text) ==> final(self)@ == ascii_deleted(old(self)@),
    {
        if self.cursor == self.len() {
            return;
        }
        let i = self.get_idx();
        self.remove_at(i);
    }

    /// Moves the cursor one grapheme back, staying at the start.
    pub fn left(&mut self)
        ensures
            final(self)@.text == old(self)@.text,
            final(self)@.cursor == if old(self)@.cursor == 0 {
                0
            } else {
                (old(self)@.cursor - 1) as nat
            },
    {
        self.cursor = self.cursor.saturating_sub(1);
    }

    /// Moves the cursor one grapheme on; does nothing at the end.
    pub fn right(&mut self)
        requires
            old(self)@.cursor == grapheme_count(old(self)@.text) || old(self)@.cursor < usize::MAX,
        ensures
            final(self)@.text == old(self)@.text,
            final(self)@.cursor == if old(self)@.cursor == grapheme_count(old(self)@.text) {
                old(self)@.cursor
            } else {
                old(self)@.cursor + 1
            },
    {
        if self.cursor == self.len() {
            return;
        }
        self.cursor = self.cursor + 1;
    }

    /// The text.
    pub fn peek(&self) -> (r: &str)
        ensures
            r@ == self@.text,
    {
        self.buffer.as_str()
    }

    /// Takes the text out, leaving the buffer empty with the cursor at the start.
    pub fn flush(&mut self) -> (r: String)
        ensures
            r@ == old(self)@.text,
            final(self)@.text == Seq::<char>::empty(),
            final(self)@.cursor == 0,
    {
        self.cursor = 0;
        let mut taken = String::new();
        std::mem::swap(&mut taken, &mut self.buffer);
        taken
    }

    /// The number of grapheme clusters; it is 0 exactly when the text is empty,
    /// and the clusters cover the text.
    pub fn len(&self) -> (r: usize)
        ensures
            r == grapheme_count(self@.text),
            (r == 0) == (self@.text.len() == 0),
            clusters_cover(self@.text),
            is_printable_ascii(self@.text) ==> r == self@.text.len(),
    {
        let clusters = graphemes_of(self.buffer.as_str());
        proof {
            let cl = clusters@.map_values(|g: &str| g@);
            assert forall|i: int| 0 <= i < cl.len() implies #[trigger] cl[i].len() > 0 by {
                assert(cl[i] == clusters@[i]@);
            }
            lemma_empty_iff_no_clusters(cl);
        }
        clusters.len()
    }

    /// Whether the text is empty.
    pub fn is_empty(&self) -> (r: bool)
        ensures
            r == (self@.text.len() == 0),
    {
        self.buffer.as_str().is_empty()
    }
}

proof fn lemma_flatten_prefix_len(cl: Seq<Seq<char>>, j: int, k: int)
    requires
        0 <= j <= k <= cl.len(),
    ensures
        cl.take(j).flatten().len() <= cl.take(k).flatten().len(),
{
    assert(cl.take(k) =~= cl.take(j) + cl.take(k).skip(j));
    vstd::seq_lib::lemma_flatten_concat(cl.take(j), cl.take(k).skip(j));
}

proof fn lemma_empty_iff_no_clusters(cl: Seq<Seq<char>>)
    requires
        forall|i: int| 0 <= i < cl.len() ==> #[trigger] cl[i].len() > 0,
    ensures
        (cl.flatten().len() == 0) == (cl.len() == 0),
{
    if cl.len() > 0 {
        assert(cl.flatten() == cl[0] + cl.drop_first().flatten());
    }
}

} // verus!

use crate::lazy_coder_error::LazyCoderError;
use vstd::prelude::*;

verus! {

/// The text that separates consecutive snippets: a newline, three hyphens, a
/// newline and a blank line.
pub open spec fn delimiter() -> Seq<char> {
    seq!['\n', '-', '-', '-', '\n', '\n']
}

/// Whether the delimiter occurs in `t` starting at index `i`.
pub open spec fn delimiter_at(t: Seq<char>, i: int) -> bool {
    &&& 0 <= i
    &&& i + delimiter().len() <= t.len()
    &&& t.subrange(i, i + delimiter().len()) == delimiter()
}

/// Whether the delimiter occurs anywhere in `t`.
pub open spec fn has_delimiter(t: Seq<char>) -> bool {
    exists|i: int| delimiter_at(t, i)
}

/// Whether `i` is where the first occurrence of the delimiter in `t` starts.
pub open spec fn is_first_delimiter(t: Seq<char>, i: int) -> bool {
    &&& delimiter_at(t, i)
    &&& forall|j: int| 0 <= j < i ==> !delimiter_at(t, j)
}

/// Where the first occurrence of the delimiter in `t` starts (meaningful when
/// `has_delimiter(t)`).
pub open spec fn first_delimiter(t: Seq<char>) -> int {
    choose|i: int| is_first_delimiter(t, i)
}

/// The snippets of a snippet file with contents `t`: the pieces of `t` between
/// occurrences of the delimiter, found from left to right without overlap. Text
/// with no delimiter, the empty text included, is one snippet.
pub open spec fn segments(t: Seq<char>) -> Seq<Seq<char>>
    decreases t.len(),
    via segments_decreases
{
    if has_delimiter(t) {
        let i = first_delimiter(t);
        seq![t.subrange(0, i)] + segments(t.subrange(i + delimiter().len(), t.len() as int))
    } else {
        seq![t]
    }
}

#[via_fn]
proof fn segments_decreases(t: Seq<char>) {
    if has_delimiter(t) {
        lemma_first_delimiter(t);
    }
}

/// Any text that holds the delimiter has a first occurrence of it.
pub proof fn lemma_first_delimiter(t: Seq<char>)
    requires
        has_delimiter(t),
    ensures
        is_first_delimiter(t, first_delimiter(t)),
{
    let k = choose|k: int| delimiter_at(t, k);
    lemma_first_delimiter_at_most(t, k);
}

proof fn lemma_first_delimiter_at_most(t: Seq<char>, k: int)
    requires
        delimiter_at(t, k),
    ensures
        exists|i: int| is_first_delimiter(t, i),
    decreases k,
{
    if exists|j: int| 0 <= j < k && delimiter_at(t, j) {
        let j = choose|j: int| 0 <= j < k && delimiter_at(t, j);
        lemma_first_delimiter_at_most(t, j);
    } else {
        assert(is_first_delimiter(t, k));
    }
}

/// The snippets `segs`, written one after the other with the delimiter between
/// each two.
pub open spec fn joined(segs: Seq<Seq<char>>) -> Seq<char>
    decreases segs.len(),
{
    if segs.len() == 0 {
        Seq::empty()
    } else if segs.len() == 1 {
        segs[0]
    } else {
        segs[0] + delimiter() + joined(segs.drop_first())
    }
}

/// Every text has at least one snippet.
pub proof fn lemma_segments_nonempty(t: Seq<char>)
    ensures
        segments(t).len() >= 1,
    decreases t.len(),
{
    if has_delimiter(t) {
        lemma_first_delimiter(t);
        let i = first_delimiter(t);
        lemma_segments_nonempty(t.subrange(i + delimiter().len(), t.len() as int));
    }
}

/// Cutting a text into snippets loses nothing: putting the snippets back
/// together, with the delimiter between each two, gives the text again. So each
/// snippet is exactly the text between one occurrence of the delimiter and the
/// next (or the start or end of the text).
pub proof fn lemma_segments_rejoin(t: Seq<char>)
    ensures
        joined(segments(t)) == t,
    decreases t.len(),
{
    if has_delimiter(t) {
        lemma_first_delimiter(t);
        let i = first_delimiter(t);
        let d = delimiter().len();
        let rest = t.subrange(i + d, t.len() as int);
        lemma_segments_rejoin(rest);
        lemma_segments_nonempty(rest);
        let segs = segments(t);
        assert(segs.drop_first() =~= segments(rest));
        assert(t =~= t.subrange(0, i) + delimiter() + rest);
    }
}

/// No snippet holds the delimiter: every occurrence of it in the text falls
/// between two snippets.
pub proof fn lemma_segments_free_of_delimiter(t: Seq<char>, k: int)
    requires
        0 <= k < segments(t).len(),
    ensures
        !has_delimiter(segments(t)[k]),
    decreases t.len(),
{
    if has_delimiter(t) {
        lemma_first_delimiter(t);
        let i = first_delimiter(t);
        let rest = t.subrange(i + delimiter().len(), t.len() as int);
        if k == 0 {
            let head = t.subrange(0, i);
            assert forall|j: int| !delimiter_at(head, j) by {
                if delimiter_at(head, j) {
                    assert(head.subrange(j, j + delimiter().len()) =~= t.subrange(
                        j,
                        j + delimiter().len(),
                    ));
                    assert(delimiter_at(t, j));
                }
            }
        } else {
            lemma_segments_free_of_delimiter(rest, k - 1);
        }
    }
}

/// The characters of `text`, in order.
fn chars_of(text: &str) -> (r: Vec<char>)
    ensures
        r@ == text@,
{
    let mut chars: Vec<char> = Vec::new();
    for c in it: text.chars()
        invariant
            chars@ == it.seq().take(it.index()),
    {
        chars.push(c);
    }
    chars
}

/// Looking for the delimiter in a suffix of `t` is looking for it in `t`, shifted.
proof fn lemma_delimiter_in_suffix(t: Seq<char>, s: int, k: int)
    requires
        0 <= s <= t.len(),
        0 <= k,
    ensures
        delimiter_at(t.subrange(s, t.len() as int), k) == delimiter_at(t, s + k),
{
    if s + k + delimiter().len() <= t.len() {
        assert(t.subrange(s, t.len() as int).subrange(k, k + delimiter().len()) =~= t.subrange(
            s + k,
            s + k + delimiter().len(),
        ));
    }
}

/// Whether the delimiter starts at index `i` of `chars`.
fn delimiter_starts_at(chars: &Vec<char>, i: usize) -> (r: bool)
    requires
        i + delimiter().len() <= chars@.len(),
    ensures
        r == delimiter_at(chars@, i as int),
{
    assert(delimiter().len() == 6);
    let n = chars.len();
    assert(i + 6 <= n);
    let r = chars[i] == '\n' && chars[i + 1] == '-' && chars[i + 2] == '-' && chars[i + 3] == '-'
        && chars[i + 4] == '\n' && chars[i + 5] == '\n';
    proof {
        let window = chars@.subrange(i as int, i + delimiter().len());
        if r {
            assert(window =~= delimiter());
        } else {
            assert(window[0] != delimiter()[0] || window[1] != delimiter()[1] || window[2]
                != delimiter()[2] || window[3] != delimiter()[3] || window[4] != delimiter()[4]
                || window[5] != delimiter()[5]);
        }
    }
    r
}

/// The snippet at zero-based `position` of a snippet file whose contents are
/// `text`; `RunOutOfSnippets` where the file has no snippet there.
pub fn snippet_at(text: &str, position: usize) -> (r: Result<String, LazyCoderError>)
    ensures
        snippet_of(text@, position as int) matches Some(snippet) ==> (r matches Ok(s) && s@
            == snippet),
        snippet_of(text@, position as int) is None ==> (r matches Err(
            LazyCoderError::RunOutOfSnippets,
        )),
{
    let chars = chars_of(text);
    let n = chars.len();
    let ghost t = text@;
    let mut index: usize = 0;
    let mut start: usize = 0;
    let mut i: usize = 0;
    assert(t.subrange(0, n as int) =~= t);
    while n - i >= 6
        invariant
            t == text@,
            chars@ == t,
            n == t.len(),
            index <= position,
            start <= i <= n,
            segments(t).len() == index + segments(t.subrange(start as int, n as int)).len(),
            forall|k: int|
                0 <= k < segments(t.subrange(start as int, n as int)).len() ==> segments(t)[index
                    + k] == #[trigger] segments(t.subrange(start as int, n as int))[k],
            forall|j: int| start <= j < i ==> !delimiter_at(t, j),
        decreases n - i,
    {
        if delimiter_starts_at(&chars, i) {
            let ghost rest = t.subrange(start as int, n as int);
            proof {
                let f = (i - start) as int;
                lemma_delimiter_in_suffix(t, start as int, f);
                assert forall|j: int| 0 <= j < f implies !delimiter_at(rest, j) by {
                    lemma_delimiter_in_suffix(t, start as int, j);
                }
                assert(is_first_delimiter(rest, f));
                lemma_first_delimiter(rest);
                let g = first_delimiter(rest);
                assert(g == f) by {
                    if g < f {
                    } else if f < g {
                    }
                }
                assert(rest.subrange(f + 6, rest.len() as int) =~= t.subrange(i + 6, n as int));
                assert(segments(rest) == seq![rest.subrange(0, f)] + segments(
                    t.subrange(i + 6, n as int),
                ));
                let next = t.subrange(i + 6, n as int);
                assert forall|k: int| 0 <= k < segments(next).len() implies segments(t)[index + 1
                    + k] == #[trigger] segments(next)[k] by {
                    assert(segments(rest)[1 + k] == segments(next)[k]);
                }
            }
            if index == position {
                proof {
                    assert(rest.subrange(0, (i - start) as int) =~= t.subrange(start as int, i as int));
                    assert(segments(t)[index as int] == segments(rest)[0]);
                }
                return Ok(text.substring_char(start, i).to_string());
            }
            index = index + 1;
            i = i + 6;
            start = i;
        } else {
            i = i + 1;
        }
    }
    let ghost rest = t.subrange(start as int, n as int);
    proof {
        assert forall|k: int| !delimiter_at(rest, k) by {
            if 0 <= k {
                lemma_delimiter_in_suffix(t, start as int, k);
            }
        }
        assert(segments(rest) == seq![rest]);
        assert(segments(rest)[0] == rest);
    }
    if index == position {
        Ok(text.substring_char(start, n).to_string())
    } else {
        Err(LazyCoderError::RunOutOfSnippets)
    }
}

/// What asking for the snippet at `position` of a file with contents `t` yields:
/// the snippet, or nothing where the file has no snippet there.
pub open spec fn snippet_of(t: Seq<char>, position: int) -> Option<Seq<char>> {
    if 0 <= position < segments(t).len() {
        Some(segments(t)[position])
    } else {
        None
    }
}

/// Hands over the whole text of a snippet file, read anew on each call.
pub trait WholeFileReader {
    fn read_to_string(&self) -> Result<String, std::io::Error>;
}

/// The snippet at `position` of a snippet file, given what reading the file
/// gave: `SnippetFileError` carrying the failure where reading failed, and
/// otherwise what `snippet_at` gives on the text read.
pub fn snippet_from(read: Result<String, std::io::Error>, position: usize) -> (r: Result<
    String,
    LazyCoderError,
>)
    ensures
        read matches Err(e) ==> r == Err::<String, LazyCoderError>(
            LazyCoderError::SnippetFileError(e),
        ),
        read matches Ok(text) ==> (snippet_of(text@, position as int) matches Some(snippet) ==> (
        r matches Ok(s) && s@ == snippet)),
        read matches Ok(text) ==> (snippet_of(text@, position as int) is None ==> (r matches Err(
            LazyCoderError::RunOutOfSnippets,
        ))),
{
    match read {
        Ok(text) => snippet_at(text.as_str(), position),
        Err(err) => Err(LazyCoderError::SnippetFileError(err)),
    }
}

/// Anything that can be asked for the snippet at a zero-based position.
pub trait SnippetProvider {
    /// Whether `r` is an answer this provider may give when asked for the
    /// snippet at `position`. A provider that states nothing of its answers
    /// keeps the default: any answer.
    open spec fn answers(&self, position: usize, r: Result<String, LazyCoderError>) -> bool {
        true
    }

    fn get_snippet(&self, position: usize) -> (r: Result<String, LazyCoderError>)
        ensures
            self.answers(position, r),
    ;
}

/// Serves the snippets of the text that its reader hands over. The text is read
/// again for every request, so that edits to the file are seen at once.
pub struct SnippetHandler<R> {
    reader: R,
}

impl<R: WholeFileReader> SnippetHandler<R> {
    /// The reader this handler takes its text from.
    pub closed spec fn reader_spec(&self) -> R {
        self.reader
    }

    /// A handler that takes its text from `reader`.
    pub fn new(reader: R) -> (r: SnippetHandler<R>)
        ensures
            r.reader_spec() == reader,
    {
        SnippetHandler { reader }
    }

    /// Makes the handler take its text from `reader` from now on.
    pub fn set_reader(&mut self, reader: R)
        ensures
            final(self).reader_spec() == reader,
    {
        self.reader = reader;
    }
}

impl<R: WholeFileReader> SnippetProvider for SnippetHandler<R> {
    /// The text may change between two reads, so an answer is any snippet of
    /// some text at `position`, a failure to read, or running out of snippets;
    /// a file always has a snippet at position 0.
    open spec fn answers(&self, position: usize, r: Result<String, LazyCoderError>) -> bool {
        &&& r matches Ok(s) ==> exists|t: Seq<char>| snippet_of(t, position as int) == Some(s@)
        &&& r matches Err(e) ==> (e is SnippetFileError || e is RunOutOfSnippets)
        &&& position == 0 ==> !(r matches Err(LazyCoderError::RunOutOfSnippets))
    }

    /// The snippet at `position` of the text that the reader hands over now;
    /// `SnippetFileError` where the reader fails.
    fn get_snippet(&self, position: usize) -> (r: Result<String, LazyCoderError>) {
        let read = self.reader.read_to_string();
        proof {
            if read is Ok {
                lemma_segments_nonempty(read->Ok_0@);
            }
        }
        snippet_from(read, position)
    }
}

} // verus!

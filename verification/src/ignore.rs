//! Contents the user asked the synchronisation to leave alone, as written in
//! the ignore file of the synchronised folder: one `#<content id>` per line.

use vstd::prelude::*;
use crate::types::ContentId;
use crate::decimal::{decimal, format_i32, parse_i32, spec_parse_i32, law_parse_reads_back_format,
    lemma_decimal_shape};
use crate::text::{concat, joined_lines, lines, split_lines, starts_with_char, strip_cr, substring,
    lemma_newline_index};

verus! {

/// Name of the ignore file in the synchronised folder.
pub const IGNORE_FILE_NAME: &'static str = ".trsyncignore";

/// The I/O error of std, carried through unopened.
#[verifier::external_type_specification]
#[verifier::external_body]
pub struct ExIoError(std::io::Error);

/// Failure to read the ignore file.
#[derive(Debug)]
pub enum IgnoreError {
    IoError(std::io::Error),
}

/// The content a line of the ignore file names, if it names one: `#`
/// followed by the decimal writing of the identifier.
pub open spec fn ignored_id(line: Seq<char>) -> Option<ContentId> {
    if line.len() > 0 && line[0] == '#' {
        spec_parse_i32(line.drop_first())
    } else {
        None
    }
}

/// The contents the first `n` lines name, in order.
pub open spec fn ignored_ids(ls: Seq<Seq<char>>, n: int) -> Seq<ContentId>
    decreases n,
{
    if n <= 0 {
        Seq::empty()
    } else {
        match ignored_id(ls[n - 1]) {
            Some(id) => ignored_ids(ls, n - 1).push(id),
            None => ignored_ids(ls, n - 1),
        }
    }
}

/// The contents an ignore file names, in order.
pub open spec fn ignored_in(text: Seq<char>) -> Seq<ContentId> {
    ignored_ids(lines(text), lines(text).len() as int)
}

/// The line of the ignore file naming a content.
pub open spec fn ignore_line(id: ContentId) -> Seq<char> {
    seq!['#'] + decimal(id as int)
}

/// The ignore file naming `ids`, in order, one per line.
pub open spec fn ignore_text(ids: Seq<ContentId>) -> Seq<char> {
    joined_lines(ids.map_values(|id: ContentId| ignore_line(id)))
}

/// Contents the synchronisation leaves alone.
#[derive(Debug, Clone)]
pub struct Ignore {
    content_ids: Vec<ContentId>,
}

impl View for Ignore {
    type V = Seq<ContentId>;

    closed spec fn view(&self) -> Seq<ContentId> {
        self.content_ids@
    }
}

impl Ignore {
    /// Nothing ignored.
    pub fn empty() -> (r: Ignore)
        ensures
            r@ == Seq::<ContentId>::empty(),
    {
        Ignore { content_ids: Vec::new() }
    }

    /// Ignores one more content.
    pub fn push(&mut self, content_id: ContentId)
        ensures
            final(self)@ == old(self)@.push(content_id),
    {
        self.content_ids.push(content_id)
    }

    /// The ignored contents, in order.
    pub fn content_ids(&self) -> (r: &[ContentId])
        ensures
            r@ == self@,
    {
        self.content_ids.as_slice()
    }

    /// Whether a content is ignored.
    pub fn is_ignored(&self, content_id: &ContentId) -> (r: bool)
        ensures
            r == self@.contains(*content_id),
    {
        let n = self.content_ids.len();
        let mut i: usize = 0;
        while i < n
            invariant
                n == self.content_ids@.len(),
                i <= n,
                forall|j: int| 0 <= j < i ==> self.content_ids@[j] != *content_id,
            decreases n - i,
        {
            if self.content_ids[i] == *content_id {
                assert(self@[i as int] == *content_id);
                return true;
            }
            i = i + 1;
        }
        false
    }

    /// The contents an ignore file names (lines not of the form `#<id>` are skipped).
    pub fn from_text(text: &str) -> (r: Ignore)
        ensures
            r@ == ignored_in(text@),
    {
        let ls = split_lines(text);
        let ghost views = ls@.map_values(|l: String| l@);
        let mut ids: Vec<ContentId> = Vec::new();
        let n = ls.len();
        let mut i: usize = 0;
        while i < n
            invariant
                n == ls@.len(),
                views == ls@.map_values(|l: String| l@),
                views == lines(text@),
                i <= n,
                ids@ == ignored_ids(views, i as int),
            decreases n - i,
        {
            let line = ls[i].as_str();
            assert(views[i as int] == line@);
            if starts_with_char(line, '#') {
                let rest = substring(line, 1, line.unicode_len());
                assert(rest@ =~= line@.drop_first());
                match parse_i32(rest.as_str()) {
                    Some(id) => ids.push(id),
                    None => {},
                }
            }
            i = i + 1;
        }
        Ignore { content_ids: ids }
    }

    /// The ignore file naming the ignored contents, one per line.
    pub fn to_text(&self) -> (r: String)
        ensures
            r@ == ignore_text(self@),
    {
        let ghost items = self@.map_values(|id: ContentId| ignore_line(id));
        let mut text = String::new();
        let n = self.content_ids.len();
        let mut i: usize = 0;
        proof {
            reveal_strlit("#");
            reveal_strlit("\n");
            assert(items.take(0) =~= Seq::<Seq<char>>::empty());
        }
        while i < n
            invariant
                n == self@.len(),
                items == self@.map_values(|id: ContentId| ignore_line(id)),
                i <= n,
                text@ == joined_lines(items.take(i as int)),
                "#"@ == seq!['#'],
                "\n"@ == seq!['\n'],
            decreases n - i,
        {
            let line = concat("#", format_i32(self.content_ids[i]).as_str());
            assert(line@ == items[i as int]);
            proof {
                assert(items.take(i + 1) =~= items.take(i as int).push(items[i as int]));
                lemma_joined_push(items.take(i as int), items[i as int]);
            }
            if i == 0 {
                text = line;
            } else {
                let with_separator = concat(text.as_str(), "\n");
                text = concat(with_separator.as_str(), line.as_str());
            }
            i = i + 1;
        }
        assert(items.take(n as int) =~= items);
        text
    }
}

/// Joining one more line appends a line feed and the line (nothing before
/// the first line).
pub proof fn lemma_joined_push(ls: Seq<Seq<char>>, l: Seq<char>)
    ensures
        joined_lines(ls.push(l)) == if ls.len() == 0 { l } else { joined_lines(ls) + seq!['\n'] + l },
    decreases ls.len(),
{
    if ls.len() == 0 {
        assert(ls.push(l).len() == 1);
        assert(ls.push(l)[0] == l);
    } else if ls.len() == 1 {
        assert(ls.push(l).drop_first() =~= seq![l]);
        assert(joined_lines(seq![l]) == l);
        assert(ls.push(l)[0] == ls[0]);
        assert(joined_lines(ls) == ls[0]);
        assert(joined_lines(ls.push(l)) =~= joined_lines(ls) + seq!['\n'] + l);
    } else if ls.len() > 1 {
        assert(ls.push(l)[0] == ls[0]);
        lemma_joined_push(ls.drop_first(), l);
        assert(ls.push(l).drop_first() =~= ls.drop_first().push(l));
        assert(joined_lines(ls.push(l)) =~= joined_lines(ls) + seq!['\n'] + l);
    }
}

/// Lines that hold no line feed and do not end with a carriage return are
/// given back by splitting their joining.
pub proof fn lemma_lines_of_joined(ls: Seq<Seq<char>>)
    requires
        forall|i: int| 0 <= i < ls.len() ==> (#[trigger] ls[i]).len() > 0 && ls[i].last() != '\r' && forall|j: int|
            0 <= j < ls[i].len() ==> ls[i][j] != '\n',
    ensures
        lines(joined_lines(ls)) == ls,
    decreases ls.len(),
{
    if ls.len() == 0 {
        assert(lines(joined_lines(ls)) =~= ls);
    } else if ls.len() == 1 {
        lemma_newline_index(ls[0], -1);
        assert(lines(joined_lines(ls)) =~= ls);
    } else {
        let first = ls[0];
        let rest = ls.drop_first();
        assert forall|i: int| 0 <= i < rest.len() implies (#[trigger] rest[i]).len() > 0 && rest[i].last() != '\r'
            && forall|j: int| 0 <= j < rest[i].len() ==> rest[i][j] != '\n' by {
            assert(rest[i] == ls[i + 1]);
        }
        lemma_lines_of_joined(rest);
        let s = joined_lines(ls);
        assert(s == first + seq!['\n'] + joined_lines(rest));
        lemma_newline_index(s, first.len() as int);
        assert(s.take(first.len() as int) =~= first);
        assert(s.skip(first.len() as int + 1) =~= joined_lines(rest));
        assert(strip_cr(first) == first);
        assert(lines(s) =~= seq![first] + rest);
        assert(seq![first] + rest =~= ls);
    }
}

proof fn lemma_ignored_ids_of_lines(ids: Seq<ContentId>, n: int)
    requires
        0 <= n <= ids.len(),
    ensures
        ignored_ids(ids.map_values(|id: ContentId| ignore_line(id)), n) == ids.take(n),
    decreases n,
{
    if n > 0 {
        lemma_ignored_ids_of_lines(ids, n - 1);
        let ls = ids.map_values(|id: ContentId| ignore_line(id));
        law_parse_reads_back_format(ids[n - 1]);
        assert(ls[n - 1].drop_first() =~= decimal(ids[n - 1] as int));
        assert(ids.take(n) =~= ids.take(n - 1).push(ids[n - 1]));
    }
}

/// Reading back a written ignore file gives the ignored contents, in order.
pub proof fn law_ignore_file_reads_back(ids: Seq<ContentId>)
    ensures
        ignored_in(ignore_text(ids)) == ids,
{
    let ls = ids.map_values(|id: ContentId| ignore_line(id));
    assert forall|i: int| 0 <= i < ls.len() implies (#[trigger] ls[i]).len() > 0 && ls[i].last() != '\r'
        && forall|j: int| 0 <= j < ls[i].len() ==> ls[i][j] != '\n' by {
        let id = ids[i];
        lemma_decimal_shape(id);
        assert(ls[i] == seq!['#'] + decimal(id as int));
        assert forall|j: int| 0 <= j < ls[i].len() implies ls[i][j] != '\n' by {
            if j > 0 {
                assert(ls[i][j] == decimal(id as int)[j - 1]);
            }
        }
    }
    lemma_lines_of_joined(ls);
    lemma_ignored_ids_of_lines(ids, ids.len() as int);
    assert(ids.take(ids.len() as int) =~= ids);
}

} // verus!

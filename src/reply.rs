//! Framing of control replies: status lines, continuations and raw data blocks.
use vstd::prelude::*;
use crate::text::{is_eol, slice_string, strip_eol, strip_eol_string, views};

verus! {

/// Why a reply did not come back as a success.
#[derive(Debug, Clone, PartialEq, Eq)]
pub enum ControlError {
    /// The channel closed before the reply was complete.
    Io,
    /// The daemon rejected the command (codes 515, 550 and 551).
    Protocol { code: u16, message: String },
    /// A final status line with a code that this client does not handle.
    Unexpected { code: u16, message: String },
}

/// What feeding one line did to a reply in progress.
pub enum Progress {
    More,
    Complete,
    Failed(ControlError),
}

/// The outcome of a line, as the model states it.
pub enum LineOutcome {
    More,
    Complete,
    Rejected { code: int, message: Seq<char>, known: bool },
}

pub open spec fn is_digit(c: char) -> bool {
    '0' <= c && c <= '9'
}

pub open spec fn digit_value(c: char) -> int {
    c as int - '0' as int
}

/// `t` starts with a three-digit status code followed by `sep`.
pub open spec fn is_status(t: Seq<char>, sep: char) -> bool {
    t.len() >= 4 && is_digit(t[0]) && is_digit(t[1]) && is_digit(t[2]) && t[3] == sep
}

pub open spec fn code_of(t: Seq<char>) -> int {
    digit_value(t[0]) * 100 + digit_value(t[1]) * 10 + digit_value(t[2])
}

/// The text after the status code and its separator.
pub open spec fn rest_of(t: Seq<char>) -> Seq<char> {
    t.subrange(4, t.len() as int)
}

pub open spec fn is_error_code(code: int) -> bool {
    code == 515 || code == 550 || code == 551
}

/// The line that ends a raw data block.
pub open spec fn is_block_end(t: Seq<char>) -> bool {
    t.len() == 1 && t[0] == '.'
}

/// The effect of line `t`, without its terminator, on a reply holding `content`, with
/// `in_data` telling whether a raw data block is open: the new content, the
/// new block flag and the outcome. Status prefixes are checked before a line
/// is taken as data.
pub open spec fn feed_spec(content: Seq<Seq<char>>, in_data: bool, t: Seq<char>) -> (
    Seq<Seq<char>>,
    bool,
    LineOutcome,
) {
    if in_data && is_block_end(t) {
        (content, false, LineOutcome::More)
    } else if is_status(t, '+') && code_of(t) == 250 {
        (content.push(rest_of(t)), true, LineOutcome::More)
    } else if is_status(t, '-') && code_of(t) == 250 {
        (content.push(rest_of(t)), in_data, LineOutcome::More)
    } else if is_status(t, ' ') && code_of(t) == 250 {
        (content.push(rest_of(t)), in_data, LineOutcome::Complete)
    } else if is_status(t, ' ') && is_error_code(code_of(t)) {
        (content, in_data, LineOutcome::Rejected { code: code_of(t), message: rest_of(t), known: true })
    } else if is_status(t, ' ') {
        (content, in_data, LineOutcome::Rejected { code: code_of(t), message: rest_of(t), known: false })
    } else if in_data && t.len() > 0 {
        (content.push(t), true, LineOutcome::More)
    } else {
        (content, in_data, LineOutcome::More)
    }
}

impl ControlError {
    /// The error in the model's terms; `Io` is the end of input.
    pub open spec fn matches_outcome(&self, o: LineOutcome) -> bool {
        match (self, o) {
            (ControlError::Protocol { code, message }, LineOutcome::Rejected { code: c, message: m, known }) =>
                known && code == c && message@ == m,
            (ControlError::Unexpected { code, message }, LineOutcome::Rejected { code: c, message: m, known }) =>
                !known && code == c && message@ == m,
            _ => false,
        }
    }
}

/// A reply being assembled from the lines of one command.
pub struct ReplyReader {
    pub content: Vec<String>,
    pub in_data: bool,
}

impl ReplyReader {
    pub open spec fn content_view(&self) -> Seq<Seq<char>> {
        views(self.content@)
    }

    pub fn new() -> (r: ReplyReader)
        ensures
            r.content_view() == Seq::<Seq<char>>::empty(),
            !r.in_data,
    {
        ReplyReader { content: Vec::new(), in_data: false }
    }

    /// Takes one line as read from the channel, with or without its terminator.
    pub fn feed(&mut self, line: &str) -> (r: Progress)
        ensures
            ({
                let (c, d, o) = feed_spec(old(self).content_view(), old(self).in_data, strip_eol(line@));
                &&& final(self).content_view() == c
                &&& final(self).in_data == d
                &&& match r {
                    Progress::More => o is More,
                    Progress::Complete => o is Complete,
                    Progress::Failed(e) => e.matches_outcome(o),
                }
            }),
    {
        let t = strip_eol_string(line);
        let n = t.as_str().unicode_len();
        let plus = status_exec(t.as_str(), '+');
        let dash = status_exec(t.as_str(), '-');
        let space = status_exec(t.as_str(), ' ');
        let code: u16 = if plus || dash || space { code_exec(t.as_str()) } else { 0 };
        if self.in_data && n == 1 && t.as_str().get_char(0) == '.' {
            self.in_data = false;
            Progress::More
        } else if (plus || dash || space) && code == 250 {
            let rest = slice_string(t.as_str(), 4, n);
            self.push_content(rest);
            if plus {
                self.in_data = true;
                Progress::More
            } else if dash {
                Progress::More
            } else {
                Progress::Complete
            }
        } else if space && (code == 515 || code == 550 || code == 551) {
            let rest = slice_string(t.as_str(), 4, n);
            Progress::Failed(ControlError::Protocol { code, message: rest })
        } else if space {
            let rest = slice_string(t.as_str(), 4, n);
            Progress::Failed(ControlError::Unexpected { code, message: rest })
        } else if self.in_data && n > 0 {
            self.push_content(t);
            Progress::More
        } else {
            Progress::More
        }
    }

    fn push_content(&mut self, s: String)
        ensures
            final(self).content_view() == old(self).content_view().push(s@),
            final(self).in_data == old(self).in_data,
    {
        proof {
            assert(views(self.content@.push(s)) =~= views(self.content@).push(s@));
        }
        self.content.push(s);
    }
}

/// The reply that `lines[i..]` complete, from `content` and block flag
/// `in_data`: the content reached and the outcome of the line that ended it,
/// or `None` where the lines ran out first.
pub open spec fn reply_from(lines: Seq<Seq<char>>, i: int, content: Seq<Seq<char>>, in_data: bool) -> (
    Seq<Seq<char>>,
    Option<LineOutcome>,
)
    decreases lines.len() - i,
{
    if i >= lines.len() || i < 0 {
        (content, None)
    } else {
        let (c, d, o) = feed_spec(content, in_data, strip_eol(lines[i]));
        match o {
            LineOutcome::More => reply_from(lines, i + 1, c, d),
            _ => (c, Some(o)),
        }
    }
}

/// The reply that `lines` make, read from the first.
pub open spec fn reply_of(lines: Seq<Seq<char>>) -> (Seq<Seq<char>>, Option<LineOutcome>) {
    reply_from(lines, 0, Seq::empty(), false)
}

/// Assembles the reply that `lines` make. Lines after the one that ends the
/// reply are not read.
pub fn parse_reply(lines: &[String]) -> (r: Result<Vec<String>, ControlError>)
    ensures
        ({
            let (c, o) = reply_of(views(lines@));
            match o {
                None => r matches Err(ControlError::Io),
                Some(LineOutcome::Complete) => r matches Ok(v) && views(v@) == c,
                Some(out) => r matches Err(e) && e.matches_outcome(out),
            }
        }),
{
    let mut reader = ReplyReader::new();
    let mut i: usize = 0;
    while i < lines.len()
        invariant
            i <= lines@.len(),
            reply_from(views(lines@), i as int, reader.content_view(), reader.in_data)
                == reply_of(views(lines@)),
        decreases lines@.len() - i,
    {
        match reader.feed(lines[i].as_str()) {
            Progress::More => {},
            Progress::Complete => {
                return Ok(reader.content);
            },
            Progress::Failed(e) => {
                return Err(e);
            },
        }
        i = i + 1;
    }
    Err(ControlError::Io)
}

/// A final line with code 515, 550 or 551 is a rejection of the command,
/// whatever came before it, and never adds to the reply.
pub proof fn lemma_error_codes_reject(content: Seq<Seq<char>>, in_data: bool, t: Seq<char>)
    requires
        is_status(t, ' '),
        is_error_code(code_of(t)),
    ensures
        feed_spec(content, in_data, t).2 == (LineOutcome::Rejected {
            code: code_of(t),
            message: rest_of(t),
            known: true,
        }),
        feed_spec(content, in_data, t).0 == content,
{
}

/// A reply whose lines before the last all leave it open, and whose last line
/// is a final status line with code 515, 550 or 551, is a rejection and never
/// a success.
pub proof fn lemma_rejected_reply(lines: Seq<Seq<char>>, i: int, content: Seq<Seq<char>>, in_data: bool)
    requires
        0 <= i < lines.len(),
        is_status(strip_eol(lines.last()), ' '),
        is_error_code(code_of(strip_eol(lines.last()))),
        forall|j: int| i <= j < lines.len() - 1 ==> !is_status(#[trigger] strip_eol(lines[j]), ' '),
    ensures
        reply_from(lines, i, content, in_data).1 == Some(
            LineOutcome::Rejected {
                code: code_of(strip_eol(lines.last())),
                message: rest_of(strip_eol(lines.last())),
                known: true,
            },
        ),
    decreases lines.len() - i,
{
    if i < lines.len() - 1 {
        let (c, d, o) = feed_spec(content, in_data, strip_eol(lines[i]));
        lemma_rejected_reply(lines, i + 1, c, d);
    }
}

/// A final status line with a code other than 250, 515, 550 and 551 is an
/// unexpected error, also inside a raw data block, and never adds to the reply.
pub proof fn lemma_unhandled_codes_reject(content: Seq<Seq<char>>, in_data: bool, t: Seq<char>)
    requires
        is_status(t, ' '),
        code_of(t) != 250,
        !is_error_code(code_of(t)),
    ensures
        feed_spec(content, in_data, t).2 == (LineOutcome::Rejected {
            code: code_of(t),
            message: rest_of(t),
            known: false,
        }),
        feed_spec(content, in_data, t).0 == content,
{
}

/// A status line with code 250, separator `sep` and text `text`, as written on the wire.
pub open spec fn ok_line(sep: char, text: Seq<char>) -> Seq<char> {
    seq!['2', '5', '0', sep] + text + seq!['\r', '\n']
}

/// The texts of a reply line, which end in no line terminator.
pub open spec fn plain_texts(texts: Seq<Seq<char>>) -> bool {
    forall|i: int| 0 <= i < texts.len() ==> (#[trigger] texts[i]).len() == 0 || !is_eol(texts[i].last())
}

proof fn lemma_ok_line(sep: char, text: Seq<char>)
    requires
        sep == '-' || sep == ' ',
        text.len() == 0 || !is_eol(text.last()),
    ensures
        strip_eol(ok_line(sep, text)) == seq!['2', '5', '0', sep] + text,
        is_status(strip_eol(ok_line(sep, text)), sep),
        code_of(strip_eol(ok_line(sep, text))) == 250,
        rest_of(strip_eol(ok_line(sep, text))) == text,
{
    let head = seq!['2', '5', '0', sep] + text;
    let l = ok_line(sep, text);
    assert(l =~= head + seq!['\r', '\n']);
    let n = l.len() as int;
    assert(l[n - 1] == '\n');
    assert(l[n - 2] == '\r');
    assert(l[n - 3] == head.last());
    assert(!is_eol(head.last()));
    assert(crate::text::back_eol(l, n - 2) == n - 2);
    assert(crate::text::back_eol(l, n - 1) == n - 2);
    assert(crate::text::back_eol(l, n) == n - 2);
    assert(strip_eol(l) =~= head);
    assert(rest_of(head) =~= text);
}

proof fn lemma_plain_reply_from(lines: Seq<Seq<char>>, texts: Seq<Seq<char>>, i: int)
    requires
        0 <= i < texts.len(),
        texts.len() <= lines.len(),
        plain_texts(texts),
        forall|j: int| 0 <= j < texts.len() - 1 ==> lines[j] == ok_line('-', #[trigger] texts[j]),
        lines[texts.len() - 1] == ok_line(' ', texts.last()),
    ensures
        reply_from(lines, i, texts.take(i), false) == (texts, Some(LineOutcome::Complete)),
    decreases texts.len() - i,
{
    let last = texts.len() - 1;
    let t = texts[i];
    assert(t.len() == 0 || !is_eol(t.last()));
    assert(texts.take(i).push(t) =~= texts.take(i + 1));
    if i < last {
        lemma_ok_line('-', t);
        lemma_plain_reply_from(lines, texts, i + 1);
    } else {
        lemma_ok_line(' ', t);
        assert(texts.take(i + 1) =~= texts);
    }
}

/// A reply of continuation lines `250-t` and a final line `250 t`, each with
/// its terminator, gives exactly its texts, in order; lines after the final
/// one are not read.
pub proof fn lemma_plain_reply(lines: Seq<Seq<char>>, texts: Seq<Seq<char>>)
    requires
        texts.len() > 0,
        texts.len() <= lines.len(),
        plain_texts(texts),
        forall|j: int| 0 <= j < texts.len() - 1 ==> lines[j] == ok_line('-', #[trigger] texts[j]),
        lines[texts.len() - 1] == ok_line(' ', texts.last()),
    ensures
        reply_of(lines) == (texts, Some(LineOutcome::Complete)),
{
    assert(texts.take(0) =~= Seq::<Seq<char>>::empty());
    lemma_plain_reply_from(lines, texts, 0);
}

pub fn status_exec(t: &str, sep: char) -> (r: bool)
    ensures
        r == is_status(t@, sep),
{
    if t.unicode_len() < 4 {
        return false;
    }
    is_digit_exec(t.get_char(0)) && is_digit_exec(t.get_char(1)) && is_digit_exec(t.get_char(2))
        && t.get_char(3) == sep
}

pub fn is_digit_exec(c: char) -> (r: bool)
    ensures
        r == is_digit(c),
{
    '0' <= c && c <= '9'
}

fn code_exec(t: &str) -> (r: u16)
    requires
        t@.len() >= 4,
        is_digit(t@[0]) && is_digit(t@[1]) && is_digit(t@[2]),
    ensures
        r as int == code_of(t@),
{
    let a = (t.get_char(0) as u32 - '0' as u32) as u16;
    let b = (t.get_char(1) as u32 - '0' as u32) as u16;
    let c = (t.get_char(2) as u32 - '0' as u32) as u16;
    a * 100 + b * 10 + c
}

} // verus!

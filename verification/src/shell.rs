//! Words of the shell: quoting them, and finding them in a command.
use vstd::prelude::*;
use crate::text;
use crate::text::{cat3, chars_of, is_blank, replace_text, space};

verus! {

/// A text in single quotes, so that the shell takes it as one word.
pub open spec fn quoted_word(value: Seq<char>) -> Seq<char> {
    "'"@ + text::replaced(value, "'"@, "'\\''"@) + "'"@
}

/// Writes a text so that the shell takes it as one word.
pub fn shell_quote(value: &str) -> (r: String)
    ensures
        r@ == quoted_word(value@),
{
    proof {
        reveal_strlit("'");
    }
    let inner = replace_text(value, "'", "'\\''");
    cat3("'", inner.as_str(), "'")
}

/// The words of a command that were found so far.
pub struct Scan {
    /// The commands that are complete.
    pub segments: Seq<Seq<Seq<char>>>,
    /// The words of the command at hand.
    pub segment: Seq<Seq<char>>,
    /// The characters of the word at hand.
    pub word: Seq<char>,
    /// The quote that is open.
    pub quote: Option<char>,
    /// Whether the next character stands for itself.
    pub escaped: bool,
}

/// Nothing was found yet.
pub open spec fn scan_start() -> Scan {
    Scan {
        segments: Seq::empty(),
        segment: Seq::empty(),
        word: Seq::empty(),
        quote: None,
        escaped: false,
    }
}

/// Ends a word, if there is one.
pub open spec fn word_ended(s: Scan) -> Scan {
    if s.word.len() > 0 {
        Scan { segment: s.segment.push(s.word), word: Seq::empty(), ..s }
    } else {
        s
    }
}

/// Ends a word and a command, if there are any.
pub open spec fn segment_ended(s: Scan) -> Scan {
    let now = word_ended(s);
    if now.segment.len() > 0 {
        Scan { segments: now.segments.push(now.segment), segment: Seq::empty(), ..now }
    } else {
        now
    }
}

/// Whether a character separates commands.
pub open spec fn is_separator(c: char) -> bool {
    c == ';' || c == '|' || c == '&' || c == '(' || c == ')'
}

/// The words after one more character.
pub open spec fn scan_step(s: Scan, c: char) -> Scan {
    if s.escaped {
        Scan { word: s.word.push(c), escaped: false, ..s }
    } else {
        match s.quote {
            Some(q) => if (q == '\'' && c == '\'') || (q == '"' && c == '"') {
                Scan { quote: None, ..s }
            } else if q == '"' && c == '\\' {
                Scan { escaped: true, ..s }
            } else {
                Scan { word: s.word.push(c), ..s }
            },
            None => if c == '\\' {
                Scan { escaped: true, ..s }
            } else if c == '\'' || c == '"' {
                Scan { quote: Some(c), ..s }
            } else if text::is_space(c) {
                word_ended(s)
            } else if is_separator(c) {
                segment_ended(s)
            } else {
                Scan { word: s.word.push(c), ..s }
            },
        }
    }
}

/// The words after a number of characters.
pub open spec fn scanned_text(s: Scan, text: Seq<char>) -> Scan
    decreases text.len(),
{
    if text.len() == 0 {
        s
    } else {
        scan_step(scanned_text(s, text.drop_last()), text.last())
    }
}

/// The words of the commands that a text is made of.
pub open spec fn command_segments(command: Seq<char>) -> Seq<Seq<Seq<char>>> {
    let s = scanned_text(scan_start(), command);
    segment_ended(
        if s.escaped {
            Scan { word: s.word.push('\\'), ..s }
        } else {
            s
        },
    ).segments
}

/// The contents of lists of texts.
pub open spec fn word_lists(list: Seq<Vec<String>>) -> Seq<Seq<Seq<char>>> {
    list.map_values(|words: Vec<String>| text::views(words@))
}

struct Scanner {
    segments: Vec<Vec<String>>,
    segment: Vec<String>,
    word: String,
    quote: Option<char>,
    escaped: bool,
}

impl View for Scanner {
    type V = Scan;

    closed spec fn view(&self) -> Scan {
        Scan {
            segments: word_lists(self.segments@),
            segment: text::views(self.segment@),
            word: self.word@,
            quote: self.quote,
            escaped: self.escaped,
        }
    }
}

impl Scanner {
    fn end_word(&mut self)
        ensures
            final(self)@ == word_ended(old(self)@),
    {
        if !is_blank(self.word.as_str()) {
            let mut word = String::new();
            std::mem::swap(&mut word, &mut self.word);
            let ghost text = word@;
            self.segment.push(word);
            assert(self@.segment =~= old(self)@.segment.push(text));
            assert(self@.word =~= Seq::empty());
        }
    }

    fn end_segment(&mut self)
        ensures
            final(self)@ == segment_ended(old(self)@),
    {
        self.end_word();
        let ghost now = self@;
        if self.segment.len() > 0 {
            let mut segment: Vec<String> = Vec::new();
            std::mem::swap(&mut segment, &mut self.segment);
            let ghost words = text::views(segment@);
            self.segments.push(segment);
            assert(self@.segments =~= now.segments.push(words));
            assert(self@.segment =~= Seq::empty());
        }
    }

    fn take(&mut self, c: char)
        ensures
            final(self)@ == scan_step(old(self)@, c),
    {
        if self.escaped {
            self.word.push(c);
            self.escaped = false;
            return ;
        }
        match self.quote {
            Some(q) => {
                if (q == '\'' && c == '\'') || (q == '"' && c == '"') {
                    self.quote = None;
                } else if q == '"' && c == '\\' {
                    self.escaped = true;
                } else {
                    self.word.push(c);
                }
            },
            None => {
                if c == '\\' {
                    self.escaped = true;
                } else if c == '\'' || c == '"' {
                    self.quote = Some(c);
                } else if space(c) {
                    self.end_word();
                } else if c == ';' || c == '|' || c == '&' || c == '(' || c == ')' {
                    self.end_segment();
                } else {
                    self.word.push(c);
                }
            },
        }
    }
}

/// Finds the words of the commands that a text is made of: quotes and backslashes are resolved,
/// and `;`, `|`, `&` and parentheses separate commands.
pub fn shell_command_segments(command: &str) -> (r: Vec<Vec<String>>)
    ensures
        word_lists(r@) == command_segments(command@),
{
    let c = chars_of(command);
    let mut s = Scanner {
        segments: Vec::new(),
        segment: Vec::new(),
        word: String::new(),
        quote: None,
        escaped: false,
    };
    assert(s@.segments =~= Seq::empty());
    assert(s@.segment =~= Seq::empty());
    assert(s@.word =~= Seq::empty());
    assert(command@.take(0) =~= Seq::empty());
    let mut i: usize = 0;
    while i < c.len()
        invariant
            0 <= i <= c.len(),
            c@ == command@,
            s@ == scanned_text(scan_start(), command@.take(i as int)),
        decreases c.len() - i,
    {
        let ghost next = command@.take(i + 1);
        assert(next.drop_last() =~= command@.take(i as int));
        s.take(c[i]);
        i += 1;
    }
    assert(command@.take(i as int) =~= command@);
    if s.escaped {
        s.word.push('\\');
    }
    s.end_segment();
    s.segments
}

proof fn lemma_scan_join(s: Scan, a: Seq<char>, b: Seq<char>)
    ensures
        scanned_text(s, a + b) == scanned_text(scanned_text(s, a), b),
    decreases b.len(),
{
    if b.len() == 0 {
        assert(a + b =~= a);
    } else {
        lemma_scan_join(s, a, b.drop_last());
        assert((a + b).drop_last() =~= a + b.drop_last());
        assert((a + b).last() == b.last());
    }
}

proof fn lemma_scan_one(s: Scan, c: char)
    ensures
        scanned_text(s, seq![c]) == scan_step(s, c),
{
    assert(seq![c].drop_last() =~= Seq::empty());
    assert(scanned_text(s, Seq::empty()) == s);
}

/// Inside single quotes, a text whose single quotes are replaced is taken as it is.
proof fn lemma_scan_inside(s: Scan, value: Seq<char>)
    requires
        s.quote == Some('\''),
        !s.escaped,
    ensures
        scanned_text(s, text::replaced(value, "'"@, "'\\''"@)) == (Scan { word: s.word + value, ..s }),
    decreases value.len(),
{
    reveal_strlit("'");
    reveal_strlit("'\\''");
    let q = seq!['\''];
    let e = seq!['\'', '\\', '\'', '\''];
    assert("'"@ =~= q);
    assert("'\\''"@ =~= e);
    if value.len() == 0 {
        assert(s.word + value =~= s.word);
        assert(scanned_text(s, value) == s);
    } else {
        let rest = value.skip(1);
        let c = value[0];
        let next = Scan { word: s.word.push(c), ..s };
        assert(text::stands_at(value, q, 0) == (c == '\'')) by {
            assert(value.subrange(0, 1) =~= seq![c]);
            assert(seq![c][0] == c && q[0] == '\'');
        }
        if c == '\'' {
            lemma_scan_join(s, e, text::replaced(rest, "'"@, "'\\''"@));
            let s1 = scan_step(s, '\'');
            let s2 = scan_step(s1, '\\');
            let s3 = scan_step(s2, '\'');
            let s4 = scan_step(s3, '\'');
            assert(e =~= seq!['\''] + (seq!['\\'] + (seq!['\''] + seq!['\''])));
            lemma_scan_join(s, seq!['\''], seq!['\\'] + (seq!['\''] + seq!['\'']));
            lemma_scan_join(s1, seq!['\\'], seq!['\''] + seq!['\'']);
            lemma_scan_join(s2, seq!['\''], seq!['\'']);
            lemma_scan_one(s, '\'');
            lemma_scan_one(s1, '\\');
            lemma_scan_one(s2, '\'');
            lemma_scan_one(s3, '\'');
            assert(s4 == next);
        } else {
            lemma_scan_join(s, seq![c], text::replaced(rest, "'"@, "'\\''"@));
            lemma_scan_one(s, c);
        }
        lemma_scan_inside(next, rest);
        assert(next.word + rest =~= s.word + value);
    }
}

/// A quoted text is read back as one command of one word: the text itself. (An empty text is no
/// word.)
pub proof fn law_quoted_word_is_read_back(value: Seq<char>)
    requires
        value.len() > 0,
    ensures
        command_segments(quoted_word(value)) == seq![seq![value]],
{
    let start = scan_start();
    lemma_word_added(start, value);
    let ended = segment_ended(Scan { word: value, ..start });
    assert(ended.segments =~= seq![seq![value]]);
}

/// Several quoted texts with spaces between them are read back as one command of these words.
pub proof fn law_quoted_words_are_read_back(a: Seq<char>, b: Seq<char>)
    requires
        a.len() > 0,
        b.len() > 0,
    ensures
        command_segments(quoted_word(a) + " "@ + quoted_word(b)) == seq![seq![a, b]],
{
    reveal_strlit("'");
    reveal_strlit(" ");
    assert("'"@ =~= seq!['\'']);
    assert(" "@ =~= seq![' ']);
    let start = scan_start();
    lemma_word_added(start, a);
    let one = Scan { word: a, ..start };
    let spaced = scan_step(one, ' ');
    assert(spaced == word_ended(one));
    lemma_scan_join(start, quoted_word(a) + " "@, quoted_word(b));
    lemma_scan_join(start, quoted_word(a), " "@);
    lemma_scan_one(one, ' ');
    lemma_word_added(spaced, b);
    let two = Scan { word: b, ..spaced };
    let ended = segment_ended(two);
    assert(spaced.segment =~= seq![a]);
    assert(seq![a].push(b) =~= seq![a, b]);
    assert(ended.segments =~= seq![seq![a, b]]);
}

proof fn lemma_word_added(s: Scan, value: Seq<char>)
    requires
        s.quote is None,
        !s.escaped,
        s.word.len() == 0,
    ensures
        scanned_text(s, quoted_word(value)) == (Scan { word: value, ..s }),
{
    reveal_strlit("'");
    assert("'"@ =~= seq!['\'']);
    let inner = text::replaced(value, "'"@, "'\\''"@);
    let opened = scan_step(s, '\'');
    assert(quoted_word(value) =~= seq!['\''] + (inner + seq!['\'']));
    lemma_scan_join(s, seq!['\''], inner + seq!['\'']);
    lemma_scan_one(s, '\'');
    lemma_scan_join(opened, inner, seq!['\'']);
    lemma_scan_inside(opened, value);
    assert(opened.word + value =~= value);
    let filled = Scan { word: value, ..opened };
    lemma_scan_one(filled, '\'');
    let closed = scan_step(filled, '\'');
    assert(closed == (Scan { word: value, ..s }));
}

} // verus!

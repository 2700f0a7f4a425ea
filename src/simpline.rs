use vstd::prelude::*;
use vstd::string::*;
use crate::text::{chars_of, contains, has_prefix, has_substring, opt_view, starts_with, views};

verus! {

/// ASCII whitespace, as `u8::is_ascii_whitespace` reads it.
pub open spec fn is_ascii_ws(c: char) -> bool {
    c == ' ' || c == '\t' || c == '\n' || c == '\x0C' || c == '\r'
}

/// Where the word that ends at `pos` begins: the nearest position at or
/// before `pos` that follows whitespace, or the start of the line.
pub open spec fn word_start(line: Seq<char>, pos: int) -> int
    decreases pos,
{
    if pos <= 0 {
        0
    } else if is_ascii_ws(line[pos - 1]) {
        pos
    } else {
        word_start(line, pos - 1)
    }
}

/// A word starts between the start of the line and the cursor.
pub proof fn lemma_word_start_bounds(line: Seq<char>, pos: int)
    requires
        0 <= pos,
    ensures
        0 <= word_start(line, pos) <= pos,
    decreases pos,
{
    if pos > 0 && !is_ascii_ws(line[pos - 1]) {
        lemma_word_start_bounds(line, pos - 1);
    }
}

/// The word under a cursor at `pos`.
pub open spec fn current_word(line: Seq<char>, pos: int) -> Seq<char> {
    line.subrange(word_start(line, pos), pos)
}

/// A candidate may complete `word` when it extends it and does not already
/// stand anywhere in the line.
pub open spec fn eligible(cand: Seq<char>, line: Seq<char>, word: Seq<char>) -> bool {
    !contains(line, cand) && starts_with(cand, word)
}

/// The first eligible candidate at index `from` or later.
pub open spec fn first_eligible(
    cands: Seq<Seq<char>>,
    line: Seq<char>,
    word: Seq<char>,
    from: int,
) -> Option<Seq<char>>
    decreases cands.len() - from,
{
    if from >= cands.len() {
        None
    } else if eligible(cands[from], line, word) {
        Some(cands[from])
    } else {
        first_eligible(cands, line, word, from + 1)
    }
}

/// The hint for a line with the cursor at `pos`: what the first eligible
/// candidate adds to the word under the cursor. There is none while the
/// cursor is inside the line, on an empty line, right after whitespace, or
/// when the candidate is the word itself.
pub open spec fn hint_of(cands: Seq<Seq<char>>, line: Seq<char>, pos: int) -> Option<Seq<char>> {
    if line.len() == 0 || pos < line.len() || is_ascii_ws(line.last()) {
        None
    } else {
        let word = current_word(line, pos);
        match first_eligible(cands, line, word, 0) {
            Some(c) => if c == word {
                None
            } else {
                Some(c.subrange(word.len() as int, c.len() as int))
            },
            None => None,
        }
    }
}

fn is_ascii_whitespace(c: char) -> (r: bool)
    ensures
        r == is_ascii_ws(c),
{
    c == ' ' || c == '\t' || c == '\n' || c == '\x0C' || c == '\r'
}

/// Unicode whitespace, as `char::is_whitespace` reads it.
pub open spec fn is_white_space(c: char) -> bool {
    let u = c as u32;
    (9 <= u <= 13) || u == 32 || u == 0x85 || u == 0xa0 || u == 0x1680 || (0x2000 <= u <= 0x200a)
        || u == 0x2028 || u == 0x2029 || u == 0x202f || u == 0x205f || u == 0x3000
}

fn is_whitespace(c: char) -> (r: bool)
    ensures
        r == is_white_space(c),
{
    let u = c as u32;
    (9 <= u && u <= 13) || u == 32 || u == 0x85 || u == 0xa0 || u == 0x1680 || (0x2000 <= u && u
        <= 0x200a) || u == 0x2028 || u == 0x2029 || u == 0x202f || u == 0x205f || u == 0x3000
}

/// The end of the run of non-whitespace characters that starts at `i`.
pub open spec fn run_end(s: Seq<char>, i: int) -> int
    decreases s.len() - i,
{
    if i >= s.len() || is_white_space(s[i]) {
        i
    } else {
        run_end(s, i + 1)
    }
}

/// A run ends between its start and the end of the sequence.
pub proof fn lemma_run_end_bounds(s: Seq<char>, i: int)
    requires
        i <= s.len(),
    ensures
        i <= run_end(s, i) <= s.len(),
    decreases s.len() - i,
{
    if i < s.len() && !is_white_space(s[i]) {
        lemma_run_end_bounds(s, i + 1);
    }
}

/// The whitespace-separated words of `s` from position `i` on, in order.
pub open spec fn words_from(s: Seq<char>, i: int) -> Seq<Seq<char>>
    decreases s.len() - i,
{
    if i >= s.len() {
        seq![]
    } else if is_white_space(s[i]) {
        words_from(s, i + 1)
    } else {
        let e = run_end(s, i);
        proof {
            lemma_run_end_bounds(s, i + 1);
        }
        seq![s.subrange(i, e)] + words_from(s, e)
    }
}

/// The whitespace-separated words of `s`, in order.
pub open spec fn words_of(s: Seq<char>) -> Seq<Seq<char>> {
    words_from(s, 0)
}

/// The terms of a submitted line: its whitespace-separated words. An empty
/// or blank line gives none.
pub fn split_words(line: &str) -> (r: Vec<String>)
    ensures
        views(r@) == words_of(line@),
{
    let c = chars_of(line);
    let n = c.len();
    let mut r: Vec<String> = Vec::new();
    let mut i: usize = 0;
    assert(views(r@) + words_from(line@, 0) =~= words_of(line@));
    while i < n
        invariant
            i <= n,
            n == line@.len(),
            c@ == line@,
            words_of(line@) == views(r@) + words_from(line@, i as int),
        decreases n - i,
    {
        if is_whitespace(c[i]) {
            i = i + 1;
        } else {
            let mut e: usize = i + 1;
            while e < n && !is_whitespace(c[e])
                invariant
                    i < e <= n,
                    n == line@.len(),
                    c@ == line@,
                    run_end(line@, i as int) == run_end(line@, e as int),
                decreases n - e,
            {
                e = e + 1;
            }
            let w = String::from_str(line.substring_char(i, e));
            let ghost before = r@;
            r.push(w);
            assert(views(r@) =~= views(before).push(w@));
            assert(views(before).push(w@) + words_from(line@, e as int) =~= views(before) + (seq![
                w@,
            ] + words_from(line@, e as int)));
            i = e;
        }
    }
    assert(words_from(line@, i as int) =~= Seq::<Seq<char>>::empty());
    assert(views(r@) + Seq::<Seq<char>>::empty() =~= views(r@));
    r
}

/// The escape sequences that show a hint in dim gray.
pub open spec fn dimmed(hint: Seq<char>) -> Seq<char> {
    seq!['\x1b', '[', '9', '0', 'm'] + hint + seq!['\x1b', '[', '0', 'm']
}

/// Shows hints dimmed, apart from what was typed.
pub struct SimpHighlighter {}

impl SimpHighlighter {
    /// The hint wrapped in the terminal codes for gray and for reset.
    pub fn highlight_hint(&self, hint: &str) -> (r: String)
        ensures
            r@ == dimmed(hint@),
    {
        let open = "\x1b[90m";
        let close = "\x1b[0m";
        proof {
            reveal_strlit("\x1b[90m");
            reveal_strlit("\x1b[0m");
        }
        let mut r = String::from_str(open);
        r.append(hint);
        r.append(close);
        assert(r@ =~= dimmed(hint@));
        r
    }
}

/// Offers inline completions for the word being typed.
#[derive(Clone)]
pub struct SimpHinter {
    completions: Vec<String>,
}

impl SimpHinter {
    /// The candidates, in the order in which they are tried.
    pub closed spec fn candidates(&self) -> Seq<Seq<char>> {
        views(self.completions@)
    }

    pub fn new(completions: Vec<String>) -> (r: Self)
        ensures
            r.candidates() == views(completions@),
    {
        SimpHinter { completions }
    }

    /// The rest of the first candidate that completes the word under the
    /// cursor; `pos` counts characters.
    pub fn hint(&self, line: &str, pos: usize) -> (r: Option<String>)
        requires
            pos <= line@.len(),
        ensures
            opt_view(r) == hint_of(self.candidates(), line@, pos as int),
            r is Some ==> current_word(line@, pos as int).len() > 0,
    {
        let lc = chars_of(line);
        let n = lc.len();
        if n == 0 || pos < n || is_ascii_whitespace(lc[n - 1]) {
            return None;
        }
        let mut start: usize = pos;
        while start > 0 && !is_ascii_whitespace(lc[start - 1])
            invariant
                start <= pos,
                pos == lc@.len(),
                lc@ == line@,
                word_start(line@, pos as int) == word_start(line@, start as int),
            decreases start,
        {
            start = start - 1;
        }
        proof {
            lemma_word_start_bounds(line@, pos as int - 1);
        }
        let word = chars_of(line.substring_char(start, pos));
        assert(word@ == current_word(line@, pos as int));
        let ghost cands = self.candidates();
        let mut i: usize = 0;
        while i < self.completions.len()
            invariant
                cands == views(self.completions@),
                pos == line@.len(),
                line@.len() > 0,
                !is_ascii_ws(line@.last()),
                i <= self.completions@.len(),
                lc@ == line@,
                word@ == current_word(line@, pos as int),
                word@.len() > 0,
                first_eligible(cands, line@, word@, 0) == first_eligible(
                    cands,
                    line@,
                    word@,
                    i as int,
                ),
            decreases self.completions@.len() - i,
        {
            let cand = self.completions[i].as_str();
            let c = chars_of(cand);
            assert(c@ == cands[i as int]);
            if !has_substring(&lc, &c) && has_prefix(&c, &word) {
                assert(first_eligible(cands, line@, word@, i as int) == Some(c@));
                if c.len() == word.len() {
                    assert(c@ =~= word@);
                    return None;
                }
                assert(c@.len() != word@.len());
                let rest = cand.substring_char(word.len(), c.len());
                return Some(String::from_str(rest));
            }
            i = i + 1;
        }
        None
    }
}

} // verus!

verus! {

/// A one-line prompt with inline hints over a fixed list of completions.
pub struct SimpLineReader {
    hinter: SimpHinter,
    prompt: String,
}

impl SimpLineReader {
    pub fn new(prompt: String, completions: Vec<String>) -> (r: Self)
        ensures
            r.prompt_view() == prompt@,
            r.hinter_view().candidates() == views(completions@),
    {
        SimpLineReader { hinter: SimpHinter::new(completions), prompt }
    }

    pub closed spec fn prompt_view(&self) -> Seq<char> {
        self.prompt@
    }

    pub closed spec fn hinter_view(&self) -> SimpHinter {
        self.hinter
    }

    /// The text shown before the cursor.
    pub fn prompt(&self) -> (r: &str)
        ensures
            r@ == self.prompt_view(),
    {
        self.prompt.as_str()
    }

    /// The hinter that serves this prompt.
    pub fn hinter(&self) -> (r: &SimpHinter)
        ensures
            *r == self.hinter_view(),
    {
        &self.hinter
    }
}

} // verus!

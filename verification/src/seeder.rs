//! Seeding the knowledge base from a text: one fact per line.
//!
//! Blank lines are skipped, and so are lines whose first character after the
//! leading white space is `#`. White space around a fact is not part of it.

use vstd::prelude::*;
use vstd::string::*;
use crate::state::AppState;
use crate::store::{first_misfit, Document, StoreError};

verus! {

/// Whether a character is white space: whether it has the Unicode property
/// `White_Space`.
pub open spec fn white_space(c: char) -> bool {
    let code = c as u32;
    ||| 0x09 <= code <= 0x0d
    ||| code == 0x20
    ||| code == 0x85
    ||| code == 0xa0
    ||| code == 0x1680
    ||| 0x2000 <= code <= 0x200a
    ||| code == 0x2028
    ||| code == 0x2029
    ||| code == 0x202f
    ||| code == 0x205f
    ||| code == 0x3000
}

/// Tells whether a character is white space.
pub fn is_white_space(c: char) -> (yes: bool)
    ensures
        yes == white_space(c),
{
    let code = c as u32;
    (0x09 <= code && code <= 0x0d) || code == 0x20 || code == 0x85 || code == 0xa0 || code
        == 0x1680 || (0x2000 <= code && code <= 0x200a) || code == 0x2028 || code == 0x2029
        || code == 0x202f || code == 0x205f || code == 0x3000
}

/// A line without the white space at its ends.
pub open spec fn trimmed(line: Seq<char>) -> Seq<char>
    decreases line.len(),
{
    if line.len() > 0 && white_space(line[0]) {
        trimmed(line.skip(1))
    } else if line.len() > 0 && white_space(line.last()) {
        trimmed(line.drop_last())
    } else {
        line
    }
}

/// Whether a trimmed line states a fact: it is not empty and no comment.
pub open spec fn is_fact(line: Seq<char>) -> bool {
    line.len() > 0 && line[0] != '#'
}

/// Where the line that holds position `from` ends: at the next line feed, or
/// at the end of the text.
pub open spec fn line_end(text: Seq<char>, from: int) -> int
    decreases text.len() - from,
{
    if from < 0 || from >= text.len() {
        text.len() as int
    } else if text[from] == '\n' {
        from
    } else {
        line_end(text, from + 1)
    }
}

/// A line ends at or behind the position where it starts.
pub proof fn lemma_line_end(text: Seq<char>, from: int)
    requires
        0 <= from <= text.len(),
    ensures
        from <= line_end(text, from) <= text.len(),
        line_end(text, from) < text.len() ==> text[line_end(text, from)] == '\n',
        forall|at: int| from <= at < line_end(text, from) ==> text[at] != '\n',
    decreases text.len() - from,
{
    if from < text.len() && text[from] != '\n' {
        lemma_line_end(text, from + 1);
    }
}

/// The facts of a text from the line that starts at `from` on.
pub open spec fn facts_from(text: Seq<char>, from: int) -> Seq<Seq<char>>
    decreases text.len() - from,
{
    if from < 0 || from > text.len() {
        Seq::empty()
    } else {
        let end = line_end(text, from);
        let line = trimmed(text.subrange(from, end));
        let fact = if is_fact(line) {
            seq![line]
        } else {
            Seq::empty()
        };
        if end >= text.len() {
            fact
        } else {
            proof {
                lemma_line_end(text, from);
            }
            fact + facts_from(text, end + 1)
        }
    }
}

/// The facts of a text, in the order of their lines.
pub open spec fn facts_of(text: Seq<char>) -> Seq<Seq<char>> {
    facts_from(text, 0)
}

/// The characters of each of a list of strings.
pub open spec fn texts(strings: Seq<String>) -> Seq<Seq<char>> {
    Seq::new(strings.len(), |at: int| strings[at]@)
}

/// Trimming a stretch of text leaves what lies between the white space at
/// its two ends.
proof fn lemma_trimmed(text: Seq<char>, start: int, first: int, last: int, end: int)
    requires
        0 <= start <= first <= last <= end <= text.len(),
        forall|at: int| start <= at < first ==> white_space(#[trigger] text[at]),
        forall|at: int| last <= at < end ==> white_space(#[trigger] text[at]),
        first < last ==> !white_space(text[first]) && !white_space(text[last - 1]),
    ensures
        trimmed(text.subrange(start, end)) == text.subrange(first, last),
    decreases end - start,
{
    let line = text.subrange(start, end);
    if start < first {
        assert(line.skip(1) =~= text.subrange(start + 1, end));
        lemma_trimmed(text, start + 1, first, last, end);
    } else if last < end {
        if first < last {
            assert(line.drop_last() =~= text.subrange(start, end - 1));
            lemma_trimmed(text, start, first, last, end - 1);
        } else {
            assert(line.skip(1) =~= text.subrange(start + 1, end));
            lemma_trimmed(text, start + 1, start + 1, start + 1, end);
        }
    }
}

/// The characters of a string, one by one.
fn characters(content: &str) -> (chars: Vec<char>)
    ensures
        chars@ == content@,
{
    let mut chars: Vec<char> = Vec::new();
    for c in all: content.chars()
        invariant
            all.seq() == content@,
            chars@ == content@.take(all.index()),
    {
        chars.push(c);
    }
    chars
}

/// Reads the facts of a knowledge text: its lines without the white space at
/// their ends, except those that are empty then or start with `#`.
pub fn knowledge_facts(content: &str) -> (facts: Vec<String>)
    ensures
        texts(facts@) == facts_of(content@),
{
    let chars = characters(content);
    let mut facts: Vec<String> = Vec::new();
    let mut start: usize = 0;
    let mut done = false;
    while !done
        invariant
            chars@ == content@,
            start <= chars@.len(),
            !done ==> texts(facts@) + facts_from(content@, start as int) == facts_of(content@),
            done ==> texts(facts@) == facts_of(content@),
        decreases
            chars@.len() - start + if done {
                0int
            } else {
                1int
            },
    {
        let mut end: usize = start;
        while end < chars.len() && chars[end] != '\n'
            invariant
                start <= end <= chars@.len(),
                line_end(chars@, end as int) == line_end(chars@, start as int),
            decreases chars@.len() - end,
        {
            end = end + 1;
        }
        let mut first: usize = start;
        while first < end && is_white_space(chars[first])
            invariant
                start <= first <= end <= chars@.len(),
                forall|at: int| start <= at < first ==> white_space(#[trigger] chars@[at]),
            decreases end - first,
        {
            first = first + 1;
        }
        let mut last: usize = end;
        while last > first && is_white_space(chars[last - 1])
            invariant
                first <= last <= end <= chars@.len(),
                forall|at: int| last <= at < end ==> white_space(#[trigger] chars@[at]),
            decreases last - first,
        {
            last = last - 1;
        }
        proof {
            lemma_trimmed(chars@, start as int, first as int, last as int, end as int);
        }
        let ghost before = texts(facts@);
        if first < last && chars[first] != '#' {
            let fact = content.substring_char(first, last);
            facts.push(String::from_str(fact));
        }
        proof {
            let line = trimmed(content@.subrange(start as int, end as int));
            let fact = if is_fact(line) {
                seq![line]
            } else {
                Seq::<Seq<char>>::empty()
            };
            if end < chars@.len() {
                assert(before + (fact + facts_from(content@, end + 1)) =~= (before + fact)
                    + facts_from(content@, end + 1));
            }
        }
        if end >= chars.len() {
            done = true;
        } else {
            start = end + 1;
        }
    }
    facts
}

/// A stage of seeding the knowledge base at start-up.
#[derive(Debug, PartialEq, Eq)]
pub enum Seeding {
    /// The knowledge text was looked for; `None` where there is none.
    Source(Option<String>),
    /// The facts were embedded.
    Embedded(Vec<Document>),
}

/// What is to be done at a stage of seeding.
#[derive(Debug, PartialEq, Eq)]
pub enum SeedAction {
    /// There is no knowledge text: nothing to do.
    Skip,
    /// Embed these facts and come back with [`Seeding::Embedded`].
    Embed(Vec<String>),
    /// This many documents were stored.
    Stored(usize),
    /// A document was refused; those before it were stored.
    Refused(StoreError),
}

/// Makes one step of seeding the knowledge base at start-up. Without a
/// knowledge text nothing happens. With one, the knowledge base is emptied and
/// the facts of the text are handed back to be embedded; the embedded facts
/// are then stored in their order.
pub fn auto_seed(state: &mut AppState, stage: Seeding) -> (action: SeedAction)
    ensures
        final(state).knowledge.dimension() == old(state).knowledge.dimension(),
        match stage {
            Seeding::Source(None) => action is Skip && final(state).knowledge@ == old(
                state,
            ).knowledge@,
            Seeding::Source(Some(content)) => {
                &&& action matches SeedAction::Embed(facts)
                &&& texts(facts@) == facts_of(content@)
                &&& final(state).knowledge@ == Seq::<Document>::empty()
            },
            Seeding::Embedded(documents) => {
                let stop = first_misfit(documents@, old(state).knowledge.dimension());
                &&& final(state).knowledge@ == old(state).knowledge@ + documents@.take(stop)
                &&& stop == documents@.len() ==> action == SeedAction::Stored(stop as usize)
                &&& stop != documents@.len() ==> action == SeedAction::Refused(
                    StoreError::DimensionMismatch {
                        expected: old(state).knowledge.dimension() as usize,
                        found: documents@[stop].embedding@.len() as usize,
                    },
                )
            },
        },
        final(state).metrics == old(state).metrics,
        final(state).tx == old(state).tx,
        final(state).brain == old(state).brain,
{
    match stage {
        Seeding::Source(None) => SeedAction::Skip,
        Seeding::Source(Some(content)) => {
            state.knowledge.reset();
            SeedAction::Embed(knowledge_facts(content.as_str()))
        },
        Seeding::Embedded(documents) => match state.knowledge.extend(documents) {
            Ok(count) => SeedAction::Stored(count),
            Err(reason) => SeedAction::Refused(reason),
        },
    }
}

} // verus!

//! The text of a recognition: recognized lines joined into one context, where
//! each word stands in it, the lines that belong together, and the result that
//! a recognition amounts to.

use crate::extraction::{ExtractionFailure, ExtractionSource, TextContext, TriggerKind};
use crate::geometry::{
    clamp_i32, max_i32, max_int, min_i32, min_int, saturating_add_i32, ScreenRect,
};
use crate::ocr::{valid_line_bounds, Bounds, WordBox};
use crate::text::{
    blank, byte_len, bytes_in, char_at_byte, chars_of, holds_text, is_blank, is_byte_offset,
    lemma_byte_len_splits, occurs_at, views,
};
use vstd::prelude::*;

verus! {

// Finding words in a line.

/// Where `word` first stands in `line` from the character `from` on.
pub open spec fn first_occurrence(line: Seq<char>, word: Seq<char>, from: int) -> Option<int>
    decreases line.len() + 1 - from,
{
    if from < 0 || from > line.len() {
        None
    } else if occurs_at(line, word, from) {
        Some(from)
    } else {
        first_occurrence(line, word, from + 1)
    }
}

/// The first occurrence is an occurrence, and none comes before it.
pub proof fn lemma_first_occurrence(line: Seq<char>, word: Seq<char>, from: int)
    requires
        0 <= from,
    ensures
        match first_occurrence(line, word, from) {
            Some(at) => from <= at && occurs_at(line, word, at) && forall|k: int|
                from <= k < at ==> !occurs_at(line, word, k),
            None => forall|k: int| from <= k ==> !occurs_at(line, word, k),
        },
    decreases line.len() + 1 - from,
{
    if from <= line.len() && !occurs_at(line, word, from) {
        lemma_first_occurrence(line, word, from + 1);
    }
}

fn stands_at(line: &Vec<char>, word: &Vec<char>, at: usize) -> (stands: bool)
    requires
        at <= line@.len(),
    ensures
        stands == occurs_at(line@, word@, at as int),
{
    if word.len() > line.len() - at {
        return false;
    }
    let total: usize = line.len();
    let mut i: usize = 0;
    while i < word.len()
        invariant
            i <= word@.len(),
            at + word@.len() <= line@.len() == total,
            forall|j: int| 0 <= j < i ==> line@[at + j] == word@[j],
        decreases word@.len() - i,
    {
        if line[at + i] != word[i] {
            proof {
                assert(line@.subrange(at as int, at + word@.len())[i as int] != word@[i as int]);
            }
            return false;
        }
        i = i + 1;
    }
    proof {
        assert(line@.subrange(at as int, at + word@.len()) =~= word@);
    }
    true
}

fn find_from(line: &Vec<char>, word: &Vec<char>, from: usize) -> (at: Option<usize>)
    requires
        from <= line@.len(),
    ensures
        match at {
            Some(at) => first_occurrence(line@, word@, from as int) == Some(at as int) && at
                + word@.len() <= line@.len(),
            None => first_occurrence(line@, word@, from as int) is None,
        },
{
    let mut i: usize = from;
    loop
        invariant
            from <= i <= line@.len(),
            first_occurrence(line@, word@, from as int) == first_occurrence(
                line@,
                word@,
                i as int,
            ),
        decreases line@.len() - i,
    {
        if stands_at(line, word, i) {
            return Some(i);
        }
        if i == line.len() {
            proof {
                assert(first_occurrence(line@, word@, i as int + 1) is None);
            }
            return None;
        }
        i = i + 1;
    }
}

fn contains_text(text: &str, part: &str) -> (contains: bool)
    ensures
        contains == holds_text(text@, part@),
{
    let chars: Vec<char> = chars_of(text);
    let wanted: Vec<char> = chars_of(part);
    proof {
        lemma_first_occurrence(text@, part@, 0);
    }
    find_from(&chars, &wanted, 0).is_some()
}

// Lines and their words.

/// A recognized line.
#[derive(Debug, PartialEq, Eq)]
pub struct OcrLine {
    pub text: String,
    pub words: Vec<WordBox>,
}

/// The words of all lines, line by line.
pub open spec fn words_of(lines: Seq<OcrLine>) -> Seq<WordBox>
    decreases lines.len(),
{
    if lines.len() == 0 {
        Seq::empty()
    } else {
        words_of(lines.drop_last()) + lines.last().words@
    }
}

/// The words of all lines, line by line.
pub fn all_words(lines: &Vec<OcrLine>) -> (words: Vec<WordBox>)
    ensures
        words@ == words_of(lines@),
{
    let mut words: Vec<WordBox> = Vec::new();
    let mut i: usize = 0;
    proof {
        assert(lines@.take(0) =~= Seq::empty());
    }
    while i < lines.len()
        invariant
            i <= lines@.len(),
            words@ == words_of(lines@.take(i as int)),
        decreases lines@.len() - i,
    {
        let line: &OcrLine = &lines[i];
        let ghost before = words@;
        let mut j: usize = 0;
        proof {
            assert(line.words@.take(0) =~= Seq::empty());
            assert(before + Seq::<WordBox>::empty() =~= before);
        }
        while j < line.words.len()
            invariant
                j <= line.words@.len(),
                words@ == before + line.words@.take(j as int),
            decreases line.words@.len() - j,
        {
            let word: &WordBox = &line.words[j];
            words.push(WordBox { text: word.text.clone(), bounds: word.bounds });
            j = j + 1;
            proof {
                assert(words@ =~= before + line.words@.take(j as int));
            }
        }
        i = i + 1;
        proof {
            assert(line.words@.take(j as int) =~= line.words@);
            assert(lines@.take(i as int).drop_last() =~= lines@.take(i as int - 1));
        }
    }
    proof {
        assert(lines@.take(i as int) =~= lines@);
    }
    words
}

/// From which character the word number `index` of a line is looked for: from
/// behind the last word that was found before it.
pub open spec fn search_start(line: OcrLine, index: int) -> int
    decreases index,
{
    if index <= 0 {
        0
    } else {
        let start = search_start(line, index - 1);
        let word = line.words@[index - 1].text@;
        match first_occurrence(line.text@, word, start) {
            Some(at) => at + word.len(),
            None => start,
        }
    }
}

/// Where the word number `index` of a line begins among the line's bytes.
pub open spec fn word_offset(line: OcrLine, index: int) -> Option<int> {
    match first_occurrence(line.text@, line.words@[index].text@, search_start(line, index)) {
        Some(at) => Some(byte_len(line.text@.take(at)) as int),
        None => None,
    }
}

/// The texts joined by spaces; nothing precedes the first text that is not
/// empty.
pub open spec fn joined(texts: Seq<Seq<char>>) -> Seq<char>
    decreases texts.len(),
{
    if texts.len() == 0 {
        Seq::empty()
    } else {
        before_text(joined(texts.drop_last())) + texts.last()
    }
}

/// What has been joined, ready for another text.
pub open spec fn before_text(done: Seq<char>) -> Seq<char> {
    if done.len() == 0 {
        done
    } else {
        done.push(' ')
    }
}

/// Where the text number `index` begins among the bytes of the joined texts.
pub open spec fn text_start(texts: Seq<Seq<char>>, index: int) -> int {
    byte_len(before_text(joined(texts.take(index)))) as int
}

/// The texts of the lines.
pub open spec fn line_texts(lines: Seq<OcrLine>) -> Seq<Seq<char>> {
    lines.map_values(|line: OcrLine| line.text@)
}

/// A word with its place: its line, and where it begins among the bytes of the
/// line and of the context.
#[derive(Clone, Copy, Debug, PartialEq, Eq, Structural)]
pub struct WordPlace {
    pub line: usize,
    pub line_offset: Option<usize>,
    pub context_offset: Option<usize>,
}

/// The place of the word number `index` of the last of `lines`.
pub open spec fn is_place(lines: Seq<OcrLine>, index: int, place: WordPlace) -> bool {
    let line = lines.last();
    let start = text_start(line_texts(lines), lines.len() - 1);
    &&& place.line == lines.len() - 1
    &&& match (word_offset(line, index), place.line_offset, place.context_offset) {
        (Some(offset), Some(in_line), Some(in_context)) => in_line == offset && in_context == start
            + offset,
        (None, None, None) => true,
        _ => false,
    }
}

/// The places of all words of the lines, line by line.
pub open spec fn are_places(lines: Seq<OcrLine>, places: Seq<WordPlace>) -> bool
    decreases lines.len(),
{
    if lines.len() == 0 {
        places.len() == 0
    } else {
        let count = lines.last().words@.len();
        let before = places.len() - count;
        &&& before >= 0
        &&& are_places(lines.drop_last(), places.take(before))
        &&& forall|j: int|
            #![trigger places[before + j]]
            0 <= j < count ==> is_place(lines, j, places[before + j])
    }
}

/// The context of a recognition and the places of its words.
#[derive(Debug, PartialEq, Eq)]
pub struct OcrText {
    pub context: String,
    /// The text of each line.
    pub texts: Vec<String>,
    pub places: Vec<WordPlace>,
    /// The box around the words of each line; none where no word has a valid
    /// box.
    pub line_bounds: Vec<Option<Bounds>>,
}

/// The box around the first `count` words with valid boxes.
pub open spec fn bounds_of(words: Seq<WordBox>, count: int) -> Option<Bounds>
    decreases count,
{
    if count <= 0 {
        None
    } else {
        let before = bounds_of(words, count - 1);
        let bounds = words[count - 1].bounds;
        if !bounds.valid() {
            before
        } else {
            match before {
                Some(existing) => Some(existing.union(bounds)),
                None => Some(bounds),
            }
        }
    }
}

fn line_box(words: &Vec<WordBox>) -> (bounds: Option<Bounds>)
    ensures
        bounds == bounds_of(words@, words@.len() as int),
{
    let mut bounds: Option<Bounds> = None;
    let mut i: usize = 0;
    while i < words.len()
        invariant
            i <= words@.len(),
            bounds == bounds_of(words@, i as int),
        decreases words@.len() - i,
    {
        let word: Bounds = words[i].bounds;
        if valid_line_bounds(word) {
            bounds = match bounds {
                Some(existing) => Some(crate::ocr::union_of(existing, word)),
                None => Some(word),
            };
        }
        i = i + 1;
    }
    bounds
}

/// The bytes of a part of a text are among the bytes of the text.
proof fn lemma_prefix_bytes(text: Seq<char>, at: int)
    requires
        0 <= at <= text.len(),
    ensures
        byte_len(text.take(at)) <= byte_len(text),
{
    assert(text =~= text.take(at) + text.skip(at));
    lemma_byte_len_splits(text.take(at), text.skip(at));
}

fn prefix_bytes(chars: &Vec<char>, at: usize, text: &str) -> (count: usize)
    requires
        chars@ == text@,
        at <= chars@.len(),
    ensures
        count == byte_len(text@.take(at as int)),
{
    let part: String = crate::text::string_of(chars.as_slice(), 0, at);
    proof {
        assert(part@ =~= text@.take(at as int));
    }
    bytes_in(part.as_str())
}

/// Appends the places of the words of the last of `lines`.
fn place_words(line: &OcrLine, line_index: usize, start: usize, places: &mut Vec<WordPlace>)
    requires
        start + byte_len(line.text@) <= usize::MAX,
    ensures
        final(places)@.len() == old(places)@.len() + line.words@.len(),
        final(places)@.take(old(places)@.len() as int) == old(places)@,
        forall|j: int|
            #![trigger final(places)@[old(places)@.len() + j]]
            0 <= j < line.words@.len() ==> {
                let place = final(places)@[old(places)@.len() + j];
                &&& place.line == line_index
                &&& match (word_offset(*line, j), place.line_offset, place.context_offset) {
                    (Some(offset), Some(in_line), Some(in_context)) => in_line == offset
                        && in_context == start + offset,
                    (None, None, None) => true,
                    _ => false,
                }
            },
{
    let chars: Vec<char> = chars_of(line.text.as_str());
    let total: usize = chars.len();
    let ghost before = places@;
    let mut from: usize = 0;
    let mut i: usize = 0;
    proof {
        assert(places@.take(before.len() as int) =~= before);
    }
    while i < line.words.len()
        invariant
            i <= line.words@.len(),
            chars@ == line.text@,
            from == search_start(*line, i as int),
            from <= chars@.len() == total,
            start + byte_len(line.text@) <= usize::MAX,
            places@.len() == before.len() + i,
            places@.take(before.len() as int) == before,
            forall|j: int|
                #![trigger places@[before.len() + j]]
                0 <= j < i ==> {
                    let place = places@[before.len() + j];
                    &&& place.line == line_index
                    &&& match (word_offset(*line, j), place.line_offset, place.context_offset) {
                        (Some(offset), Some(in_line), Some(in_context)) => in_line == offset
                            && in_context == start + offset,
                        (None, None, None) => true,
                        _ => false,
                    }
                },
        decreases line.words@.len() - i,
    {
        let word: Vec<char> = chars_of(line.words[i].text.as_str());
        let ghost placed = places@;
        match find_from(&chars, &word, from) {
            Some(at) => {
                let offset: usize = prefix_bytes(&chars, at, line.text.as_str());
                proof {
                    lemma_prefix_bytes(line.text@, at as int);
                }
                places.push(
                    WordPlace {
                        line: line_index,
                        line_offset: Some(offset),
                        context_offset: Some(start + offset),
                    },
                );
                from = at + word.len();
            },
            None => {
                places.push(
                    WordPlace { line: line_index, line_offset: None, context_offset: None },
                );
            },
        }
        i = i + 1;
        proof {
            assert(places@.take(before.len() as int) =~= placed.take(before.len() as int));
            assert forall|j: int| 0 <= j < i implies {
                let place = #[trigger] places@[before.len() + j];
                &&& place.line == line_index
                &&& match (word_offset(*line, j), place.line_offset, place.context_offset) {
                    (Some(offset), Some(in_line), Some(in_context)) => in_line == offset
                        && in_context == start + offset,
                    (None, None, None) => true,
                    _ => false,
                }
            } by {
                if j < i - 1 {
                    assert(places@[before.len() + j] == placed[before.len() + j]);
                }
            }
        }
    }
}

/// The bytes of the joined texts, separators included.
pub open spec fn total_bytes(texts: Seq<Seq<char>>) -> nat
    decreases texts.len(),
{
    if texts.len() == 0 {
        0
    } else {
        total_bytes(texts.drop_last()) + 1 + byte_len(texts.last())
    }
}

/// The text of a recognition: the lines joined into the context, the place of
/// every word, and the box of every line.
pub fn assemble_text(lines: &Vec<OcrLine>) -> (text: OcrText)
    requires
        total_bytes(line_texts(lines@)) <= usize::MAX,
    ensures
        text.context@ == joined(line_texts(lines@)),
        views(text.texts@) == line_texts(lines@),
        are_places(lines@, text.places@),
        text.line_bounds@.len() == lines@.len(),
        forall|i: int|
            0 <= i < lines@.len() ==> #[trigger] text.line_bounds@[i] == bounds_of(
                lines@[i].words@,
                lines@[i].words@.len() as int,
            ),
{
    let mut context = String::new();
    let mut copies: Vec<String> = Vec::new();
    let mut places: Vec<WordPlace> = Vec::new();
    let mut line_bounds: Vec<Option<Bounds>> = Vec::new();
    let ghost texts = line_texts(lines@);
    let mut i: usize = 0;
    proof {
        assert(texts.take(0) =~= Seq::empty());
        assert(lines@.take(0) =~= Seq::empty());
    }
    while i < lines.len()
        invariant
            i <= lines@.len(),
            texts == line_texts(lines@),
            total_bytes(texts) <= usize::MAX,
            context@ == joined(texts.take(i as int)),
            byte_len(context@) <= total_bytes(texts.take(i as int)),
            are_places(lines@.take(i as int), places@),
            copies@.len() == i,
            forall|j: int| 0 <= j < i ==> (#[trigger] copies@[j])@ == texts[j],
            line_bounds@.len() == i,
            forall|j: int|
                0 <= j < i ==> #[trigger] line_bounds@[j] == bounds_of(
                    lines@[j].words@,
                    lines@[j].words@.len() as int,
                ),
        decreases lines@.len() - i,
    {
        let ghost done = context@;
        let ghost upto = lines@.take(i as int + 1);
        proof {
            assert(texts.take(i as int + 1).drop_last() =~= texts.take(i as int));
            assert(texts.take(i as int + 1).last() == lines@[i as int].text@);
            lemma_total_bytes_grow(texts, i as int + 1);
            lemma_byte_len_splits(done, seq![' ']);
            assert(done + seq![' '] =~= done.push(' '));
            assert(byte_len(seq![' ']) == 1) by {
                assert(byte_len(seq![' '].drop_last()) == 0);
            }
            assert(line_texts(upto) =~= texts.take(i as int + 1));
            assert(line_texts(upto).take(i as int) =~= texts.take(i as int));
            assert(upto.drop_last() =~= lines@.take(i as int));
        }
        if !context.as_str().is_empty() {
            context.push(' ');
        }
        let start: usize = bytes_in(context.as_str());
        let line: &OcrLine = &lines[i];
        let ghost placed = places@;
        let ghost prepared = context@;
        proof {
            assert(prepared == before_text(done));
            assert(start == text_start(line_texts(upto), i as int));
            lemma_byte_len_splits(prepared, line.text@);
        }
        context.append(line.text.as_str());
        copies.push(line.text.clone());
        place_words(line, i, start, &mut places);
        line_bounds.push(line_box(&line.words));
        proof {
            assert(places@.take(places@.len() - line.words@.len()) =~= placed);
            assert forall|j: int|
                0 <= j < line.words@.len() implies is_place(
                upto,
                j,
                #[trigger] places@[placed.len() + j],
            ) by {}
            assert(are_places(upto, places@));
        }
        i = i + 1;
    }
    proof {
        assert(texts.take(i as int) =~= texts);
        assert(lines@.take(i as int) =~= lines@);
        assert(views(copies@) =~= texts);
    }
    OcrText { context, texts: copies, places, line_bounds }
}

proof fn lemma_total_bytes_grow(texts: Seq<Seq<char>>, count: int)
    requires
        0 <= count <= texts.len(),
    ensures
        total_bytes(texts.take(count)) <= total_bytes(texts),
    decreases texts.len(),
{
    if count == texts.len() {
        assert(texts.take(count) =~= texts);
    } else {
        assert(texts.drop_last().take(count) =~= texts.take(count));
        lemma_total_bytes_grow(texts.drop_last(), count);
    }
}

/// A recognition found something: at least one word, and a context that is not
/// blank.
pub fn check_recognized(word_count: usize, context: &str) -> (checked: Result<
    (),
    ExtractionFailure,
>)
    ensures
        checked == if word_count == 0 || is_blank(context@) {
            Err(ExtractionFailure::EmptyRange)
        } else {
            Ok(())
        },
{
    if word_count == 0 || blank(context) {
        Err(ExtractionFailure::EmptyRange)
    } else {
        Ok(())
    }
}

// Lines that belong together.

/// The line exists and has a valid box.
pub open spec fn is_line(lines: Seq<Option<Bounds>>, i: int) -> bool {
    0 <= i < lines.len() && lines[i] is Some && lines[i].unwrap().valid()
}

/// The lines are contiguous. Contiguity has no direction: the entry in the row
/// of the later line says it of both.
pub open spec fn are_linked(linked: Seq<Vec<bool>>, a: int, b: int) -> bool {
    if a < b {
        linked[b]@[a]
    } else {
        linked[a]@[b]
    }
}

fn link(linked: &Vec<Vec<bool>>, a: usize, b: usize) -> (contiguous: bool)
    requires
        is_square(linked@, linked@.len() as int),
        a < linked@.len(),
        b < linked@.len(),
    ensures
        contiguous == are_linked(linked@, a as int, b as int),
{
    if a < b {
        linked[b][a]
    } else {
        linked[a][b]
    }
}

/// One line leads to the next along `path`; `linked` says which lines are
/// contiguous.
pub open spec fn is_path(
    lines: Seq<Option<Bounds>>,
    linked: Seq<Vec<bool>>,
    path: Seq<int>,
) -> bool {
    &&& path.len() > 0
    &&& forall|k: int| 0 <= k < path.len() ==> is_line(lines, #[trigger] path[k])
    &&& forall|k: int|
        #![trigger path[k]]
        0 < k < path.len() ==> are_linked(linked, path[k - 1], path[k])
}

/// A chain of contiguous lines leads from `target` to `line`.
pub open spec fn reaches(
    lines: Seq<Option<Bounds>>,
    linked: Seq<Vec<bool>>,
    target: int,
    line: int,
) -> bool {
    exists|path: Seq<int>| #[trigger]
        is_path(lines, linked, path) && path[0] == target && path.last() == line
}

/// The matrix has a row and a column for every line.
pub open spec fn is_square(linked: Seq<Vec<bool>>, size: int) -> bool {
    linked.len() == size && forall|i: int|
        0 <= i < size ==> (#[trigger] linked[i])@.len() == size
}

fn line_valid(lines: &Vec<Option<Bounds>>, i: usize) -> (valid: bool)
    ensures
        valid == is_line(lines@, i as int),
{
    if i >= lines.len() {
        return false;
    }
    match lines[i] {
        Some(bounds) => valid_line_bounds(bounds),
        None => false,
    }
}

/// The target line with every line that a chain of contiguous lines connects
/// to it, in order. `linked[i][j]`, with `j` before `i`, says that the two lines
/// are contiguous. A target without a valid box has no group.
pub fn contiguous_line_group(
    lines: &Vec<Option<Bounds>>,
    linked: &Vec<Vec<bool>>,
    target: usize,
) -> (group: Vec<usize>)
    requires
        is_square(linked@, lines@.len() as int),
    ensures
        group@ == line_group(lines@, linked@, target as int, lines@.len() as int),
{
    let count: usize = lines.len();
    if !line_valid(lines, target) {
        proof {
            assert forall|i: int| !reaches(lines@, linked@, target as int, i) by {}
            lemma_no_group(lines@, linked@, target as int, count as int);
        }
        return Vec::new();
    }
    let mut member: Vec<bool> = Vec::new();
    let mut i: usize = 0;
    while i < count
        invariant
            i <= count,
            member@.len() == i,
            forall|j: int| 0 <= j < i ==> member@[j] == (j == target),
        decreases count - i,
    {
        member.push(i == target);
        i = i + 1;
    }
    proof {
        assert(is_path(lines@, linked@, seq![target as int]));
        lemma_outsiders_bounded(member@, count as int);
    }
    let mut remaining: usize = count;
    let mut changed: bool = true;
    while changed
        invariant
            count == lines@.len() == member@.len(),
            is_square(linked@, count as int),
            is_line(lines@, target as int),
            member@[target as int],
            forall|j: int|
                0 <= j < count && member@[j] ==> #[trigger] reaches(
                    lines@,
                    linked@,
                    target as int,
                    j,
                ),
            !changed ==> closed_under(lines@, linked@, member@),
            outsiders(member@, count as int) <= remaining,
        decreases
                remaining,
                if changed {
                    1int
                } else {
                    0
                },
    {
        changed = false;
        let mut index: usize = 0;
        let ghost start = member@;
        while index < count
            invariant
                index <= count,
                count == lines@.len() == member@.len() == start.len(),
                is_square(linked@, count as int),
                is_line(lines@, target as int),
                member@[target as int],
                forall|j: int|
                    0 <= j < count && member@[j] ==> #[trigger] reaches(
                        lines@,
                        linked@,
                        target as int,
                        j,
                    ),
                !changed ==> member@ == start,
                !changed ==> forall|j: int, k: int|
                    0 <= j < count && 0 <= k < index && member@[j] && is_line(lines@, k)
                        && #[trigger] are_linked(linked@, j, k) ==> #[trigger] member@[k],
                outsiders(member@, count as int) + (if changed {
                    1int
                } else {
                    0
                }) <= remaining,
            decreases count - index,
        {
            if !member[index] && line_valid(lines, index) {
                let mut k: usize = 0;
                let mut found: bool = false;
                while k < count && !found
                    invariant
                        k <= count,
                        count == lines@.len() == member@.len(),
                        index < count,
                        is_square(linked@, count as int),
                        is_line(lines@, index as int),
                        !member@[index as int],
                        forall|j: int|
                            0 <= j < count && member@[j] ==> #[trigger] reaches(
                                lines@,
                                linked@,
                                target as int,
                                j,
                            ),
                        found ==> reaches(lines@, linked@, target as int, index as int),
                        !found ==> forall|j: int|
                            0 <= j < k && member@[j] ==> !(#[trigger] are_linked(
                                linked@,
                                j,
                                index as int,
                            )),
                    decreases
                            count - k,
                            if found {
                                0int
                            } else {
                                1
                            },
                {
                    if member[k] && link(linked, k, index) {
                        found = true;
                        proof {
                            assert(reaches(lines@, linked@, target as int, k as int));
                            lemma_path_extends(
                                lines@,
                                linked@,
                                target as int,
                                k as int,
                                index as int,
                            );
                        }
                    } else {
                        k = k + 1;
                    }
                }
                if found {
                    let ghost before = member@;
                    member.set(index, true);
                    changed = true;
                    proof {
                        lemma_one_outsider_fewer(before, index as int, count as int);
                        assert forall|j: int| 0 <= j < count && member@[j] implies #[trigger] reaches(
                            lines@,
                            linked@,
                            target as int,
                            j,
                        ) by {
                            if j != index {
                                assert(before[j]);
                            }
                        }
                    }
                }
            }
            index = index + 1;
        }
        if changed {
            proof {
                lemma_outsiders_bounded(member@, count as int);
            }
            remaining = remaining - 1;
        }
    }
    proof {
        assert forall|k: int| 0 <= k < count implies member@[k] == reaches(
            lines@,
            linked@,
            target as int,
            k,
        ) by {
            if reaches(lines@, linked@, target as int, k) {
                let path = choose|path: Seq<int>| #[trigger]
                    is_path(lines@, linked@, path) && path[0] == target && path.last() == k;
                lemma_path_stays_inside(lines@, linked@, member@, path);
            }
        }
    }
    let mut group: Vec<usize> = Vec::new();
    let mut at: usize = 0;
    while at < count
        invariant
            at <= count,
            count == member@.len(),
            forall|k: int|
                0 <= k < count ==> member@[k] == reaches(lines@, linked@, target as int, k),
            group@ == line_group(lines@, linked@, target as int, at as int),
        decreases count - at,
    {
        if member[at] {
            group.push(at);
        }
        at = at + 1;
    }
    group
}

/// The lines among the first `count` that a chain connects to the target, in
/// order.
pub open spec fn line_group(
    lines: Seq<Option<Bounds>>,
    linked: Seq<Vec<bool>>,
    target: int,
    count: int,
) -> Seq<usize>
    decreases count,
{
    if count <= 0 {
        Seq::empty()
    } else {
        let before = line_group(lines, linked, target, count - 1);
        if reaches(lines, linked, target, count - 1) {
            before.push((count - 1) as usize)
        } else {
            before
        }
    }
}

proof fn lemma_no_group(
    lines: Seq<Option<Bounds>>,
    linked: Seq<Vec<bool>>,
    target: int,
    count: int,
)
    requires
        forall|i: int| !reaches(lines, linked, target, i),
    ensures
        line_group(lines, linked, target, count) == Seq::<usize>::empty(),
    decreases count,
{
    if count > 0 {
        lemma_no_group(lines, linked, target, count - 1);
    }
}

/// A group is in order and holds exactly the lines connected to the target.
pub proof fn lemma_line_group_is_the_connected_lines(
    lines: Seq<Option<Bounds>>,
    linked: Seq<Vec<bool>>,
    target: int,
    count: int,
)
    requires
        0 <= count <= usize::MAX + 1,
    ensures
        ({
            let group = line_group(lines, linked, target, count);
            &&& forall|i: int, j: int| 0 <= i < j < group.len() ==> group[i] < group[j]
            &&& forall|i: int| 0 <= i < group.len() ==> (#[trigger] group[i]) < count
            &&& forall|i: usize|
                group.contains(i) <==> i < count && reaches(lines, linked, target, i as int)
        }),
    decreases count,
{
    if count > 0 {
        lemma_line_group_is_the_connected_lines(lines, linked, target, count - 1);
        let before = line_group(lines, linked, target, count - 1);
        let group = line_group(lines, linked, target, count);
        assert forall|i: usize| group.contains(i) <==> i < count && reaches(
            lines,
            linked,
            target,
            i as int,
        ) by {
            if before.contains(i) {
                let p = before.index_of(i);
                assert(group[p] == i);
            }
            if group.contains(i) {
                let p = group.index_of(i);
                if p < before.len() {
                    assert(before[p] == i);
                }
            }
            if i == count - 1 && reaches(lines, linked, target, i as int) {
                assert(group.last() == i);
            }
        }
    }
}

#[verifier::spinoff_prover]
#[verifier::rlimit(50)]
proof fn lemma_path_turns(
    lines: Seq<Option<Bounds>>,
    linked: Seq<Vec<bool>>,
    target: int,
    line: int,
)
    requires
        reaches(lines, linked, target, line),
    ensures
        reaches(lines, linked, line, target),
{
    let path = choose|path: Seq<int>| #[trigger]
        is_path(lines, linked, path) && path[0] == target && path.last() == line;
    let back = path.reverse();
    assert forall|k: int| 0 <= k < back.len() implies is_line(lines, #[trigger] back[k]) by {
        assert(back[k] == path[path.len() - 1 - k]);
    }
    assert forall|k: int|
        #![trigger back[k]]
        0 < k < back.len() implies are_linked(linked, back[k - 1], back[k]) by {
        let next = path.len() - k;
        assert(back[k - 1] == path[next] && back[k] == path[next - 1]);
        assert(are_linked(linked, path[next - 1], path[next]));
    }
    assert(is_path(lines, linked, back));
    assert(back[0] == line && back.last() == target);
}

#[verifier::spinoff_prover]
#[verifier::rlimit(50)]
proof fn lemma_paths_join(
    lines: Seq<Option<Bounds>>,
    linked: Seq<Vec<bool>>,
    from: int,
    over: int,
    to: int,
)
    requires
        reaches(lines, linked, from, over),
        reaches(lines, linked, over, to),
    ensures
        reaches(lines, linked, from, to),
{
    let first = choose|path: Seq<int>| #[trigger]
        is_path(lines, linked, path) && path[0] == from && path.last() == over;
    let second = choose|path: Seq<int>| #[trigger]
        is_path(lines, linked, path) && path[0] == over && path.last() == to;
    let whole = first + second.drop_first();
    assert forall|k: int| 0 <= k < whole.len() implies is_line(lines, #[trigger] whole[k]) by {
        if k >= first.len() {
            assert(whole[k] == second[k - first.len() + 1]);
        }
    }
    assert forall|k: int|
        #![trigger whole[k]]
        0 < k < whole.len() implies are_linked(linked, whole[k - 1], whole[k]) by {
        if k < first.len() {
            assert(whole[k] == first[k] && whole[k - 1] == first[k - 1]);
        } else {
            let at = k - first.len() + 1;
            assert(whole[k] == second[at]);
            assert(whole[k - 1] == second[at - 1]);
        }
    }
    assert(is_path(lines, linked, whole));
    assert(whole[0] == from);
    assert(whole.last() == to);
}

proof fn lemma_groups_agree(
    lines: Seq<Option<Bounds>>,
    linked: Seq<Vec<bool>>,
    a: int,
    b: int,
    count: int,
)
    requires
        forall|i: int|
            #[trigger] reaches(lines, linked, a, i) == reaches(lines, linked, b, i),
    ensures
        line_group(lines, linked, a, count) == line_group(lines, linked, b, count),
    decreases count,
{
    if count > 0 {
        lemma_groups_agree(lines, linked, a, b, count - 1);
        assert(reaches(lines, linked, a, count - 1) == reaches(lines, linked, b, count - 1));
    }
}

/// The lines fall into groups: a line with a valid box is in its own group, one
/// without has none, and the group is the same from each of its members.
pub proof fn lemma_line_group_is_the_same_from_each_member(
    lines: Seq<Option<Bounds>>,
    linked: Seq<Vec<bool>>,
    target: int,
    member: usize,
)
    requires
        lines.len() <= usize::MAX + 1,
    ensures
        ({
            let group = line_group(lines, linked, target, lines.len() as int);
            &&& is_line(lines, target) <==> group.len() > 0
            &&& is_line(lines, target) ==> group.contains(target as usize)
            &&& group.contains(member) ==> line_group(
                lines,
                linked,
                member as int,
                lines.len() as int,
            ) == group
        }),
{
    let count = lines.len() as int;
    let group = line_group(lines, linked, target, count);
    lemma_line_group_is_the_connected_lines(lines, linked, target, count);
    if is_line(lines, target) {
        let path = seq![target];
        assert(is_path(lines, linked, path) && path[0] == target && path.last() == target);
        assert(reaches(lines, linked, target, target as usize as int));
    } else if group.len() > 0 {
        assert(group.contains(group[0]));
        let path = choose|path: Seq<int>| #[trigger]
            is_path(lines, linked, path) && path[0] == target && path.last() == group[0];
        assert(is_line(lines, path[0]));
    }
    if group.contains(member) {
        let from = member as int;
        lemma_path_turns(lines, linked, target, from);
        assert forall|i: int|
            #[trigger] reaches(lines, linked, target, i) == reaches(lines, linked, from, i) by {
            if reaches(lines, linked, target, i) {
                lemma_paths_join(lines, linked, from, target, i);
            }
            if reaches(lines, linked, from, i) {
                lemma_paths_join(lines, linked, target, from, i);
            }
        }
        lemma_groups_agree(lines, linked, target, from, count);
    }
}

/// Every line that is contiguous with a member is a member.
pub open spec fn closed_under(
    lines: Seq<Option<Bounds>>,
    linked: Seq<Vec<bool>>,
    member: Seq<bool>,
) -> bool {
    forall|j: int, k: int|
        0 <= j < member.len() && member[j] && is_line(lines, k) && #[trigger] are_linked(linked, j, k)
            ==> #[trigger] member[k]
}

spec fn outsiders(member: Seq<bool>, count: int) -> int
    decreases count,
{
    if count <= 0 {
        0
    } else {
        outsiders(member, count - 1) + if member[count - 1] {
            0int
        } else {
            1
        }
    }
}

proof fn lemma_outsiders_bounded(member: Seq<bool>, count: int)
    requires
        0 <= count,
    ensures
        0 <= outsiders(member, count) <= count,
    decreases count,
{
    if count > 0 {
        lemma_outsiders_bounded(member, count - 1);
    }
}

proof fn lemma_one_outsider_fewer(member: Seq<bool>, index: int, count: int)
    requires
        0 <= index < count <= member.len(),
        !member[index],
    ensures
        outsiders(member.update(index, true), count) == outsiders(member, count) - 1,
    decreases count,
{
    if index < count - 1 {
        lemma_one_outsider_fewer(member, index, count - 1);
    } else {
        lemma_outsiders_depend_on_the_front(member, member.update(index, true), count - 1);
    }
}

proof fn lemma_outsiders_depend_on_the_front(a: Seq<bool>, b: Seq<bool>, count: int)
    requires
        forall|i: int| 0 <= i < count ==> a[i] == b[i],
    ensures
        outsiders(a, count) == outsiders(b, count),
    decreases count,
{
    if count > 0 {
        lemma_outsiders_depend_on_the_front(a, b, count - 1);
    }
}

proof fn lemma_path_extends(
    lines: Seq<Option<Bounds>>,
    linked: Seq<Vec<bool>>,
    target: int,
    from: int,
    to: int,
)
    requires
        reaches(lines, linked, target, from),
        is_line(lines, to),
        are_linked(linked, from, to),
    ensures
        reaches(lines, linked, target, to),
{
    let path = choose|path: Seq<int>| #[trigger]
        is_path(lines, linked, path) && path[0] == target && path.last() == from;
    let longer = path.push(to);
    assert forall|k: int| 0 <= k < longer.len() implies is_line(lines, #[trigger] longer[k]) by {
        if k < path.len() {
            assert(longer[k] == path[k]);
        }
    }
    assert forall|k: int|
        #![trigger longer[k]]
        0 < k < longer.len() implies are_linked(linked, longer[k - 1], longer[k]) by {
        if k < path.len() {
            assert(longer[k] == path[k]);
            assert(longer[k - 1] == path[k - 1]);
        } else {
            assert(longer[k - 1] == path.last());
        }
    }
    assert(is_path(lines, linked, longer));
    assert(longer[0] == target);
    assert(longer.last() == to);
}

proof fn lemma_path_stays_inside(
    lines: Seq<Option<Bounds>>,
    linked: Seq<Vec<bool>>,
    member: Seq<bool>,
    path: Seq<int>,
)
    requires
        member.len() == lines.len(),
        is_path(lines, linked, path),
        closed_under(lines, linked, member),
        member[path[0]],
    ensures
        member[path.last()],
    decreases path.len(),
{
    if path.len() > 1 {
        let shorter = path.drop_last();
        assert forall|k: int| 0 <= k < shorter.len() implies is_line(lines, #[trigger] shorter[k]) by {
            assert(shorter[k] == path[k]);
        }
        assert forall|k: int|
            #![trigger shorter[k]]
            0 < k < shorter.len() implies are_linked(linked, shorter[k - 1], shorter[k]) by {
            assert(shorter[k] == path[k]);
            assert(shorter[k - 1] == path[k - 1]);
        }
        lemma_path_stays_inside(lines, linked, member, shorter);
        let last = path.len() - 1;
        assert(is_line(lines, path[last]));
        assert(is_line(lines, path[last - 1]));
        assert(are_linked(linked, path[last - 1], path[last]));
    }
}

// The sentence around the target.

/// A text and the byte in it at which the target begins: what the sentence is
/// looked for in.
#[derive(Debug, PartialEq, Eq)]
pub struct SentenceQuery {
    pub source: String,
    pub offset: usize,
}

/// Where the first chosen word begins in the context.
pub fn context_query(places: &Vec<WordPlace>, indices: &Vec<usize>) -> (offset: Option<usize>)
    ensures
        offset == if indices@.len() > 0 && indices@[0] < places@.len() {
            places@[indices@[0] as int].context_offset
        } else {
            None
        },
{
    if indices.len() == 0 {
        return None;
    }
    let first: usize = indices[0];
    if first < places.len() {
        places[first].context_offset
    } else {
        None
    }
}

/// The texts of the lines of a group.
pub open spec fn group_texts(texts: Seq<Seq<char>>, group: Seq<usize>) -> Seq<Seq<char>> {
    group.map_values(|line: usize| texts[line as int])
}

/// The target of a hover has a group of lines with texts, and begins between
/// characters of its line.
pub open spec fn has_line_sentence(
    target_word: int,
    places: Seq<WordPlace>,
    texts: Seq<Seq<char>>,
    lines: Seq<Option<Bounds>>,
    linked: Seq<Vec<bool>>,
) -> bool {
    &&& 0 <= target_word < places.len()
    &&& places[target_word].line_offset is Some
    &&& is_line(lines, places[target_word].line as int)
    &&& forall|p: int|
        #![trigger line_group(lines, linked, places[target_word].line as int, lines.len() as int)[p]]
        0 <= p < line_group(
            lines,
            linked,
            places[target_word].line as int,
            lines.len() as int,
        ).len() ==> line_group(
            lines,
            linked,
            places[target_word].line as int,
            lines.len() as int,
        )[p] < texts.len()
    &&& exists|i: int|
        is_byte_offset(
            texts[places[target_word].line as int],
            i,
            places[target_word].line_offset.unwrap() as int,
        )
}

/// The lines contiguous with the target's line, joined, with the place of the
/// target in them.
pub fn hover_sentence_from_lines(
    target_word: usize,
    places: &Vec<WordPlace>,
    texts: &Vec<String>,
    lines: &Vec<Option<Bounds>>,
    linked: &Vec<Vec<bool>>,
) -> (query: Option<SentenceQuery>)
    requires
        is_square(linked@, lines@.len() as int),
        total_bytes(views(texts@)) <= usize::MAX,
    ensures
        query is Some <==> has_line_sentence(
            target_word as int,
            places@,
            views(texts@),
            lines@,
            linked@,
        ),
        query matches Some(query) ==> {
            let place = places@[target_word as int];
            let group = line_group(lines@, linked@, place.line as int, lines@.len() as int);
            let parts = group_texts(views(texts@), group);
            &&& query.source@ == joined(parts)
            &&& exists|p: int|
                #![trigger group[p]]
                0 <= p < group.len() && group[p] == place.line && query.offset == text_start(
                    parts,
                    p,
                ) + place.line_offset.unwrap()
        },
{
    if target_word >= places.len() {
        return None;
    }
    let target_line: usize = places[target_word].line;
    let offset_in_line: usize = match places[target_word].line_offset {
        Some(offset) => offset,
        None => {
            return None;
        },
    };
    let line_count: usize = lines.len();
    let group: Vec<usize> = contiguous_line_group(lines, linked, target_line);
    let ghost parts = group_texts(views(texts@), group@);
    proof {
        lemma_line_group_is_the_connected_lines(
            lines@,
            linked@,
            target_line as int,
            line_count as int,
        );
        if is_line(lines@, target_line as int) {
            assert(is_path(lines@, linked@, seq![target_line as int]));
            assert(reaches(lines@, linked@, target_line as int, target_line as int));
            assert(group@.contains(target_line));
        } else {
            assert forall|i: int| !reaches(lines@, linked@, target_line as int, i) by {}
            lemma_no_group(lines@, linked@, target_line as int, lines@.len() as int);
        }
    }
    if group.len() == 0 {
        return None;
    }
    let mut source = String::new();
    let mut offset: Option<usize> = None;
    let mut p: usize = 0;
    proof {
        assert(parts.take(0) =~= Seq::empty());
    }
    while p < group.len()
        invariant
            p <= group@.len(),
            group@ == line_group(lines@, linked@, target_line as int, lines@.len() as int),
            parts == group_texts(views(texts@), group@),
            forall|i: int, j: int| 0 <= i < j < group@.len() ==> group@[i] < group@[j],
            target_word < places@.len(),
            places@[target_word as int].line == target_line,
            places@[target_word as int].line_offset == Some(offset_in_line),
            total_bytes(views(texts@)) <= usize::MAX,
            forall|q: int| 0 <= q < p ==> #[trigger] group@[q] < texts@.len(),
            source@ == joined(parts.take(p as int)),
            p > 0 ==> byte_len(source@) <= front_bytes(views(texts@), group@[p - 1] + 1),
            p == 0 ==> byte_len(source@) == 0,
            match offset {
                Some(at) => exists|q: int|
                    #![trigger group@[q]]
                    0 <= q < p && group@[q] == target_line && at == text_start(parts, q)
                        + offset_in_line && exists|i: int|
                        is_byte_offset(
                            views(texts@)[target_line as int],
                            i,
                            offset_in_line as int,
                        ),
                None => forall|q: int| 0 <= q < p ==> #[trigger] group@[q] != target_line,
            },
        decreases group@.len() - p,
    {
        let line_index: usize = group[p];
        if line_index >= texts.len() {
            return None;
        }
        let line: &String = &texts[line_index];
        let ghost done = source@;
        proof {
            assert(views(texts@)[line_index as int] == line@);
            assert(parts.take(p as int + 1).drop_last() =~= parts.take(p as int));
            assert(parts.take(p as int + 1).last() == line@);
            lemma_byte_len_splits(done, seq![' ']);
            assert(done + seq![' '] =~= done.push(' '));
            assert(byte_len(seq![' ']) == 1) by {
                assert(byte_len(seq![' '].drop_last()) == 0);
            }
            lemma_front_bytes(views(texts@), line_index as int + 1);
            if p > 0 {
                assert(group@[p - 1] < group@[p as int]);
                lemma_front_bytes_grow(
                    views(texts@),
                    group@[p - 1] + 1,
                    line_index as int,
                );
            } else {
                lemma_front_bytes_grow(views(texts@), 0, line_index as int);
            }
        }
        if !source.as_str().is_empty() {
            source.push(' ');
        }
        let ghost prepared = source@;
        proof {
            assert(prepared == before_text(done));
            lemma_byte_len_splits(prepared, line@);
        }
        let line_start: usize = bytes_in(source.as_str());
        if line_index == target_line {
            match char_at_byte(line.as_str(), offset_in_line) {
                None => {
                    return None;
                },
                Some(at) => {
                    proof {
                        lemma_prefix_bytes(line@, at as int);
                        assert(line_start == text_start(parts, p as int));
                        assert(is_byte_offset(
                            views(texts@)[target_line as int],
                            at as int,
                            offset_in_line as int,
                        ));
                        assert(group@[p as int] == target_line);
                    }
                    offset = Some(line_start + offset_in_line);
                },
            }
        }
        source.append(line.as_str());
        p = p + 1;
    }
    proof {
        assert(parts.take(p as int) =~= parts);
    }
    match offset {
        Some(offset) => Some(SentenceQuery { source, offset }),
        None => None,
    }
}

/// The bytes of the first `count` texts with a separator each.
spec fn front_bytes(texts: Seq<Seq<char>>, count: int) -> nat
    decreases count,
{
    if count <= 0 {
        0
    } else {
        front_bytes(texts, count - 1) + 1 + byte_len(texts[count - 1])
    }
}

proof fn lemma_front_bytes(texts: Seq<Seq<char>>, count: int)
    requires
        0 <= count <= texts.len(),
    ensures
        front_bytes(texts, count) <= total_bytes(texts),
    decreases texts.len(),
{
    if count == texts.len() {
        lemma_front_bytes_are_total(texts);
    } else {
        lemma_front_bytes(texts.drop_last(), count);
        lemma_front_bytes_depend_on_the_front(texts, texts.drop_last(), count);
    }
}

proof fn lemma_front_bytes_are_total(texts: Seq<Seq<char>>)
    ensures
        front_bytes(texts, texts.len() as int) == total_bytes(texts),
    decreases texts.len(),
{
    if texts.len() > 0 {
        lemma_front_bytes_are_total(texts.drop_last());
        lemma_front_bytes_depend_on_the_front(texts, texts.drop_last(), texts.len() - 1);
    }
}

proof fn lemma_front_bytes_depend_on_the_front(
    a: Seq<Seq<char>>,
    b: Seq<Seq<char>>,
    count: int,
)
    requires
        forall|i: int| 0 <= i < count ==> a[i] == b[i],
    ensures
        front_bytes(a, count) == front_bytes(b, count),
    decreases count,
{
    if count > 0 {
        lemma_front_bytes_depend_on_the_front(a, b, count - 1);
    }
}

proof fn lemma_front_bytes_grow(texts: Seq<Seq<char>>, a: int, b: int)
    requires
        a <= b,
    ensures
        front_bytes(texts, a) <= front_bytes(texts, b),
    decreases b - a,
{
    if a < b {
        lemma_front_bytes_grow(texts, a, b - 1);
    }
}

/// The sentence that a hover may use: one that, normalized, is not empty and
/// holds the normalized target.
pub fn hover_context_admitted(
    context: Option<String>,
    normalized_context: &str,
    normalized_target: &str,
) -> (admitted: Option<String>)
    ensures
        admitted == if normalized_context@.len() > 0 && holds_text(
            normalized_context@,
            normalized_target@,
        ) {
            context
        } else {
            None
        },
{
    if !normalized_context.is_empty() && contains_text(normalized_context, normalized_target) {
        context
    } else {
        None
    }
}

// The target.

/// The texts joined by single spaces.
pub open spec fn spaced(texts: Seq<Seq<char>>) -> Seq<char>
    decreases texts.len(),
{
    if texts.len() == 0 {
        Seq::empty()
    } else if texts.len() == 1 {
        texts[0]
    } else {
        spaced(texts.drop_last()).push(' ') + texts.last()
    }
}

/// The normalized texts of the chosen words that exist and are not empty.
pub open spec fn chosen_texts(normalized: Seq<Seq<char>>, indices: Seq<usize>) -> Seq<Seq<char>>
    decreases indices.len(),
{
    if indices.len() == 0 {
        Seq::empty()
    } else {
        let before = chosen_texts(normalized, indices.drop_last());
        let last = indices.last() as int;
        if last < normalized.len() && normalized[last].len() > 0 {
            before.push(normalized[last])
        } else {
            before
        }
    }
}

/// The target that the chosen words are: their normalized texts, without those
/// that are empty, joined by spaces.
pub fn normalized_words_target(normalized: &Vec<String>, indices: &Vec<usize>) -> (target: String)
    ensures
        target@ == spaced(chosen_texts(views(normalized@), indices@)),
{
    let mut target = String::new();
    let mut any: bool = false;
    let ghost texts = views(normalized@);
    let mut i: usize = 0;
    proof {
        assert(indices@.take(0) =~= Seq::empty());
    }
    while i < indices.len()
        invariant
            i <= indices@.len(),
            texts == views(normalized@),
            any == (chosen_texts(texts, indices@.take(i as int)).len() > 0),
            target@ == spaced(chosen_texts(texts, indices@.take(i as int))),
        decreases indices@.len() - i,
    {
        let ghost chosen = chosen_texts(texts, indices@.take(i as int));
        let ghost before = target@;
        proof {
            assert(indices@.take(i as int + 1).drop_last() =~= indices@.take(i as int));
        }
        let index: usize = indices[i];
        if index < normalized.len() {
            proof {
                assert(texts[index as int] == normalized@[index as int]@);
            }
            if !normalized[index].as_str().is_empty() {
                if any {
                    target.push(' ');
                }
                target.append(normalized[index].as_str());
                any = true;
                proof {
                    let word = normalized@[index as int]@;
                    assert(chosen.push(word).drop_last() =~= chosen);
                    assert(target@ =~= spaced(chosen.push(word)));
                }
            }
        }
        i = i + 1;
    }
    proof {
        assert(indices@.take(i as int) =~= indices@);
    }
    target
}

/// The smallest rectangle around both.
pub open spec fn rect_union(a: ScreenRect, b: ScreenRect) -> ScreenRect {
    ScreenRect {
        left: min_int(a.left as int, b.left as int) as i32,
        top: min_int(a.top as int, b.top as int) as i32,
        right: max_int(a.right as int, b.right as int) as i32,
        bottom: max_int(a.bottom as int, b.bottom as int) as i32,
    }
}

/// A box of the crop on the screen.
pub open spec fn on_screen(in_crop: ScreenRect, crop: ScreenRect) -> ScreenRect {
    ScreenRect {
        left: clamp_i32(crop.left + in_crop.left) as i32,
        top: clamp_i32(crop.top + in_crop.top) as i32,
        right: clamp_i32(crop.left + in_crop.right) as i32,
        bottom: clamp_i32(crop.top + in_crop.bottom) as i32,
    }
}

/// The rectangle on the screen around the chosen words whose boxes are known.
pub open spec fn words_rect(
    boxes: Seq<Option<ScreenRect>>,
    indices: Seq<usize>,
    crop: ScreenRect,
) -> Option<ScreenRect>
    decreases indices.len(),
{
    if indices.len() == 0 {
        None
    } else {
        let before = words_rect(boxes, indices.drop_last(), crop);
        let last = indices.last() as int;
        if last < boxes.len() && boxes[last] is Some {
            let current = on_screen(boxes[last].unwrap(), crop);
            match before {
                Some(existing) => Some(rect_union(existing, current)),
                None => Some(current),
            }
        } else {
            before
        }
    }
}

/// The rectangle on the screen around the chosen words. `boxes` holds each
/// word's box in whole pixels of the crop, none where it is not finite.
pub fn target_screen_rect(
    boxes: &Vec<Option<ScreenRect>>,
    indices: &Vec<usize>,
    crop: ScreenRect,
) -> (rect: Option<ScreenRect>)
    ensures
        rect == words_rect(boxes@, indices@, crop),
{
    let mut rect: Option<ScreenRect> = None;
    let mut i: usize = 0;
    proof {
        assert(indices@.take(0) =~= Seq::empty());
    }
    while i < indices.len()
        invariant
            i <= indices@.len(),
            rect == words_rect(boxes@, indices@.take(i as int), crop),
        decreases indices@.len() - i,
    {
        proof {
            assert(indices@.take(i as int + 1).drop_last() =~= indices@.take(i as int));
        }
        let index: usize = indices[i];
        if index < boxes.len() {
            if let Some(in_crop) = boxes[index] {
                let current: ScreenRect = ScreenRect::new(
                    saturating_add_i32(crop.left, in_crop.left),
                    saturating_add_i32(crop.top, in_crop.top),
                    saturating_add_i32(crop.left, in_crop.right),
                    saturating_add_i32(crop.top, in_crop.bottom),
                );
                rect = Some(
                    match rect {
                        Some(existing) => ScreenRect::new(
                            min_i32(existing.left, current.left),
                            min_i32(existing.top, current.top),
                            max_i32(existing.right, current.right),
                            max_i32(existing.bottom, current.bottom),
                        ),
                        None => current,
                    },
                );
            }
        }
        i = i + 1;
    }
    proof {
        assert(indices@.take(i as int) =~= indices@);
    }
    rect
}

/// What a recognition amounts to. Without a target there is no text, and a
/// hover needs its sentence.
pub fn recognized_text(
    trigger: TriggerKind,
    target: String,
    context: Option<String>,
    screen_rect: Option<ScreenRect>,
) -> (text: Result<TextContext, ExtractionFailure>)
    ensures
        text == if target@.len() == 0 || trigger == TriggerKind::Hover && context is None {
            Err(ExtractionFailure::EmptyRange)
        } else {
            Ok(TextContext { target, context, source: ExtractionSource::Ocr, screen_rect })
        },
{
    if target.as_str().is_empty() {
        return Err(ExtractionFailure::EmptyRange);
    }
    if trigger == TriggerKind::Hover && context.is_none() {
        return Err(ExtractionFailure::EmptyRange);
    }
    Ok(TextContext { target, context, source: ExtractionSource::Ocr, screen_rect })
}

// What the joined texts look like.

/// How many characters the texts have together.
pub open spec fn total_length(texts: Seq<Seq<char>>) -> nat
    decreases texts.len(),
{
    if texts.len() == 0 {
        0
    } else {
        texts[0].len() + total_length(texts.skip(1))
    }
}

/// Where the first space of the text is, and its length where it has none.
pub open spec fn first_space(text: Seq<char>) -> nat
    decreases text.len(),
{
    if text.len() == 0 || text[0] == ' ' {
        0
    } else {
        1 + first_space(text.skip(1))
    }
}

/// The pieces of the text between its spaces.
pub open spec fn split_at_spaces(text: Seq<char>) -> Seq<Seq<char>>
    decreases text.len(),
    via split_at_spaces_shrinks
{
    let end = first_space(text) as int;
    if end >= text.len() {
        seq![text]
    } else {
        seq![text.take(end)] + split_at_spaces(text.skip(end + 1))
    }
}

#[via_fn]
proof fn split_at_spaces_shrinks(text: Seq<char>) {
    lemma_first_space(text);
}

proof fn lemma_first_space(text: Seq<char>)
    ensures
        first_space(text) <= text.len(),
        forall|i: int| 0 <= i < first_space(text) ==> text[i] != ' ',
        first_space(text) < text.len() ==> text[first_space(text) as int] == ' ',
    decreases text.len(),
{
    if text.len() > 0 && text[0] != ' ' {
        let rest = text.skip(1);
        lemma_first_space(rest);
        assert forall|i: int| 0 <= i < first_space(text) implies text[i] != ' ' by {
            if i > 0 {
                assert(text[i] == rest[i - 1]);
            }
        }
    }
}

proof fn lemma_space_behind_a_word(word: Seq<char>, rest: Seq<char>)
    requires
        forall|i: int| 0 <= i < word.len() ==> word[i] != ' ',
    ensures
        first_space(word) == word.len(),
        first_space(word.push(' ') + rest) == word.len(),
    decreases word.len(),
{
    let whole = word.push(' ') + rest;
    if word.len() > 0 {
        let tail = word.skip(1);
        assert forall|i: int| 0 <= i < tail.len() implies tail[i] != ' ' by {
            assert(tail[i] == word[i + 1]);
        }
        lemma_space_behind_a_word(tail, rest);
        assert(whole.skip(1) =~= tail.push(' ') + rest);
        assert(whole[0] == word[0]);
    } else {
        assert(whole[0] == ' ');
    }
}

/// Words joined by spaces, read from the front: the first word, one space, and
/// the others joined in the same way.
pub proof fn lemma_first_word_comes_first(texts: Seq<Seq<char>>)
    requires
        texts.len() > 0,
    ensures
        texts.len() == 1 ==> spaced(texts) == texts[0],
        texts.len() > 1 ==> spaced(texts) == texts[0] + seq![' '] + spaced(texts.skip(1)),
    decreases texts.len(),
{
    if texts.len() == 2 {
        assert(texts.drop_last().len() == 1);
        assert(spaced(texts.drop_last()) == texts[0]);
        assert(spaced(texts.skip(1)) == texts[1]);
        assert(spaced(texts) =~= texts[0] + seq![' '] + spaced(texts.skip(1)));
    } else if texts.len() > 2 {
        let front = texts.drop_last();
        lemma_first_word_comes_first(front);
        assert(texts.skip(1).drop_last() =~= front.skip(1));
        assert(texts.skip(1).last() == texts.last());
        assert(spaced(texts.skip(1)) == spaced(front.skip(1)).push(' ') + texts.last());
        assert(spaced(texts) =~= texts[0] + seq![' '] + spaced(texts.skip(1)));
    }
}

/// Two words are joined by one space.
pub proof fn lemma_two_words_have_one_space_between(a: Seq<char>, b: Seq<char>)
    ensures
        spaced(seq![a, b]) == a + seq![' '] + b,
        spaced(seq![a]) == a,
        spaced(Seq::<Seq<char>>::empty()) == Seq::<char>::empty(),
{
    lemma_first_word_comes_first(seq![a, b]);
    assert(seq![a, b].skip(1) =~= seq![b]);
}

/// The joined words are as long as the words and the spaces between them, and
/// split at their spaces into exactly the words, in order, where no word has a
/// space of its own.
pub proof fn lemma_words_can_be_told_apart(texts: Seq<Seq<char>>)
    requires
        texts.len() > 0,
    ensures
        spaced(texts).len() == total_length(texts) + texts.len() - 1,
        (forall|k: int, i: int|
            0 <= k < texts.len() && 0 <= i < texts[k].len() ==> #[trigger] texts[k][i] != ' ')
            ==> split_at_spaces(spaced(texts)) == texts,
    decreases texts.len(),
{
    lemma_first_word_comes_first(texts);
    let rest = texts.skip(1);
    let first = texts[0];
    if texts.len() == 1 {
        assert(total_length(rest) == 0);
        if forall|i: int| 0 <= i < first.len() ==> first[i] != ' ' {
            lemma_space_behind_a_word(first, Seq::empty());
            assert(split_at_spaces(first) =~= seq![first]);
            assert(seq![first] =~= texts);
        }
    } else {
        lemma_words_can_be_told_apart(rest);
        let tail = spaced(rest);
        assert(spaced(texts) =~= first.push(' ') + tail);
        if forall|k: int, i: int|
            0 <= k < texts.len() && 0 <= i < texts[k].len() ==> #[trigger] texts[k][i] != ' ' {
            assert forall|k: int, i: int|
                0 <= k < rest.len() && 0 <= i < rest[k].len() implies #[trigger] rest[k][i]
                != ' ' by {
                assert(texts[k + 1][i] != ' ');
            }
            lemma_space_behind_a_word(first, tail);
            let whole = spaced(texts);
            assert(whole.take(first.len() as int) =~= first);
            assert(whole.skip(first.len() as int + 1) =~= tail);
            assert(split_at_spaces(whole) =~= seq![first] + rest);
            assert(seq![first] + rest =~= texts);
        }
    }
}

/// The chosen texts are those of the chosen words, in the order in which they
/// were chosen, without words that have no text.
pub proof fn lemma_chosen_texts_are_those_of_the_words(
    normalized: Seq<Seq<char>>,
    indices: Seq<usize>,
    more: Seq<usize>,
    one: usize,
)
    ensures
        chosen_texts(normalized, indices + more) == chosen_texts(normalized, indices)
            + chosen_texts(normalized, more),
        chosen_texts(normalized, seq![one]) == if one < normalized.len()
            && normalized[one as int].len() > 0 {
            seq![normalized[one as int]]
        } else {
            Seq::<Seq<char>>::empty()
        },
        (forall|k: int|
            0 <= k < indices.len() ==> (#[trigger] indices[k]) < normalized.len()
                && normalized[indices[k] as int].len() > 0) ==> chosen_texts(normalized, indices)
            == indices.map_values(|i: usize| normalized[i as int]),
    decreases indices.len() + more.len(),
{
    lemma_chosen_texts_add_up(normalized, indices, more);
    assert(seq![one].drop_last() =~= Seq::<usize>::empty());
    assert(chosen_texts(normalized, Seq::<usize>::empty()) =~= Seq::<Seq<char>>::empty());
    assert(Seq::<Seq<char>>::empty().push(normalized[one as int]) =~= seq![
        normalized[one as int],
    ]);
    if forall|k: int|
        0 <= k < indices.len() ==> (#[trigger] indices[k]) < normalized.len()
            && normalized[indices[k] as int].len() > 0 {
        lemma_all_chosen(normalized, indices);
    }
}

proof fn lemma_chosen_texts_add_up(
    normalized: Seq<Seq<char>>,
    indices: Seq<usize>,
    more: Seq<usize>,
)
    ensures
        chosen_texts(normalized, indices + more) == chosen_texts(normalized, indices)
            + chosen_texts(normalized, more),
    decreases more.len(),
{
    if more.len() == 0 {
        assert(indices + more =~= indices);
        assert(chosen_texts(normalized, more) =~= Seq::<Seq<char>>::empty());
        assert(chosen_texts(normalized, indices) + Seq::<Seq<char>>::empty() =~= chosen_texts(
            normalized,
            indices,
        ));
    } else {
        lemma_chosen_texts_add_up(normalized, indices, more.drop_last());
        assert((indices + more).drop_last() =~= indices + more.drop_last());
        assert((indices + more).last() == more.last());
        assert(chosen_texts(normalized, indices + more) =~= chosen_texts(normalized, indices)
            + chosen_texts(normalized, more));
    }
}

proof fn lemma_all_chosen(normalized: Seq<Seq<char>>, indices: Seq<usize>)
    requires
        forall|k: int|
            0 <= k < indices.len() ==> (#[trigger] indices[k]) < normalized.len()
                && normalized[indices[k] as int].len() > 0,
    ensures
        chosen_texts(normalized, indices) == indices.map_values(|i: usize| normalized[i as int]),
    decreases indices.len(),
{
    if indices.len() > 0 {
        lemma_all_chosen(normalized, indices.drop_last());
        assert(indices[indices.len() - 1] == indices.last());
    }
    assert(chosen_texts(normalized, indices) =~= indices.map_values(
        |i: usize| normalized[i as int],
    ));
}

/// Lines that have a text are joined by single spaces; lines without one before
/// the first that has one leave no trace.
pub proof fn lemma_lines_are_joined_by_spaces(texts: Seq<Seq<char>>)
    ensures
        (forall|k: int| 0 <= k < texts.len() ==> (#[trigger] texts[k]).len() > 0) ==> joined(texts)
            == spaced(texts),
        texts.len() > 0 ==> joined(texts) == if joined(texts.drop_last()).len() == 0 {
            texts.last()
        } else {
            joined(texts.drop_last()) + seq![' '] + texts.last()
        },
        texts.len() == 0 ==> joined(texts).len() == 0,
    decreases texts.len(),
{
    if texts.len() > 0 {
        let front = texts.drop_last();
        lemma_lines_are_joined_by_spaces(front);
        assert(joined(texts) =~= if joined(front).len() == 0 {
            texts.last()
        } else {
            joined(front) + seq![' '] + texts.last()
        });
        if forall|k: int| 0 <= k < texts.len() ==> (#[trigger] texts[k]).len() > 0 {
            assert forall|k: int| 0 <= k < front.len() implies (#[trigger] front[k]).len() > 0 by {
                assert(front[k] == texts[k]);
            }
            if texts.len() == 1 {
                assert(texts.last() == texts[0]);
            } else {
                lemma_words_can_be_told_apart(front);
                assert(front[0].len() > 0);
                assert(joined(texts) =~= spaced(texts));
            }
        }
    }
}

/// The text number `index` stands in the joined texts at the byte where it is
/// said to begin.
pub proof fn lemma_a_line_stands_where_it_begins(texts: Seq<Seq<char>>, index: int)
    requires
        0 <= index < texts.len(),
    ensures
        exists|at: int| #[trigger]
            is_byte_offset(joined(texts), at, text_start(texts, index)) && occurs_at(
                joined(texts),
                texts[index],
                at,
            ),
    decreases texts.len(),
{
    let front = texts.drop_last();
    let whole = joined(texts);
    let head = before_text(joined(front));
    assert(whole == head + texts.last());
    if index == texts.len() - 1 {
        let at = head.len() as int;
        assert(texts.take(index) =~= front);
        assert(whole.take(at) =~= head);
        assert(whole.subrange(at, at + texts.last().len()) =~= texts.last());
        assert(is_byte_offset(whole, at, text_start(texts, index)));
        assert(occurs_at(whole, texts[index], at));
    } else {
        lemma_a_line_stands_where_it_begins(front, index);
        assert(front.take(index) =~= texts.take(index));
        assert(front[index] == texts[index]);
        let at = choose|at: int| #[trigger]
            is_byte_offset(joined(front), at, text_start(front, index)) && occurs_at(
                joined(front),
                front[index],
                at,
            );
        assert(whole.take(at) =~= joined(front).take(at));
        assert(whole.subrange(at, at + texts[index].len()) =~= joined(front).subrange(
            at,
            at + texts[index].len(),
        ));
        assert(is_byte_offset(whole, at, text_start(texts, index)));
        assert(occurs_at(whole, texts[index], at));
    }
}

/// A word that was found stands in its line at its offset, behind the words of
/// the line that were found before it.
pub proof fn lemma_a_word_stands_at_its_offset(line: OcrLine, index: int)
    requires
        0 <= index < line.words@.len(),
        word_offset(line, index) is Some,
    ensures
        exists|at: int| #[trigger]
            is_byte_offset(line.text@, at, word_offset(line, index).unwrap()) && occurs_at(
                line.text@,
                line.words@[index].text@,
                at,
            ) && (forall|earlier: int|
                0 <= earlier < index && word_offset(line, earlier) is Some ==> word_offset(
                    line,
                    earlier,
                ).unwrap() <= word_offset(line, index).unwrap()),
{
    let start = search_start(line, index);
    lemma_search_starts_in_the_line(line, index);
    lemma_first_occurrence(line.text@, line.words@[index].text@, start);
    let at = first_occurrence(line.text@, line.words@[index].text@, start).unwrap();
    assert(is_byte_offset(line.text@, at, word_offset(line, index).unwrap()));
    assert forall|earlier: int|
        0 <= earlier < index && word_offset(line, earlier) is Some implies word_offset(
        line,
        earlier,
    ).unwrap() <= word_offset(line, index).unwrap() by {
        lemma_search_moves_on(line, earlier, index);
        lemma_search_starts_in_the_line(line, earlier);
        lemma_first_occurrence(
            line.text@,
            line.words@[earlier].text@,
            search_start(line, earlier),
        );
        let before = first_occurrence(
            line.text@,
            line.words@[earlier].text@,
            search_start(line, earlier),
        ).unwrap();
        if before < at {
            crate::text::lemma_byte_offset_is_unique(line.text@, before, at);
        }
    }
}

proof fn lemma_search_starts_in_the_line(line: OcrLine, index: int)
    requires
        0 <= index <= line.words@.len(),
    ensures
        0 <= search_start(line, index) <= line.text@.len(),
    decreases index,
{
    if index > 0 {
        lemma_search_starts_in_the_line(line, index - 1);
        lemma_first_occurrence(
            line.text@,
            line.words@[index - 1].text@,
            search_start(line, index - 1),
        );
    }
}

proof fn lemma_search_moves_on(line: OcrLine, earlier: int, index: int)
    requires
        0 <= earlier < index <= line.words@.len(),
        word_offset(line, earlier) is Some,
    ensures
        first_occurrence(
            line.text@,
            line.words@[earlier].text@,
            search_start(line, earlier),
        ).unwrap() + line.words@[earlier].text@.len() <= search_start(line, index),
    decreases index,
{
    if earlier < index - 1 {
        lemma_search_moves_on(line, earlier, index - 1);
        lemma_search_starts_in_the_line(line, index - 1);
        lemma_first_occurrence(
            line.text@,
            line.words@[index - 1].text@,
            search_start(line, index - 1),
        );
    }
}

/// The words of a line that are there are found: where the line is its words with
/// one space between them, every word is placed, each behind the one before it.
pub proof fn lemma_words_of_a_line_are_found(line: OcrLine, index: int, at: int)
    requires
        0 <= index < line.words@.len(),
        search_start(line, index) <= at,
        occurs_at(line.text@, line.words@[index].text@, at),
    ensures
        word_offset(line, index) is Some,
        exists|found: int|
            search_start(line, index) <= found <= at && #[trigger] is_byte_offset(
                line.text@,
                found,
                word_offset(line, index).unwrap(),
            ),
{
    let start = search_start(line, index);
    lemma_search_starts_in_the_line(line, index);
    lemma_first_occurrence(line.text@, line.words@[index].text@, start);
    let found = first_occurrence(line.text@, line.words@[index].text@, start).unwrap();
    assert(is_byte_offset(line.text@, found, word_offset(line, index).unwrap()));
}

/// A placed word stands in the context at its place there: what the sentence is
/// looked for at is the word itself.
pub proof fn lemma_a_word_stands_at_its_place(lines: Seq<OcrLine>, index: int, place: WordPlace)
    requires
        lines.len() > 0,
        0 <= index < lines.last().words@.len(),
        is_place(lines, index, place),
        place.context_offset is Some,
    ensures
        place.line_offset is Some,
        exists|at: int| #[trigger]
            is_byte_offset(
                joined(line_texts(lines)),
                at,
                place.context_offset.unwrap() as int,
            ) && occurs_at(joined(line_texts(lines)), lines.last().words@[index].text@, at),
{
    let texts = line_texts(lines);
    let line = lines.last();
    let whole = joined(texts);
    let word = line.words@[index].text@;
    let head = before_text(joined(texts.drop_last()));
    assert(texts.last() == line.text@);
    assert(texts.take(texts.len() - 1) =~= texts.drop_last());
    assert(whole == head + line.text@);
    lemma_a_word_stands_at_its_offset(line, index);
    let inner = choose|at: int| #[trigger]
        is_byte_offset(line.text@, at, word_offset(line, index).unwrap()) && occurs_at(
            line.text@,
            word,
            at,
        );
    let at = head.len() + inner;
    assert(whole.take(at) =~= head + line.text@.take(inner));
    lemma_byte_len_splits(head, line.text@.take(inner));
    assert(whole.subrange(at, at + word.len()) =~= line.text@.subrange(inner, inner + word.len()));
    assert(is_byte_offset(whole, at, place.context_offset.unwrap() as int));
    assert(occurs_at(whole, word, at));
}

/// The rectangle around the chosen words, where any of their boxes is known,
/// encloses every known box of theirs, moved from the crop to the screen, and no
/// smaller one does; without a known box there is none.
pub proof fn lemma_target_rect_is_the_least_around_the_words(
    boxes: Seq<Option<ScreenRect>>,
    indices: Seq<usize>,
    crop: ScreenRect,
)
    requires
        forall|i: int|
            0 <= i < boxes.len() && (#[trigger] boxes[i]) is Some ==> {
                let inner = boxes[i].unwrap();
                &&& i32::MIN <= crop.left + inner.left <= i32::MAX
                &&& i32::MIN <= crop.top + inner.top <= i32::MAX
                &&& i32::MIN <= crop.left + inner.right <= i32::MAX
                &&& i32::MIN <= crop.top + inner.bottom <= i32::MAX
            },
    ensures
        words_rect(boxes, indices, crop) is Some <==> exists|k: int|
            0 <= k < indices.len() && has_box(boxes, #[trigger] indices[k]),
        words_rect(boxes, indices, crop) matches Some(rect) ==> {
            &&& forall|k: int|
                0 <= k < indices.len() && has_box(boxes, #[trigger] indices[k]) ==> {
                    let inner = boxes[indices[k] as int].unwrap();
                    &&& rect.left <= crop.left + inner.left
                    &&& rect.top <= crop.top + inner.top
                    &&& rect.right >= crop.left + inner.right
                    &&& rect.bottom >= crop.top + inner.bottom
                }
            &&& exists|k: int|
                0 <= k < indices.len() && has_box(boxes, #[trigger] indices[k]) && rect.left
                    == crop.left + boxes[indices[k] as int].unwrap().left
            &&& exists|k: int|
                0 <= k < indices.len() && has_box(boxes, #[trigger] indices[k]) && rect.top
                    == crop.top + boxes[indices[k] as int].unwrap().top
            &&& exists|k: int|
                0 <= k < indices.len() && has_box(boxes, #[trigger] indices[k]) && rect.right
                    == crop.left + boxes[indices[k] as int].unwrap().right
            &&& exists|k: int|
                0 <= k < indices.len() && has_box(boxes, #[trigger] indices[k]) && rect.bottom
                    == crop.top + boxes[indices[k] as int].unwrap().bottom
        },
    decreases indices.len(),
{
    if indices.len() > 0 {
        let front = indices.drop_last();
        let last = indices.len() - 1;
        lemma_target_rect_is_the_least_around_the_words(boxes, front, crop);
        assert(indices[last] == indices.last());
        assert forall|k: int| 0 <= k < front.len() implies #[trigger] front[k] == indices[k] by {}
        if let Some(before) = words_rect(boxes, front, crop) {
            let a = choose|k: int|
                0 <= k < front.len() && has_box(boxes, #[trigger] front[k]) && before.left
                    == crop.left + boxes[front[k] as int].unwrap().left;
            let b = choose|k: int|
                0 <= k < front.len() && has_box(boxes, #[trigger] front[k]) && before.top
                    == crop.top + boxes[front[k] as int].unwrap().top;
            let c = choose|k: int|
                0 <= k < front.len() && has_box(boxes, #[trigger] front[k]) && before.right
                    == crop.left + boxes[front[k] as int].unwrap().right;
            let d = choose|k: int|
                0 <= k < front.len() && has_box(boxes, #[trigger] front[k]) && before.bottom
                    == crop.top + boxes[front[k] as int].unwrap().bottom;
            assert(has_box(boxes, indices[a]) && has_box(boxes, indices[b]));
            assert(has_box(boxes, indices[c]) && has_box(boxes, indices[d]));
        } else {
            assert forall|k: int| 0 <= k < front.len() implies !has_box(
                boxes,
                #[trigger] indices[k],
            ) by {
                assert(!has_box(boxes, front[k]));
            }
        }
        if has_box(boxes, indices[last]) {
            assert(words_rect(boxes, indices, crop) is Some);
        }
        assert forall|k: int|
            0 <= k < indices.len() && has_box(boxes, #[trigger] indices[k]) implies (words_rect(
            boxes,
            indices,
            crop,
        ) matches Some(rect) && rect.left <= crop.left + boxes[indices[k] as int].unwrap().left
            && rect.top <= crop.top + boxes[indices[k] as int].unwrap().top && rect.right
            >= crop.left + boxes[indices[k] as int].unwrap().right && rect.bottom >= crop.top
            + boxes[indices[k] as int].unwrap().bottom) by {
            if k < last {
                assert(has_box(boxes, front[k]));
            }
        }
    }
}

/// The word has a known box.
pub open spec fn has_box(boxes: Seq<Option<ScreenRect>>, index: usize) -> bool {
    index < boxes.len() && boxes[index as int] is Some
}

/// The box of a line encloses the valid box of every word of it, and each of its
/// edges is that of one of them.
pub proof fn lemma_line_box_is_the_least_around_the_words(words: Seq<WordBox>, count: int)
    requires
        0 <= count <= words.len(),
    ensures
        bounds_of(words, count) is Some <==> exists|i: int|
            0 <= i < count && (#[trigger] words[i]).bounds.valid(),
        bounds_of(words, count) matches Some(line) ==> {
            &&& line.valid()
            &&& forall|i: int|
                0 <= i < count && (#[trigger] words[i]).bounds.valid() ==> line.left.rank()
                    <= words[i].bounds.left.rank() && line.top.rank() <= words[i].bounds.top.rank()
                    && line.right.rank() >= words[i].bounds.right.rank() && line.bottom.rank()
                    >= words[i].bounds.bottom.rank()
            &&& exists|i: int|
                0 <= i < count && (#[trigger] words[i]).bounds.valid() && line.left.rank()
                    == words[i].bounds.left.rank()
            &&& exists|i: int|
                0 <= i < count && (#[trigger] words[i]).bounds.valid() && line.top.rank()
                    == words[i].bounds.top.rank()
            &&& exists|i: int|
                0 <= i < count && (#[trigger] words[i]).bounds.valid() && line.right.rank()
                    == words[i].bounds.right.rank()
            &&& exists|i: int|
                0 <= i < count && (#[trigger] words[i]).bounds.valid() && line.bottom.rank()
                    == words[i].bounds.bottom.rank()
        },
    decreases count,
{
    if count > 0 {
        lemma_line_box_is_the_least_around_the_words(words, count - 1);
        let current = words[count - 1].bounds;
        if current.valid() {
            assert(bounds_of(words, count) is Some);
        }
    }
}

/// No other line is contiguous with the line.
pub open spec fn is_alone(lines: Seq<Option<Bounds>>, linked: Seq<Vec<bool>>, line: int) -> bool {
    forall|i: int|
        #![trigger lines[i]]
        0 <= i < lines.len() && i != line ==> !(if i < line {
            linked[line]@[i]
        } else {
            linked[i]@[line]
        })
}

/// A line belongs to its own group, and so does a line that is contiguous with
/// it, whichever comes first; a line that is contiguous with none is alone.
#[verifier::spinoff_prover]
#[verifier::rlimit(50)]
pub proof fn lemma_contiguous_lines_belong_together(
    lines: Seq<Option<Bounds>>,
    linked: Seq<Vec<bool>>,
    a: int,
    b: int,
)
    requires
        0 <= a < b < lines.len(),
        lines[a] is Some && lines[a].unwrap().valid(),
        lines[b] is Some && lines[b].unwrap().valid(),
    ensures
        reaches(lines, linked, a, a),
        linked[b]@[a] ==> reaches(lines, linked, a, b) && reaches(lines, linked, b, a),
        is_alone(lines, linked, a) ==> !reaches(lines, linked, a, b),
{
    let alone = seq![a];
    assert(is_path(lines, linked, alone));
    assert(alone.last() == a);
    if linked[b]@[a] {
        let there = seq![a, b];
        assert(is_path(lines, linked, there)) by {
            assert(are_linked(linked, there[0], there[1]));
        }
        assert(there.last() == b);
        let back = seq![b, a];
        assert(is_path(lines, linked, back)) by {
            assert(are_linked(linked, back[0], back[1]));
        }
        assert(back.last() == a);
    }
    if is_alone(lines, linked, a) && reaches(lines, linked, a, b) {
        let path = choose|path: Seq<int>| #[trigger]
            is_path(lines, linked, path) && path[0] == a && path.last() == b;
        lemma_a_lone_line_leads_nowhere(lines, linked, a, path, path.len() - 1);
    }
}

#[verifier::spinoff_prover]
#[verifier::rlimit(50)]
proof fn lemma_a_lone_line_leads_nowhere(
    lines: Seq<Option<Bounds>>,
    linked: Seq<Vec<bool>>,
    a: int,
    path: Seq<int>,
    k: int,
)
    requires
        is_alone(lines, linked, a),
        is_path(lines, linked, path),
        path[0] == a,
        0 <= k < path.len(),
    ensures
        path[k] == a,
    decreases k,
{
    if k > 0 {
        lemma_a_lone_line_leads_nowhere(lines, linked, a, path, k - 1);
        let next = path[k];
        assert(is_line(lines, next));
        assert(are_linked(linked, path[k - 1], next));
        assert(next == a || lines[next] is Some);
    }
}

/// What a hovered word's sentence is looked for in holds the rest of the word's
/// line from the word on, at the place where the sentence is looked for.
pub proof fn lemma_a_hovered_word_is_found_among_its_lines(
    target_word: usize,
    places: Vec<WordPlace>,
    texts: Vec<String>,
    lines: Vec<Option<Bounds>>,
    linked: Vec<Vec<bool>>,
    query: SentenceQuery,
    i: int,
)
    requires
        call_ensures(
            hover_sentence_from_lines,
            (target_word, &places, &texts, &lines, &linked),
            Some(query),
        ),
        places@[target_word as int].line_offset matches Some(offset) && is_byte_offset(
            texts@[places@[target_word as int].line as int]@,
            i,
            offset as int,
        ),
    ensures
        exists|at: int| #[trigger]
            is_byte_offset(query.source@, at, query.offset as int) && occurs_at(
                query.source@,
                texts@[places@[target_word as int].line as int]@.skip(i),
                at,
            ),
{
    let place = places@[target_word as int];
    let group = line_group(lines@, linked@, place.line as int, lines@.len() as int);
    let parts = group_texts(views(texts@), group);
    let p = choose|p: int|
        #![trigger group[p]]
        0 <= p < group.len() && group[p] == place.line && query.offset == text_start(parts, p)
            + place.line_offset.unwrap();
    assert(group[p] < views(texts@).len());
    let line = texts@[place.line as int]@;
    assert(parts[p] == line);
    lemma_a_line_stands_where_it_begins(parts, p);
    let whole = joined(parts);
    let start = choose|at: int| #[trigger]
        is_byte_offset(whole, at, text_start(parts, p)) && occurs_at(whole, parts[p], at);
    let at = start + i;
    assert(whole.take(at) =~= whole.take(start) + line.take(i)) by {
        assert forall|k: int| 0 <= k < at implies whole.take(at)[k] == (whole.take(start)
            + line.take(i))[k] by {
            if k >= start {
                assert(whole.subrange(start, start + line.len())[k - start] == whole[k]);
            }
        }
    }
    lemma_byte_len_splits(whole.take(start), line.take(i));
    assert(is_byte_offset(whole, at, query.offset as int));
    assert(whole.subrange(at, at + line.skip(i).len()) =~= line.skip(i)) by {
        assert forall|k: int| 0 <= k < line.skip(i).len() implies whole.subrange(
            at,
            at + line.skip(i).len(),
        )[k] == line.skip(i)[k] by {
            assert(whole.subrange(start, start + line.len())[i + k] == line[i + k]);
        }
    }
    assert(occurs_at(whole, line.skip(i), at));
}

} // verus!

//! What the user chooses: which shape tiles the screen, and how high the
//! pulse must rise before a cell shows.
//!
//! Settings are kept as text, one `key=value` per line. This module finds
//! the entries and puts them together again; the threshold's number is read
//! and written by the caller, who hands it over in millionths.

use vstd::prelude::*;
use vstd::string::StrSliceExecFns;
use crate::text::{
    index_of_spec,
    is_whitespace_spec,
    lemma_index_of,
    lemma_trim_end,
    lemma_trim_start,
    split_lines,
    split_lines_spec,
    texts_view,
    trim_range,
    trim_spec,
};
use crate::units::{is_fraction, ONE};

verus! {

/// The outline drawn in every cell.
#[derive(Clone, Copy, Debug, PartialEq, Eq, Structural)]
pub enum ShapeType {
    Hexagon,
    Heart,
}

/// The settings of a session.
#[derive(Clone, Copy, Debug, PartialEq, Eq, Structural)]
pub struct Config {
    pub shape: ShapeType,
    /// The visibility threshold, a fraction in millionths.
    pub threshold: u32,
}

impl Default for ShapeType {
    fn default() -> (shape: ShapeType)
        ensures
            shape == ShapeType::Hexagon,
    {
        ShapeType::Hexagon
    }
}

impl Default for Config {
    fn default() -> (config: Config)
        ensures
            config == Config::default_spec(),
    {
        Config { shape: ShapeType::Hexagon, threshold: 0 }
    }
}

/// `value` brought into `[0, 1]`: what lies outside moves to the nearer end.
pub open spec fn clamp_threshold_spec(value: int) -> int {
    if value < 0 {
        0
    } else if value > ONE {
        ONE as int
    } else {
        value
    }
}

/// Brings a threshold into `[0, 1]`.
pub fn clamp_threshold(value: i64) -> (threshold: u32)
    ensures
        threshold == clamp_threshold_spec(value as int),
        is_fraction(threshold as int),
{
    if value < 0 {
        0
    } else if value > ONE as i64 {
        ONE
    } else {
        value as u32
    }
}

impl Config {
    /// The settings used when nothing was saved: hexagons, threshold zero.
    pub open spec fn default_spec() -> Config {
        Config { shape: ShapeType::Hexagon, threshold: 0 }
    }

    /// The threshold lies in `[0, 1]`.
    pub open spec fn wf(self) -> bool {
        is_fraction(self.threshold as int)
    }

    /// Tells whether the threshold lies in `[0, 1]`.
    pub fn is_valid(&self) -> (ok: bool)
        ensures
            ok == self.wf(),
    {
        self.threshold <= ONE
    }

    /// Settings with the given shape and the threshold clamped into
    /// `[0, 1]`.
    pub fn new(shape: ShapeType, threshold: i64) -> (config: Config)
        ensures
            config.shape == shape,
            config.threshold == clamp_threshold_spec(threshold as int),
            config.wf(),
    {
        Config { shape, threshold: clamp_threshold(threshold) }
    }
}

/// What one line of a settings text says.
#[derive(Debug)]
pub enum Entry {
    /// `shape=...`: the shape it names.
    Shape(ShapeType),
    /// `threshold=...`: the text of its value, still to be read as a number.
    Threshold(Vec<char>),
    /// Anything else; such a line is skipped.
    Other,
}

/// An [`Entry`] as a mathematical value.
pub enum EntryView {
    Shape(ShapeType),
    Threshold(Seq<char>),
    Other,
}

impl View for Entry {
    type V = EntryView;

    open spec fn view(&self) -> EntryView {
        match self {
            Entry::Shape(shape) => EntryView::Shape(*shape),
            Entry::Threshold(value) => EntryView::Threshold(value@),
            Entry::Other => EntryView::Other,
        }
    }
}

/// What a settings text says: the shape it settles on, and the value of
/// each of its threshold entries, first to last.
#[derive(Debug)]
pub struct Draft {
    pub shape: ShapeType,
    pub thresholds: Vec<Vec<char>>,
}

/// A [`Draft`] as a mathematical value.
pub struct DraftView {
    pub shape: ShapeType,
    pub thresholds: Seq<Seq<char>>,
}

impl View for Draft {
    type V = DraftView;

    open spec fn view(&self) -> DraftView {
        DraftView { shape: self.shape, thresholds: texts_view(self.thresholds@) }
    }
}

/// The shape a value names: a heart for `heart`, a hexagon for anything
/// else.
pub open spec fn shape_of_value(value: Seq<char>) -> ShapeType {
    if value == "heart"@ {
        ShapeType::Heart
    } else {
        ShapeType::Hexagon
    }
}

/// The name a shape is saved under.
pub open spec fn shape_name(shape: ShapeType) -> Seq<char> {
    match shape {
        ShapeType::Hexagon => "hexagon"@,
        ShapeType::Heart => "heart"@,
    }
}

/// What a line says. A line with exactly one `=` is an entry, its key and
/// value being what stands before and behind the `=`, without the white
/// space around them; the keys `shape` and `threshold` are known.
pub open spec fn entry_spec(line: Seq<char>) -> EntryView {
    let at = index_of_spec(line, '=');
    let rest = line.skip(at + 1);
    if at < line.len() && index_of_spec(rest, '=') >= rest.len() {
        let key = trim_spec(line.take(at));
        let value = trim_spec(rest);
        if key == "shape"@ {
            EntryView::Shape(shape_of_value(value))
        } else if key == "threshold"@ {
            EntryView::Threshold(value)
        } else {
            EntryView::Other
        }
    } else {
        EntryView::Other
    }
}

/// A draft after one more entry: a shape entry replaces the shape, a
/// threshold entry adds its value.
pub open spec fn draft_with(draft: DraftView, entry: EntryView) -> DraftView {
    match entry {
        EntryView::Shape(shape) => DraftView { shape, ..draft },
        EntryView::Threshold(value) => DraftView {
            thresholds: draft.thresholds.push(value),
            ..draft
        },
        EntryView::Other => draft,
    }
}

/// What a list of lines says, read first to last from the default shape.
pub open spec fn draft_of_lines(lines: Seq<Seq<char>>) -> DraftView
    decreases lines.len(),
{
    if lines.len() == 0 {
        DraftView { shape: ShapeType::Hexagon, thresholds: Seq::empty() }
    } else {
        draft_with(draft_of_lines(lines.drop_last()), entry_spec(lines.last()))
    }
}

/// What a settings text says.
pub open spec fn scan_spec(content: Seq<char>) -> DraftView {
    draft_of_lines(split_lines_spec(content))
}

/// The last number among the readings of the threshold entries, if any of
/// them could be read.
pub open spec fn last_reading(readings: Seq<Option<i64>>) -> Option<i64>
    decreases readings.len(),
{
    if readings.len() == 0 {
        None
    } else if readings.last() is Some {
        readings.last()
    } else {
        last_reading(readings.drop_last())
    }
}

/// The threshold that a list of readings settles on: the last number that
/// could be read, clamped, or zero if there is none.
pub open spec fn threshold_of_readings(readings: Seq<Option<i64>>) -> int {
    match last_reading(readings) {
        Some(value) => clamp_threshold_spec(value as int),
        None => 0,
    }
}

/// The text that settings are saved as.
pub open spec fn save_spec(shape: ShapeType, threshold_text: Seq<char>) -> Seq<char> {
    "shape="@ + shape_name(shape) + "\nthreshold="@ + threshold_text + "\n"@
}

/// Tells whether `text` is the word `word`.
fn is_word(text: &Vec<char>, word: &str) -> (same: bool)
    ensures
        same == (text@ == word@),
{
    let n: usize = word.unicode_len();
    if text.len() != n {
        return false;
    }
    let mut i: usize = 0;
    while i < n
        invariant
            i <= n,
            n == word@.len(),
            n == text@.len(),
            forall|j: int| 0 <= j < i ==> text@[j] == word@[j],
        decreases n - i,
    {
        if text[i] != word.get_char(i) {
            return false;
        }
        i += 1;
    }
    assert(text@ =~= word@);
    true
}

/// Appends the characters of `word` to `out`.
fn push_word(out: &mut Vec<char>, word: &str)
    ensures
        final(out)@ == old(out)@ + word@,
{
    let n: usize = word.unicode_len();
    let mut i: usize = 0;
    while i < n
        invariant
            i <= n,
            n == word@.len(),
            out@ == old(out)@ + word@.take(i as int),
        decreases n - i,
    {
        out.push(word.get_char(i));
        assert(out@ =~= old(out)@ + word@.take(i + 1));
        i += 1;
    }
    assert(word@.take(n as int) =~= word@);
}

/// Appends the characters of `text` to `out`.
fn push_text(out: &mut Vec<char>, text: &Vec<char>)
    ensures
        final(out)@ == old(out)@ + text@,
{
    let mut i: usize = 0;
    while i < text.len()
        invariant
            i <= text.len(),
            out@ == old(out)@ + text@.take(i as int),
        decreases text.len() - i,
    {
        out.push(text[i]);
        assert(out@ =~= old(out)@ + text@.take(i + 1));
        i += 1;
    }
    assert(text@.take(text@.len() as int) =~= text@);
}

/// The index of the first `=` in `line` at or behind `from`, or the length
/// of the line if there is none.
fn find_equals(line: &Vec<char>, from: usize) -> (at: usize)
    requires
        from <= line.len(),
    ensures
        from <= at <= line.len(),
        at - from == index_of_spec(line@.skip(from as int), '='),
{
    let mut at: usize = from;
    while at < line.len() && line[at] != '='
        invariant
            from <= at <= line.len(),
            forall|j: int| from <= j < at ==> line@[j] != '=',
        decreases line.len() - at,
    {
        at += 1;
    }
    proof {
        lemma_index_of(line@.skip(from as int), '=', at - from);
    }
    at
}

/// Reads one line of a settings text.
pub fn parse_line(line: &Vec<char>) -> (entry: Entry)
    ensures
        entry@ == entry_spec(line@),
{
    assert(line@.skip(0) =~= line@);
    let at: usize = find_equals(line, 0);
    if at >= line.len() {
        return Entry::Other;
    }
    let second: usize = find_equals(line, at + 1);
    if second < line.len() {
        return Entry::Other;
    }
    assert(line@.subrange(0, at as int) =~= line@.take(at as int));
    assert(line@.subrange(at + 1, line@.len() as int) =~= line@.skip(at + 1));
    let key = trim_range(line, 0, at);
    let value = trim_range(line, at + 1, line.len());
    if is_word(&key, "shape") {
        if is_word(&value, "heart") {
            Entry::Shape(ShapeType::Heart)
        } else {
            Entry::Shape(ShapeType::Hexagon)
        }
    } else if is_word(&key, "threshold") {
        Entry::Threshold(value)
    } else {
        Entry::Other
    }
}

impl Draft {
    /// Reads a settings text: every line that is a `shape` entry sets the
    /// shape, every line that is a `threshold` entry adds its value to the
    /// list, and every other line is skipped.
    pub fn scan(content: &Vec<char>) -> (draft: Draft)
        ensures
            draft@ == scan_spec(content@),
    {
        let lines = split_lines(content);
        let mut draft = Draft { shape: ShapeType::Hexagon, thresholds: Vec::new() };
        let mut i: usize = 0;
        assert(texts_view(lines@).take(0) =~= Seq::<Seq<char>>::empty());
        assert(texts_view(draft.thresholds@) =~= Seq::<Seq<char>>::empty());
        while i < lines.len()
            invariant
                i <= lines.len(),
                texts_view(lines@).len() == lines.len(),
                draft@ == draft_of_lines(texts_view(lines@).take(i as int)),
            decreases lines.len() - i,
        {
            let ghost before = draft@;
            let entry = parse_line(&lines[i]);
            proof {
                let done = texts_view(lines@).take(i + 1);
                assert(done.drop_last() =~= texts_view(lines@).take(i as int));
                assert(done.last() == lines@[i as int]@);
            }
            match entry {
                Entry::Shape(shape) => {
                    draft.shape = shape;
                },
                Entry::Threshold(value) => {
                    proof {
                        assert(texts_view(draft.thresholds@.push(value)) =~= texts_view(
                            draft.thresholds@,
                        ).push(value@));
                    }
                    draft.thresholds.push(value);
                },
                Entry::Other => {},
            }
            i += 1;
        }
        assert(texts_view(lines@).take(lines.len() as int) =~= texts_view(lines@));
        draft
    }
}

impl Config {
    /// The settings that a text and the readings of its threshold entries
    /// give: the shape the text settles on, and the last threshold that
    /// could be read as a number, clamped into `[0, 1]`. Without such a
    /// number the threshold stays at its default, zero.
    pub fn load(shape: ShapeType, readings: &Vec<Option<i64>>) -> (config: Config)
        ensures
            config.shape == shape,
            config.threshold == threshold_of_readings(readings@),
            config.wf(),
    {
        let mut threshold: u32 = 0;
        let mut i: usize = 0;
        assert(readings@.take(0) =~= Seq::<Option<i64>>::empty());
        while i < readings.len()
            invariant
                i <= readings.len(),
                threshold == threshold_of_readings(readings@.take(i as int)),
                is_fraction(threshold as int),
            decreases readings.len() - i,
        {
            proof {
                let done = readings@.take(i + 1);
                assert(done.drop_last() =~= readings@.take(i as int));
                assert(done.last() == readings@[i as int]);
            }
            match readings[i] {
                Some(value) => {
                    threshold = clamp_threshold(value);
                },
                None => {},
            }
            i += 1;
        }
        assert(readings@.take(readings.len() as int) =~= readings@);
        Config { shape, threshold }
    }

    /// The text to save the settings as, given the threshold written out
    /// as a number: a `shape` line and a `threshold` line.
    pub fn save(&self, threshold_text: &Vec<char>) -> (content: Vec<char>)
        ensures
            content@ == save_spec(self.shape, threshold_text@),
    {
        let mut content: Vec<char> = Vec::new();
        push_word(&mut content, "shape=");
        match self.shape {
            ShapeType::Hexagon => push_word(&mut content, "hexagon"),
            ShapeType::Heart => push_word(&mut content, "heart"),
        }
        push_word(&mut content, "\nthreshold=");
        push_text(&mut content, threshold_text);
        push_word(&mut content, "\n");
        assert(content@ =~= save_spec(self.shape, threshold_text@));
        content
    }
}

/// A text that neither starts nor ends with white space is its own trim.
proof fn lemma_trim_of_word(word: Seq<char>)
    requires
        word.len() > 0 ==> !is_whitespace_spec(word.first()) && !is_whitespace_spec(word.last()),
    ensures
        trim_spec(word) == word,
{
    lemma_trim_start(word, 0);
    assert(word.skip(0) =~= word);
    lemma_trim_end(word, word.len() as int);
    assert(word.take(word.len() as int) =~= word);
}

/// The line `key=value` is an entry with that key, and with the value
/// trimmed, when the key is a word and neither holds an `=`.
proof fn lemma_entry_of_pair(key: Seq<char>, value: Seq<char>)
    requires
        key.len() > 0,
        !is_whitespace_spec(key.first()),
        !is_whitespace_spec(key.last()),
        forall|i: int| 0 <= i < key.len() ==> key[i] != '=',
        forall|i: int| 0 <= i < value.len() ==> value[i] != '=',
    ensures
        key == "shape"@ ==> entry_spec(key + seq!['='] + value) == EntryView::Shape(
            shape_of_value(trim_spec(value)),
        ),
        key == "threshold"@ ==> entry_spec(key + seq!['='] + value) == EntryView::Threshold(
            trim_spec(value),
        ),
{
    let line = key + seq!['='] + value;
    let at = key.len() as int;
    assert(line[at] == '=');
    assert forall|i: int| 0 <= i < at implies line[i] != '=' by {
        assert(line[i] == key[i]);
    }
    lemma_index_of(line, '=', at);
    let rest = line.skip(at + 1);
    assert(rest =~= value);
    lemma_index_of(value, '=', value.len() as int);
    assert(line.take(at) =~= key);
    lemma_trim_of_word(key);
    reveal_strlit("shape");
    reveal_strlit("threshold");
    assert("shape"@.len() == 5);
    assert("threshold"@.len() == 9);
}

/// Saving and reading back agree: the text that [`Config::save`] writes
/// scans to the shape that was saved and to a single threshold value, the
/// number's text without the white space around it. This holds for every
/// number text that has no line feed and no `=` in it.
pub proof fn lemma_scan_of_saved(shape: ShapeType, threshold_text: Seq<char>)
    requires
        forall|i: int|
            0 <= i < threshold_text.len() ==> threshold_text[i] != '\n' && threshold_text[i]
                != '=',
    ensures
        scan_spec(save_spec(shape, threshold_text)) == (DraftView {
            shape,
            thresholds: seq![trim_spec(threshold_text)],
        }),
{
    reveal_strlit("shape=");
    reveal_strlit("shape");
    reveal_strlit("threshold");
    reveal_strlit("hexagon");
    reveal_strlit("heart");
    reveal_strlit("\nthreshold=");
    reveal_strlit("\n");
    let name = shape_name(shape);
    let first = "shape"@ + seq!['='] + name;
    let second = "threshold"@ + seq!['='] + threshold_text;
    let empty = Seq::<char>::empty();
    let saved = save_spec(shape, threshold_text);
    assert("shape="@ =~= "shape"@ + seq!['=']);
    assert("\nthreshold="@ =~= seq!['\n'] + "threshold"@ + seq!['=']);
    assert("\n"@ =~= seq!['\n']);
    assert(saved =~= first + seq!['\n'] + second + seq!['\n']);
    assert(name.len() == 5 || name.len() == 7);
    assert(forall|i: int| 0 <= i < name.len() ==> name[i] != '\n' && name[i] != '=');

    // the three lines
    let tail = second + seq!['\n'];
    assert forall|i: int| 0 <= i < first.len() implies first[i] != '\n' by {
        if i >= 6 {
            assert(first[i] == name[i - 6]);
        }
    }
    lemma_index_of(saved, '\n', first.len() as int);
    assert(saved.take(first.len() as int) =~= first);
    assert(saved.skip(first.len() as int + 1) =~= tail);
    assert forall|i: int| 0 <= i < second.len() implies second[i] != '\n' by {
        if i >= 10 {
            assert(second[i] == threshold_text[i - 10]);
        }
    }
    lemma_index_of(tail, '\n', second.len() as int);
    assert(tail.take(second.len() as int) =~= second);
    assert(tail.skip(second.len() as int + 1) =~= empty);
    assert(split_lines_spec(empty) =~= seq![empty]);
    assert(split_lines_spec(tail) =~= seq![second] + seq![empty]);
    let lines = seq![first, second, empty];
    assert(split_lines_spec(saved) =~= lines);

    // what each line says
    lemma_entry_of_pair("shape"@, name);
    lemma_trim_of_word(name);
    assert(shape_of_value(name) == shape);
    lemma_entry_of_pair("threshold"@, threshold_text);
    assert(entry_spec(empty) == EntryView::Other);

    // put together
    let one = lines.drop_last();
    let none = one.drop_last();
    assert(one =~= seq![first, second]);
    assert(none =~= seq![first]);
    assert(none.drop_last() =~= Seq::<Seq<char>>::empty());
    assert(draft_of_lines(none.drop_last()) == (DraftView {
        shape: ShapeType::Hexagon,
        thresholds: Seq::empty(),
    }));
    assert(draft_of_lines(none) == (DraftView { shape, thresholds: Seq::empty() }));
    assert(Seq::<Seq<char>>::empty().push(trim_spec(threshold_text)) =~= seq![
        trim_spec(threshold_text),
    ]);
    assert(draft_of_lines(one) == (DraftView {
        shape,
        thresholds: seq![trim_spec(threshold_text)],
    }));
}

/// A threshold that is read back as the number it was saved as is loaded
/// unchanged.
pub proof fn lemma_load_of_single_reading(threshold: i64)
    requires
        is_fraction(threshold as int),
    ensures
        threshold_of_readings(seq![Some(threshold)]) == threshold,
{
    let readings = seq![Some(threshold)];
    assert(readings.last() == Some(threshold));
}

} // verus!

use vstd::prelude::*;
use itertools::Itertools;
use crate::text::{decimal_u16, parse_u16, split_tab, split_tabs, str_eq, strings_view, trim, trim_of};

verus! {

/// One verse record of the corpus.
#[derive(Clone, Debug)]
pub struct Verse {
    pub book: String,
    pub chapter: u16,
    pub verse: u16,
    pub text: String,
}

/// The whole corpus, in the order it was loaded.
#[derive(Clone, Debug)]
pub struct Bible {
    pub verses: Vec<Verse>,
}

/// A chapter key as plain values: book name and chapter number.
pub type KeyView = (Seq<char>, u16);

pub open spec fn key_of(v: Verse) -> KeyView {
    (v.book@, v.chapter)
}

pub open spec fn keys_view(s: Seq<(String, u16)>) -> Seq<KeyView> {
    s.map_values(|k: (String, u16)| (k.0@, k.1))
}

/// Stable de-duplication: each element kept at its first occurrence.
pub open spec fn dedup(s: Seq<KeyView>) -> Seq<KeyView>
    decreases s.len(),
{
    if s.len() == 0 {
        Seq::empty()
    } else {
        let d = dedup(s.drop_last());
        if d.contains(s.last()) {
            d
        } else {
            d.push(s.last())
        }
    }
}

/// The records of one chapter, in corpus order.
pub open spec fn passage_of(s: Seq<Verse>, book: Seq<char>, chap: u16) -> Seq<Verse>
    decreases s.len(),
{
    if s.len() == 0 {
        Seq::empty()
    } else {
        let p = passage_of(s.drop_last(), book, chap);
        if s.last().book@ == book && s.last().chapter == chap {
            p.push(s.last())
        } else {
            p
        }
    }
}


/// Why a corpus could not be loaded. Line numbers count from 1.
#[derive(Clone, Debug)]
pub enum LoadError {
    /// A non-blank line without 5 or 6 tab-separated columns.
    Columns { line: usize, count: usize },
    /// The chapter column is not a number.
    BadChapter { line: usize, token: String },
    /// The verse column is not a number.
    BadVerse { line: usize, token: String },
}

impl LoadError {
    pub open spec fn line_spec(&self) -> int {
        match self {
            LoadError::Columns { line, .. } => *line as int,
            LoadError::BadChapter { line, .. } => *line as int,
            LoadError::BadVerse { line, .. } => *line as int,
        }
    }

    /// The 1-based number of the offending line.
    pub fn line(&self) -> (r: usize)
        ensures
            r == self.line_spec(),
    {
        match self {
            LoadError::Columns { line, .. } => *line,
            LoadError::BadChapter { line, .. } => *line,
            LoadError::BadVerse { line, .. } => *line,
        }
    }
}

/// A record as plain values: book, chapter, verse, text.
pub type VerseView = (Seq<char>, u16, u16, Seq<char>);

pub open spec fn verse_view(v: Verse) -> VerseView {
    (v.book@, v.chapter, v.verse, v.text@)
}

pub open spec fn is_blank(l: Seq<char>) -> bool {
    trim_of(l).len() == 0
}

/// A line with 5 columns (book, -, chapter, verse, text) or
/// 6 columns (book, -, -, chapter, verse, text).
pub open spec fn shape_ok(l: Seq<char>) -> bool {
    split_tab(l).len() == 5 || split_tab(l).len() == 6
}

/// Column of the chapter number; the verse and text follow it.
pub open spec fn chapter_col(l: Seq<char>) -> int {
    if split_tab(l).len() == 5 {
        2
    } else {
        3
    }
}

pub open spec fn chapter_field(l: Seq<char>) -> Seq<char> {
    split_tab(l)[chapter_col(l)]
}

pub open spec fn verse_field(l: Seq<char>) -> Seq<char> {
    split_tab(l)[chapter_col(l) + 1]
}

pub open spec fn line_ok(l: Seq<char>) -> bool {
    is_blank(l) || (shape_ok(l) && decimal_u16(trim_of(chapter_field(l))) is Some
        && decimal_u16(trim_of(verse_field(l))) is Some)
}

pub open spec fn record_of(l: Seq<char>) -> VerseView {
    (
        split_tab(l)[0],
        decimal_u16(trim_of(chapter_field(l)))->0,
        decimal_u16(trim_of(verse_field(l)))->0,
        split_tab(l)[chapter_col(l) + 2],
    )
}

/// The records of the non-blank lines of `ls`, in order.
pub open spec fn records(ls: Seq<Seq<char>>) -> Seq<VerseView>
    decreases ls.len(),
{
    if ls.len() == 0 {
        Seq::empty()
    } else if is_blank(ls.last()) {
        records(ls.drop_last())
    } else {
        records(ls.drop_last()).push(record_of(ls.last()))
    }
}

/// `e` is the error that line `l`, numbered `ln`, gives.
pub open spec fn error_for(e: LoadError, l: Seq<char>, ln: int) -> bool {
    &&& !is_blank(l)
    &&& e.line_spec() == ln
    &&& match e {
        LoadError::Columns { count, .. } => !shape_ok(l) && count == split_tab(l).len(),
        LoadError::BadChapter { token, .. } => shape_ok(l) && token@ == chapter_field(l)
            && decimal_u16(trim_of(chapter_field(l))) is None,
        LoadError::BadVerse { token, .. } => shape_ok(l) && token@ == verse_field(l)
            && decimal_u16(trim_of(chapter_field(l))) is Some
            && decimal_u16(trim_of(verse_field(l))) is None,
    }
}

/// Relies on itertools' `Itertools::unique`: yields each distinct item once,
/// at its first occurrence, in input order (equality of `(String, u16)` is by content).
#[verifier::external_body]
fn unique_keys(keys: Vec<(String, u16)>) -> (r: Vec<(String, u16)>)
    ensures
        keys_view(r@) == dedup(keys_view(keys@)),
{
    keys.into_iter().unique().collect()
}

impl Bible {
    pub open spec fn chapter_keys(&self) -> Seq<KeyView> {
        self.verses@.map_values(|v: Verse| key_of(v))
    }

    /// The distinct chapter keys, in order of first occurrence.
    pub fn chapters(&self) -> (r: Vec<(String, u16)>)
        ensures
            keys_view(r@) == dedup(self.chapter_keys()),
    {
        let mut keys: Vec<(String, u16)> = Vec::new();
        let mut i: usize = 0;
        while i < self.verses.len()
            invariant
                i <= self.verses@.len(),
                keys@.len() == i,
                keys_view(keys@) == self.chapter_keys().subrange(0, i as int),
            decreases self.verses@.len() - i,
        {
            let v = &self.verses[i];
            let ghost before = keys@;
            keys.push((v.book.clone(), v.chapter));
            assert(keys@ =~= before.push(keys@[i as int]));
            assert(keys_view(keys@)[i as int] == self.chapter_keys()[i as int]);
            i = i + 1;
            assert(keys_view(keys@) =~= self.chapter_keys().subrange(0, i as int));
        }
        assert(self.chapter_keys().subrange(0, i as int) =~= self.chapter_keys());
        unique_keys(keys)
    }

    /// The records of `book` chapter `chap`, in corpus order; empty when none match.
    pub fn passage(&self, book: &str, chap: u16) -> (r: Vec<&Verse>)
        ensures
            r@.map_values(|v: &Verse| *v) == passage_of(self.verses@, book@, chap),
    {
        let mut out: Vec<&Verse> = Vec::new();
        let mut i: usize = 0;
        while i < self.verses.len()
            invariant
                i <= self.verses@.len(),
                out@.map_values(|v: &Verse| *v) == passage_of(self.verses@.subrange(0, i as int), book@, chap),
            decreases self.verses@.len() - i,
        {
            let v = &self.verses[i];
            assert(self.verses@.subrange(0, i + 1).drop_last() =~= self.verses@.subrange(0, i as int));
            if str_eq(v.book.as_str(), book) && v.chapter == chap {
                out.push(v);
            }
            assert(out@.map_values(|v: &Verse| *v) =~= passage_of(self.verses@.subrange(0, i + 1), book@, chap));
            i = i + 1;
        }
        assert(self.verses@.subrange(0, i as int) =~= self.verses@);
        out
    }

    /// One record from its columns; `ln` names the line in an error.
    fn make_verse(book: &String, ch: &String, vs: &String, txt: &String, ln: usize) -> (r: Result<
        Verse,
        LoadError,
    >)
        ensures
            r matches Ok(v) ==> decimal_u16(trim_of(ch@)) is Some && decimal_u16(trim_of(vs@)) is Some
                && verse_view(v) == (book@, decimal_u16(trim_of(ch@))->0, decimal_u16(
                trim_of(vs@),
            )->0, txt@),
            r matches Err(e) ==> e.line_spec() == ln && match e {
                LoadError::BadChapter { token, .. } => token@ == ch@ && decimal_u16(trim_of(ch@)) is None,
                LoadError::BadVerse { token, .. } => token@ == vs@ && decimal_u16(trim_of(ch@)) is Some
                    && decimal_u16(trim_of(vs@)) is None,
                _ => false,
            },
            r is Ok <==> (decimal_u16(trim_of(ch@)) is Some && decimal_u16(trim_of(vs@)) is Some),
    {
        let chapter = match parse_u16(trim(ch.as_str()).as_str()) {
            Some(c) => c,
            None => {
                return Err(LoadError::BadChapter { line: ln, token: ch.clone() });
            },
        };
        let verse = match parse_u16(trim(vs.as_str()).as_str()) {
            Some(v) => v,
            None => {
                return Err(LoadError::BadVerse { line: ln, token: vs.clone() });
            },
        };
        Ok(Verse { book: book.clone(), chapter, verse, text: txt.clone() })
    }

    /// Builds the corpus from the lines of a tab-separated file. Blank lines
    /// are skipped; the first malformed line stops the load.
    pub fn load_tsv(lines: &Vec<String>) -> (r: Result<Bible, LoadError>)
        ensures
            r matches Ok(b) ==> (forall|k: int| 0 <= k < lines@.len() ==> line_ok(#[trigger] lines@[k]@))
                && b.verses@.map_values(|v: Verse| verse_view(v)) == records(strings_view(lines@)),
            r matches Err(e) ==> 1 <= e.line_spec() <= lines@.len() && (forall|k: int|
                0 <= k < e.line_spec() - 1 ==> line_ok(#[trigger] lines@[k]@)) && error_for(
                e,
                lines@[e.line_spec() - 1]@,
                e.line_spec(),
            ),
    {
        let ghost ls = strings_view(lines@);
        let mut out: Vec<Verse> = Vec::new();
        let mut i: usize = 0;
        while i < lines.len()
            invariant
                ls == strings_view(lines@),
                i <= lines@.len(),
                forall|k: int| 0 <= k < i ==> line_ok(#[trigger] lines@[k]@),
                out@.map_values(|v: Verse| verse_view(v)) == records(ls.subrange(0, i as int)),
            decreases lines@.len() - i,
        {
            let line = lines[i].as_str();
            let ghost l = lines@[i as int]@;
            assert(ls.subrange(0, i + 1).drop_last() =~= ls.subrange(0, i as int));
            assert(ls.subrange(0, i + 1).last() == l);
            let t = trim(line);
            if t.unicode_len() > 0 {
                let cols = split_tabs(line);
                let n = cols.len();
                proof {
                    assert(strings_view(cols@).len() == n);
                }
                let ln = i + 1;
                let made = if n == 5 {
                    assert(cols@[2]@ == chapter_field(l));
                    assert(cols@[3]@ == verse_field(l));
                    Self::make_verse(&cols[0], &cols[2], &cols[3], &cols[4], ln)
                } else if n == 6 {
                    assert(cols@[3]@ == chapter_field(l));
                    assert(cols@[4]@ == verse_field(l));
                    Self::make_verse(&cols[0], &cols[3], &cols[4], &cols[5], ln)
                } else {
                    Err(LoadError::Columns { line: ln, count: n })
                };
                match made {
                    Ok(v) => {
                        let ghost before = out@;
                        out.push(v);
                        assert(out@.map_values(|v: Verse| verse_view(v)) =~= before.map_values(
                            |v: Verse| verse_view(v),
                        ).push(record_of(l)));
                    },
                    Err(e) => {
                        return Err(e);
                    },
                }
            }
            i = i + 1;
        }
        assert(ls.subrange(0, i as int) =~= ls);
        Ok(Bible { verses: out })
    }
}

} // verus!
